//! A growable vector with the growth discipline of an interface-stable
//! container: its capacity is always a power of two (or zero), rounded up
//! from what the caller asked for, and growth on demand doubles to the next
//! power of two.  The element storage is ordinary; what is verified is the
//! content seen through the view and the capacity accounting.

use vstd::prelude::*;

verus! {

/// The largest element count the capacity accounting supports: one
/// quarter of the address range, so that a capacity may still double to
/// the next power of two without overflowing.
pub open spec fn spec_max_len() -> nat {
    (usize::MAX as nat + 1) / 4
}

/// Whether `n` is a power of two.
pub open spec fn spec_is_pow2(n: nat) -> bool
    decreases n,
{
    if n == 0 {
        false
    } else if n == 1 {
        true
    } else {
        n % 2 == 0 && spec_is_pow2(n / 2)
    }
}

/// The capacity a request rounds up to: the least power of two at or above
/// it, except that a request of zero stays zero.
pub open spec fn spec_rounded_cap(want: nat, got: nat) -> bool {
    if want == 0 {
        got == 0
    } else {
        spec_is_pow2(got) && got >= want && got / 2 < want
    }
}

/// The least power of two at or above `n`.
fn next_pow2(n: usize) -> (r: usize)
    requires
        n as nat <= spec_max_len(),
    ensures
        spec_is_pow2(r as nat),
        r >= n,
        n > 0 ==> ((r as nat) / 2 < n as nat),
        n == 0 ==> r == 1,
        (r as nat) < 2 * spec_max_len(),
{
    let mut p: usize = 1;
    while p < n
        invariant
            1 <= p,
            spec_is_pow2(p as nat),
            p == 1 || ((p as nat) / 2 < n as nat),
            n as nat <= spec_max_len(),
        decreases 2 * (n as int) - p,
    {
        p = p * 2;
    }
    p
}

/// The allocator the container is tied to; allocation itself is left to
/// the element storage, so the allocator carries no state.
#[derive(Clone, Copy, Debug, Default, Hash, PartialEq, Eq, Structural)]
pub struct XLangAlloc {}

impl XLangAlloc {
    /// The allocator.
    pub fn new() -> (r: XLangAlloc)
        ensures
            r == (XLangAlloc {  }),
    {
        XLangAlloc {  }
    }
}

/// The growable vector: ordered contents plus its power-of-two capacity
/// accounting.
pub struct AbiVec<T> {
    data: Vec<T>,
    cap: usize,
    alloc: XLangAlloc,
}

impl<T> View for AbiVec<T> {
    type V = Seq<T>;

    closed spec fn view(&self) -> Seq<T> {
        self.data@
    }
}

impl<T> AbiVec<T> {
    /// The capacity accounting invariant: the capacity is zero or a power
    /// of two, and covers the contents.
    pub closed spec fn wf(&self) -> bool {
        &&& (self.cap as nat) < 2 * spec_max_len()
        &&& self.cap == 0 || spec_is_pow2(self.cap as nat)
        &&& self@.len() <= self.cap
    }

    /// Creates a new, empty vector without reserving space.
    pub fn new() -> (r: AbiVec<T>)
        ensures
            r@ == Seq::<T>::empty(),
            r.wf(),
            r.spec_capacity() == 0,
    {
        AbiVec::new_in(XLangAlloc::new())
    }

    /// Creates a new, empty vector in the given allocator without
    /// reserving space.
    pub fn new_in(alloc: XLangAlloc) -> (r: AbiVec<T>)
        ensures
            r@ == Seq::<T>::empty(),
            r.wf(),
            r.spec_capacity() == 0,
    {
        let r = AbiVec { data: Vec::new(), cap: 0, alloc };
        proof {
            assert(r@ =~= Seq::<T>::empty());
        }
        r
    }

    /// The allocator the vector was created in.
    pub fn allocator(&self) -> (r: &XLangAlloc)
        ensures
            *r == self.spec_allocator(),
    {
        &self.alloc
    }

    /// The recorded allocator.
    pub closed spec fn spec_allocator(&self) -> XLangAlloc {
        self.alloc
    }

    /// Creates an empty vector whose capacity is the request rounded up to
    /// a power of two.
    pub fn with_capacity(cap: usize) -> (r: AbiVec<T>)
        requires
            cap as nat <= spec_max_len(),
        ensures
            r@ == Seq::<T>::empty(),
            r.wf(),
            spec_rounded_cap(cap as nat, r.spec_capacity() as nat),
    {
        if cap == 0 {
            AbiVec::new()
        } else {
            let rounded = next_pow2(cap);
            let mut data: Vec<T> = Vec::new();
            data.reserve(rounded);
            let r = AbiVec { data, cap: rounded, alloc: XLangAlloc::new() };
            proof {
                assert(r@ =~= Seq::<T>::empty());
            }
            r
        }
    }

    /// The recorded capacity.
    pub closed spec fn spec_capacity(&self) -> usize {
        self.cap
    }

    /// The number of elements held.
    pub fn len(&self) -> (r: usize)
        ensures
            r == self@.len(),
    {
        self.data.len()
    }

    /// The recorded capacity: how many elements fit before the vector
    /// grows.  On a well-formed vector it covers the contents.
    pub fn capacity(&self) -> (r: usize)
        ensures
            r == self.spec_capacity(),
            self.wf() ==> r >= self@.len(),
    {
        self.cap
    }

    /// Appends one element, doubling the capacity to the next power of two
    /// when it is full.
    pub fn push(&mut self, val: T)
        requires
            old(self).wf(),
            old(self)@.len() < spec_max_len(),
        ensures
            final(self)@ == old(self)@.push(val),
            final(self).wf(),
            final(self).spec_capacity() >= old(self).spec_capacity(),
    {
        if self.data.len() == self.cap {
            let ncap = next_pow2(self.cap + 1);
            self.cap = ncap;
        }
        self.data.push(val);
    }

    /// Removes and returns the last element, if any, without changing the
    /// capacity.
    pub fn pop(&mut self) -> (r: Option<T>)
        requires
            old(self).wf(),
        ensures
            final(self).wf(),
            final(self).spec_capacity() == old(self).spec_capacity(),
            old(self)@.len() > 0 ==> ({
                &&& r matches Option::Some(v) && v == old(self)@[old(self)@.len() - 1]
                &&& final(self)@ == old(self)@.take(old(self)@.len() - 1)
            }),
            old(self)@.len() == 0 ==> r is None && final(self)@ == old(self)@,
    {
        let r = self.data.pop();
        proof {
            if old(self)@.len() > 0 {
                assert(final(self)@ =~= old(self)@.take(old(self)@.len() - 1));
            }
        }
        r
    }

    /// A read-only view of the element at `i`.
    pub fn get(&self, i: usize) -> (r: Option<&T>)
        ensures
            i < self@.len() ==> (r matches Option::Some(v) && *v == self@[i as int]),
            i >= self@.len() ==> r is None,
    {
        if i < self.data.len() {
            Option::Some(&self.data[i])
        } else {
            Option::None
        }
    }

    /// Ensures room for `additional` more elements, rounding the needed
    /// capacity to a power of two.
    pub fn reserve(&mut self, additional: usize)
        requires
            old(self).wf(),
            old(self)@.len() + additional <= spec_max_len(),
        ensures
            final(self)@ == old(self)@,
            final(self).wf(),
            final(self).spec_capacity() as nat >= old(self)@.len() + additional,
            final(self).spec_capacity() >= old(self).spec_capacity(),
    {
        let need: usize = self.data.len() + additional;
        let ncap = next_pow2(need);
        if self.cap < ncap {
            self.data.reserve(additional);
            self.cap = ncap;
        } else {
            proof {
                assert(self.cap >= need);
            }
        }
    }

    /// Empties the vector without changing the capacity.
    pub fn clear(&mut self)
        requires
            old(self).wf(),
        ensures
            final(self)@ == Seq::<T>::empty(),
            final(self).wf(),
            final(self).spec_capacity() == old(self).spec_capacity(),
    {
        self.data.clear();
        proof {
            assert(final(self)@ =~= Seq::<T>::empty());
        }
    }
}

impl<T: Clone> AbiVec<T> {
    /// Clones the elements of `x` onto the end of the vector.
    pub fn extend_from_slice(&mut self, x: &[T])
        requires
            old(self).wf(),
            old(self)@.len() + x@.len() <= spec_max_len(),
        ensures
            final(self).wf(),
            final(self)@.len() == old(self)@.len() + x@.len(),
            forall|i: int|
                #![trigger final(self)@[i]]
                0 <= i < final(self)@.len() ==> if i < old(self)@.len() {
                    final(self)@[i] == old(self)@[i]
                } else {
                    vstd::pervasive::cloned::<T>(x@[i - old(self)@.len()], final(self)@[i])
                },
    {
        self.reserve(x.len());
        self.data.extend_from_slice(x);
    }
}

} // verus!
