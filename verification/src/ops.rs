//! A re-statement of the standard short-circuiting control-flow protocol,
//! usable across a stable interface boundary, together with its
//! implementation for `Result`.

use vstd::pervasive::unreached;
use vstd::prelude::*;

verus! {

/// The outcome of branching a fallible value: go on with the usual value,
/// or stop with the residual.
#[derive(Debug)]
pub enum ControlFlow<B, C> {
    Continue(C),
    Break(B),
}

/// Construction of a type from the residual of a failed computation.  A
/// residual is only ever taken from a computation that broke, which the
/// admissibility condition records.
pub trait FromResidual<Residual>: Sized {
    spec fn residual_admissible(res: &Residual) -> bool;

    fn from_residual(res: Residual) -> Self
        requires
            Self::residual_admissible(&res),
    ;
}

/// The short-circuiting protocol: a value either continues with an output
/// or breaks with a residual, and can be rebuilt from either.
pub trait Try: FromResidual<<Self as Try>::Residual> {
    type Residual;

    type Output;

    fn from_output(output: Self::Output) -> Self;

    fn branch(self) -> ControlFlow<Self::Residual, Self::Output>;
}

/// The success side of a residual; the protocol never constructs a value
/// for it, so a residual can only carry the failure.
#[derive(Clone, Copy, Debug)]
pub struct Empty {}

impl<T, E> FromResidual<Result<Empty, E>> for Result<T, E> {
    /// A residual of a `Result` is admissible exactly when it broke with an
    /// error.
    open spec fn residual_admissible(res: &Result<Empty, E>) -> bool {
        res is Err
    }

    /// Rebuilds a `Result` from a failed computation's residual.
    fn from_residual(res: Result<Empty, E>) -> (r: Self)
        ensures
            res matches Result::Err(e) ==> r matches Result::Err(e2) && e2 == e,
    {
        match res {
            Result::Ok(_) => unreached(),
            Result::Err(e) => Result::Err(e),
        }
    }
}

impl<T, E> Try for Result<T, E> {
    type Residual = Result<Empty, E>;

    type Output = T;

    /// Wraps a success value.
    fn from_output(output: T) -> (r: Self)
        ensures
            r matches Result::Ok(v) && v == output,
    {
        Result::Ok(output)
    }

    /// Splits into the success value or the error-carrying residual.
    fn branch(self) -> (r: ControlFlow<Result<Empty, E>, T>)
        ensures
            match r {
                ControlFlow::Continue(v) => self matches Result::Ok(v2) && v2 == v,
                ControlFlow::Break(res) => {
                    &&& self matches Result::Err(e)
                    &&& res matches Result::Err(e2) && e2 == e
                },
            },
    {
        match self {
            Result::Ok(c) => ControlFlow::Continue(c),
            Result::Err(e) => ControlFlow::Break(Result::Err(e)),
        }
    }
}

} // verus!
