//! The IR validator: type unification, operand stack simulation, and
//! block/control-flow checking.
//!
//! Every checking function is a faithful implementation of a spec-level
//! model (`spec_unify`, `spec_expr_step`, ...); its contract states that it
//! returns exactly what the model says.  Type resolution through the global
//! tables can chase `Named` references indefinitely on cyclic inputs, so the
//! model carries a recursion budget; exhausting it is reported as its own
//! error, distinct from a genuine mismatch.

use crate::ir::{
    AggregateCtor, AggregateDefinition, AggregateKind, ArrayType, BinaryOp, Block, BlockItem,
    BranchCondition, Expr, File, FnType, FunctionBody, FunctionDeclaration, HashSwitch, LValueOp,
    MemberDeclaration, OverflowBehaviour, Path, PointerAliasingRule, PointerType, ScalarType,
    ScalarTypeHeader, ScalarTypeKind, ScalarValidity, Scope, ScopeMember, SpecAggregateDefinition,
    SpecArrayType, SpecFnType, SpecPath, SpecPointerType, SpecStackItem, SpecType, SpecValue,
    StackItem, StackValueKind, StaticDefinition, Switch, Type, UnaryOp, ValidRange,
    ValidRangeType, Value, extend_stack_clone, lemma_view_fields, lemma_view_stack,
    lemma_view_stack_concat, lemma_view_stack_push, lemma_view_types, view_aggregate_definition,
    view_fields, view_fn_type, view_pointer_type, view_stack, view_type, view_types, view_value,
};
use vstd::prelude::*;

verus! {

/// The kinds of fault the validator reports.
#[derive(Clone, Copy, Debug, PartialEq, Eq, Structural)]
pub enum ValidateError {
    /// A named type, call target, or branch label was not found.
    Unresolved,
    /// Two types failed structural unification.
    TypeMismatch,
    /// An operation received an l-value where an r-value was required, or the
    /// other way round.
    KindViolation,
    /// A block join point or branch target disagreed with the live stack in
    /// length, kind, or type.
    StackMismatch,
    /// An explicitly unimplemented construct was encountered.
    Unsupported,
    /// A structural invariant of the input was broken: a duplicate target
    /// label, a malformed nesting ordinal, or popping more items than the
    /// stack holds.
    Malformed,
    /// Type resolution recursed past the supported depth.
    RecursionLimit,
}

/// The recursion budget for type unification and field lookup.
pub const UNIFY_FUEL: usize = 64;

// ---------------------------------------------------------------------------
// The global type tables
// ---------------------------------------------------------------------------

/// The global tables built in pass one: function/static types keyed by path,
/// and aggregate definitions keyed by path (`None` marks an opaque,
/// forward-declared aggregate).
pub struct TypeState {
    pub tys: Vec<(Path, Type)>,
    pub aggregate: Vec<(Path, Option<AggregateDefinition>)>,
}

/// The mathematical mirror of [`TypeState`].
#[verifier::ext_equal]
pub struct SpecTypeState {
    pub tys: Seq<(SpecPath, SpecType)>,
    pub aggregate: Seq<(SpecPath, Option<SpecAggregateDefinition>)>,
}

pub open spec fn view_ty_table(v: Seq<(Path, Type)>) -> Seq<(SpecPath, SpecType)>
    decreases v,
{
    if v.len() == 0 {
        Seq::empty()
    } else {
        view_ty_table(v.subrange(0, v.len() - 1)).push(
            (v[v.len() - 1].0.deep_view(), view_type(v[v.len() - 1].1)),
        )
    }
}

/// The mirror of a type table is the table of the mirrors.
pub broadcast proof fn lemma_view_ty_table(v: Seq<(Path, Type)>)
    ensures
        (#[trigger] view_ty_table(v)).len() == v.len(),
        forall|i: int| 0 <= i < v.len()
            ==> view_ty_table(v)[i] == (v[i].0.deep_view(), view_type(v[i].1)),
    decreases v.len(),
{
    if v.len() > 0 {
        lemma_view_ty_table(v.subrange(0, v.len() - 1));
    }
}

pub open spec fn view_ag_table(
    v: Seq<(Path, Option<AggregateDefinition>)>,
) -> Seq<(SpecPath, Option<SpecAggregateDefinition>)>
    decreases v,
{
    if v.len() == 0 {
        Seq::empty()
    } else {
        view_ag_table(v.subrange(0, v.len() - 1)).push(
            (
                v[v.len() - 1].0.deep_view(),
                match v[v.len() - 1].1 {
                    Option::Some(a) => Option::Some(view_aggregate_definition(a)),
                    Option::None => Option::None,
                },
            ),
        )
    }
}

/// The mirror of an aggregate table is the table of the mirrors.
pub broadcast proof fn lemma_view_ag_table(v: Seq<(Path, Option<AggregateDefinition>)>)
    ensures
        (#[trigger] view_ag_table(v)).len() == v.len(),
        forall|i: int| 0 <= i < v.len()
            ==> view_ag_table(v)[i] == (
                v[i].0.deep_view(),
                match v[i].1 {
                    Option::Some(a) => Option::Some(view_aggregate_definition(a)),
                    Option::None => Option::<SpecAggregateDefinition>::None,
                },
            ),
    decreases v.len(),
{
    if v.len() > 0 {
        lemma_view_ag_table(v.subrange(0, v.len() - 1));
    }
}

pub open spec fn view_type_state(ts: TypeState) -> SpecTypeState {
    SpecTypeState { tys: view_ty_table(ts.tys@), aggregate: view_ag_table(ts.aggregate@) }
}

impl DeepView for TypeState {
    type V = SpecTypeState;

    open spec fn deep_view(&self) -> SpecTypeState {
        view_type_state(*self)
    }
}

/// The binding a key has in an association table: entries added later win,
/// matching insertion into a map that overwrites.
pub open spec fn spec_assoc<V>(table: Seq<(SpecPath, V)>, key: SpecPath) -> Option<V>
    decreases table,
{
    if table.len() == 0 {
        Option::None
    } else if table[table.len() - 1].0 == key {
        Option::Some(table[table.len() - 1].1)
    } else {
        spec_assoc(table.subrange(0, table.len() - 1), key)
    }
}

impl TypeState {
    /// Looks up a path in the global type table.
    pub fn find_ty(&self, p: &Path) -> (r: Option<&Type>)
        ensures
            match r {
                Option::Some(t) => spec_assoc(self.deep_view().tys, p.deep_view())
                    == Option::Some(t.deep_view()),
                Option::None => spec_assoc(self.deep_view().tys, p.deep_view())
                    is None,
            },
    {
        proof {
            lemma_view_ty_table(self.tys@);
            assert(self.tys@.subrange(0, self.tys@.len() as int) =~= self.tys@);
        }
        let n: usize = self.tys.len();
        let mut i: usize = n;
        while i > 0
            invariant
                0 <= i <= n,
                n == self.tys.len(),
                spec_assoc(view_ty_table(self.tys@), p.deep_view()) == spec_assoc(
                    view_ty_table(self.tys@.subrange(0, i as int)),
                    p.deep_view(),
                ),
            decreases i,
        {
            i -= 1;
            proof {
                lemma_view_ty_table(self.tys@);
                lemma_view_ty_table(self.tys@.subrange(0, i + 1));
                lemma_view_ty_table(self.tys@.subrange(0, i as int));
                assert(self.tys@.subrange(0, i + 1).subrange(0, i as int) =~= self.tys@.subrange(
                    0,
                    i as int,
                ));
                assert(view_ty_table(self.tys@.subrange(0, i + 1)).subrange(0, i as int)
                    =~= view_ty_table(self.tys@.subrange(0, i as int)));
            }
            if self.tys[i].0.eq_deep(p) {
                return Option::Some(&self.tys[i].1);
            }
        }
        proof {
            assert(self.tys@.subrange(0, 0) =~= Seq::<(Path, Type)>::empty());
        }
        Option::None
    }

    /// Looks up a path in the aggregate-definition table.
    pub fn find_aggregate(&self, p: &Path) -> (r: Option<&Option<AggregateDefinition>>)
        ensures
            match r {
                Option::Some(a) => spec_assoc(self.deep_view().aggregate, p.deep_view())
                    == Option::Some(a.deep_view()),
                Option::None => spec_assoc(self.deep_view().aggregate, p.deep_view())
                    is None,
            },
    {
        proof {
            lemma_view_ag_table(self.aggregate@);
            assert(self.aggregate@.subrange(0, self.aggregate@.len() as int)
                =~= self.aggregate@);
        }
        let n: usize = self.aggregate.len();
        let mut i: usize = n;
        while i > 0
            invariant
                0 <= i <= n,
                n == self.aggregate.len(),
                spec_assoc(view_ag_table(self.aggregate@), p.deep_view()) == spec_assoc(
                    view_ag_table(self.aggregate@.subrange(0, i as int)),
                    p.deep_view(),
                ),
            decreases i,
        {
            i -= 1;
            proof {
                lemma_view_ag_table(self.aggregate@);
                lemma_view_ag_table(self.aggregate@.subrange(0, i + 1));
                lemma_view_ag_table(self.aggregate@.subrange(0, i as int));
                assert(self.aggregate@.subrange(0, i + 1).subrange(0, i as int)
                    =~= self.aggregate@.subrange(0, i as int));
                assert(view_ag_table(self.aggregate@.subrange(0, i + 1)).subrange(0, i as int)
                    =~= view_ag_table(self.aggregate@.subrange(0, i as int)));
            }
            if self.aggregate[i].0.eq_deep(p) {
                return Option::Some(&self.aggregate[i].1);
            }
        }
        proof {
            assert(self.aggregate@.subrange(0, 0) =~= Seq::<(
                Path,
                Option<AggregateDefinition>,
            )>::empty());
        }
        Option::None
    }
}

// ---------------------------------------------------------------------------
// Reification
// ---------------------------------------------------------------------------

/// Resolves one step of indirection: a `Named` type is replaced by its
/// binding in the global type table (or kept as is when unbound), and one
/// transparent wrapper is stripped.
pub open spec fn spec_reify(ts: SpecTypeState, t: SpecType) -> SpecType {
    match t {
        SpecType::Named(p) => match spec_assoc(ts.tys, p) {
            Option::Some(t2) => t2,
            Option::None => t,
        },
        SpecType::TaggedType(_, inner) => *inner,
        SpecType::Aligned(_, inner) => *inner,
        _ => t,
    }
}

impl TypeState {
    /// Reifies a type: resolves a `Named` reference through the global type
    /// table and strips one transparent wrapper.
    pub fn refiy_type(&self, ty: &Type) -> (r: Type)
        ensures
            r.deep_view() == spec_reify(self.deep_view(), ty.deep_view()),
    {
        match ty {
            Type::Named(p) => match self.find_ty(p) {
                Option::Some(t) => t.clone_deep(),
                Option::None => ty.clone_deep(),
            },
            Type::TaggedType(_, inner) => inner.clone_deep(),
            Type::Aligned(_, inner) => inner.clone_deep(),
            _ => ty.clone_deep(),
        }
    }
}

// ---------------------------------------------------------------------------
// Type unification
// ---------------------------------------------------------------------------

/// Structural compatibility of two scalar types: bit size and vector width
/// must match exactly, and the kinds must match by sub-case (integer
/// signedness; fixed-point fraction bits; character flags; float decimal
/// flag; long floats always agree).  Integer minimum/maximum bounds are
/// ignored.
pub open spec fn spec_unify_scalar(s1: ScalarType, s2: ScalarType) -> Result<(), ValidateError> {
    if s1.header.bitsize != s2.header.bitsize || s1.header.vectorsize != s2.header.vectorsize {
        Result::Err(ValidateError::TypeMismatch)
    } else {
        match (s1.kind, s2.kind) {
            (
                ScalarTypeKind::Integer { signed: sg1, .. },
                ScalarTypeKind::Integer { signed: sg2, .. },
            ) => if sg1 == sg2 {
                Result::Ok(())
            } else {
                Result::Err(ValidateError::TypeMismatch)
            },
            (
                ScalarTypeKind::Fixed { fractbits: f1 },
                ScalarTypeKind::Fixed { fractbits: f2 },
            ) => if f1 == f2 {
                Result::Ok(())
            } else {
                Result::Err(ValidateError::TypeMismatch)
            },
            (ScalarTypeKind::Char { flags: c1 }, ScalarTypeKind::Char { flags: c2 }) => if c1
                == c2 {
                Result::Ok(())
            } else {
                Result::Err(ValidateError::TypeMismatch)
            },
            (ScalarTypeKind::Float { decimal: d1 }, ScalarTypeKind::Float { decimal: d2 }) => if d1
                == d2 {
                Result::Ok(())
            } else {
                Result::Err(ValidateError::TypeMismatch)
            },
            (ScalarTypeKind::LongFloat, ScalarTypeKind::LongFloat) => Result::Ok(()),
            _ => Result::Err(ValidateError::TypeMismatch),
        }
    }
}

/// Structural compatibility of two types, after each side is reified.
/// `Null` unifies with anything; pointer annotations are not compared; a
/// non-integer array length is an unsupported construct; the budget bounds
/// resolution through the tables.
pub open spec fn spec_unify(
    ts: SpecTypeState,
    t1: SpecType,
    t2: SpecType,
    fuel: nat,
) -> Result<(), ValidateError>
    decreases fuel, 1nat, 0nat,
{
    if fuel == 0 {
        Result::Err(ValidateError::RecursionLimit)
    } else {
        match (spec_reify(ts, t1), spec_reify(ts, t2)) {
            (SpecType::Null, _) => Result::Ok(()),
            (_, SpecType::Null) => Result::Ok(()),
            (SpecType::Scalar(s1), SpecType::Scalar(s2)) => spec_unify_scalar(s1, s2),
            (SpecType::FnType(f1), SpecType::FnType(f2)) => spec_unify_fn(ts, f1, f2, fuel),
            (SpecType::Pointer(p1), SpecType::Pointer(p2)) => spec_unify(
                ts,
                *p1.inner,
                *p2.inner,
                (fuel - 1) as nat,
            ),
            (SpecType::Product(l1), SpecType::Product(l2)) => spec_unify_product(
                ts,
                l1,
                l2,
                fuel,
            ),
            (SpecType::Aggregate(a1), SpecType::Aggregate(a2)) => spec_unify_aggregate(
                ts,
                a1,
                a2,
                fuel,
            ),
            (SpecType::Array(ar1), SpecType::Array(ar2)) => spec_unify_array(ts, ar1, ar2, fuel),
            (SpecType::Named(p1), SpecType::Named(p2)) => if p1 == p2 {
                Result::Ok(())
            } else {
                Result::Err(ValidateError::TypeMismatch)
            },
            _ => Result::Err(ValidateError::TypeMismatch),
        }
    }
}

/// The function-type case of unification: calling convention, variadic flag,
/// and parameter count must match exactly; parameters are unified pairwise in
/// order; then the return types are unified.
pub open spec fn spec_unify_fn(
    ts: SpecTypeState,
    f1: SpecFnType,
    f2: SpecFnType,
    fuel: nat,
) -> Result<(), ValidateError>
    decreases fuel, 0nat, 0nat,
{
    if fuel == 0 {
        Result::Err(ValidateError::RecursionLimit)
    } else if f1.tag != f2.tag {
        Result::Err(ValidateError::TypeMismatch)
    } else if f1.variadic != f2.variadic {
        Result::Err(ValidateError::TypeMismatch)
    } else if f1.params.len() != f2.params.len() {
        Result::Err(ValidateError::TypeMismatch)
    } else {
        match spec_unify_list(ts, f1.params, f2.params, (fuel - 1) as nat) {
            Result::Ok(()) => spec_unify(ts, *f1.ret, *f2.ret, (fuel - 1) as nat),
            Result::Err(e) => Result::Err(e),
        }
    }
}

/// The product case of unification: the arities must be equal; elements are
/// unified pairwise.
pub open spec fn spec_unify_product(
    ts: SpecTypeState,
    l1: Seq<SpecType>,
    l2: Seq<SpecType>,
    fuel: nat,
) -> Result<(), ValidateError>
    decreases fuel, 0nat, 0nat,
{
    if fuel == 0 {
        Result::Err(ValidateError::RecursionLimit)
    } else if l1.len() != l2.len() {
        Result::Err(ValidateError::TypeMismatch)
    } else {
        spec_unify_list(ts, l1, l2, (fuel - 1) as nat)
    }
}

/// The aggregate case of unification: kind and annotation list must be
/// exactly equal; fields are unified pairwise by position.
pub open spec fn spec_unify_aggregate(
    ts: SpecTypeState,
    a1: SpecAggregateDefinition,
    a2: SpecAggregateDefinition,
    fuel: nat,
) -> Result<(), ValidateError>
    decreases fuel, 0nat, 0nat,
{
    if fuel == 0 {
        Result::Err(ValidateError::RecursionLimit)
    } else if a1.kind != a2.kind {
        Result::Err(ValidateError::TypeMismatch)
    } else if a1.annotations != a2.annotations {
        Result::Err(ValidateError::TypeMismatch)
    } else {
        spec_unify_fields(ts, a1.fields, a2.fields, (fuel - 1) as nat)
    }
}

/// The array case of unification: only integer lengths are supported; the
/// lengths' scalar types must unify and the values must be equal.
pub open spec fn spec_unify_array(
    ts: SpecTypeState,
    ar1: SpecArrayType,
    ar2: SpecArrayType,
    fuel: nat,
) -> Result<(), ValidateError>
    decreases fuel, 0nat, 0nat,
{
    if fuel == 0 {
        Result::Err(ValidateError::RecursionLimit)
    } else {
        match (*ar1.len, *ar2.len) {
            (
                SpecValue::Integer { ty: s1, val: v1 },
                SpecValue::Integer { ty: s2, val: v2 },
            ) => {
                match spec_unify(ts, SpecType::Scalar(s1), SpecType::Scalar(s2), (fuel - 1) as nat) {
                    Result::Ok(()) => if v1 == v2 {
                        Result::Ok(())
                    } else {
                        Result::Err(ValidateError::TypeMismatch)
                    },
                    Result::Err(e) => Result::Err(e),
                }
            }
            _ => Result::Err(ValidateError::Unsupported),
        }
    }
}

/// Pairwise unification of two type lists, in order, up to the shorter one;
/// the first fault wins.
pub open spec fn spec_unify_list(
    ts: SpecTypeState,
    l1: Seq<SpecType>,
    l2: Seq<SpecType>,
    fuel: nat,
) -> Result<(), ValidateError>
    decreases fuel, 2nat, l1.len(),
{
    if l1.len() == 0 || l2.len() == 0 {
        Result::Ok(())
    } else {
        match spec_unify(ts, l1[0], l2[0], fuel) {
            Result::Ok(()) => spec_unify_list(ts, l1.skip(1), l2.skip(1), fuel),
            Result::Err(e) => Result::Err(e),
        }
    }
}

/// Pairwise unification of two aggregate field lists: each pair's types are
/// unified, then the names must be equal.
pub open spec fn spec_unify_fields(
    ts: SpecTypeState,
    f1: Seq<(Seq<char>, SpecType)>,
    f2: Seq<(Seq<char>, SpecType)>,
    fuel: nat,
) -> Result<(), ValidateError>
    decreases fuel, 2nat, f1.len(),
{
    if f1.len() == 0 || f2.len() == 0 {
        Result::Ok(())
    } else {
        match spec_unify(ts, f1[0].1, f2[0].1, fuel) {
            Result::Ok(()) => if f1[0].0 == f2[0].0 {
                spec_unify_fields(ts, f1.skip(1), f2.skip(1), fuel)
            } else {
                Result::Err(ValidateError::TypeMismatch)
            },
            Result::Err(e) => Result::Err(e),
        }
    }
}

fn check_unify_fuel(
    ty1: &Type,
    ty2: &Type,
    type_state: &TypeState,
    fuel: usize,
) -> (r: Result<(), ValidateError>)
    ensures
        r == spec_unify(type_state.deep_view(), ty1.deep_view(), ty2.deep_view(), fuel as nat),
    decreases fuel, 1nat, 0nat,
{
    if fuel == 0 {
        return Result::Err(ValidateError::RecursionLimit);
    }
    let rf1 = type_state.refiy_type(ty1);
    let rf2 = type_state.refiy_type(ty2);
    let r: Result<(), ValidateError> = match (&rf1, &rf2) {
        (Type::Null, _) => Result::Ok(()),
        (_, Type::Null) => Result::Ok(()),
        (Type::Scalar(s1), Type::Scalar(s2)) => {
            if s1.header.bitsize != s2.header.bitsize || s1.header.vectorsize
                != s2.header.vectorsize {
                Result::Err(ValidateError::TypeMismatch)
            } else {
                match (&s1.kind, &s2.kind) {
                    (
                        ScalarTypeKind::Integer { signed: sg1, .. },
                        ScalarTypeKind::Integer { signed: sg2, .. },
                    ) => if sg1 == sg2 {
                        Result::Ok(())
                    } else {
                        Result::Err(ValidateError::TypeMismatch)
                    },
                    (
                        ScalarTypeKind::Fixed { fractbits: f1 },
                        ScalarTypeKind::Fixed { fractbits: f2 },
                    ) => if f1 == f2 {
                        Result::Ok(())
                    } else {
                        Result::Err(ValidateError::TypeMismatch)
                    },
                    (
                        ScalarTypeKind::Char { flags: c1 },
                        ScalarTypeKind::Char { flags: c2 },
                    ) => if c1 == c2 {
                        Result::Ok(())
                    } else {
                        Result::Err(ValidateError::TypeMismatch)
                    },
                    (
                        ScalarTypeKind::Float { decimal: d1 },
                        ScalarTypeKind::Float { decimal: d2 },
                    ) => if d1 == d2 {
                        Result::Ok(())
                    } else {
                        Result::Err(ValidateError::TypeMismatch)
                    },
                    (ScalarTypeKind::LongFloat, ScalarTypeKind::LongFloat) => Result::Ok(()),
                    _ => Result::Err(ValidateError::TypeMismatch),
                }
            }
        }
        (Type::FnType(f1), Type::FnType(f2)) => check_unify_fn(f1, f2, type_state, fuel),
        (Type::Pointer(p1), Type::Pointer(p2)) => {
            proof {
                assert(view_type(rf1) == SpecType::Pointer(view_pointer_type(*p1)));
                assert(view_type(rf2) == SpecType::Pointer(view_pointer_type(*p2)));
            }
            check_unify_fuel(&p1.inner, &p2.inner, type_state, fuel - 1)
        },
        (Type::Product(l1), Type::Product(l2)) => check_unify_product(l1, l2, type_state, fuel),
        (Type::Aggregate(a1), Type::Aggregate(a2)) => check_unify_aggregate(
            a1,
            a2,
            type_state,
            fuel,
        ),
        (Type::Array(ar1), Type::Array(ar2)) => check_unify_array(ar1, ar2, type_state, fuel),
        (Type::Named(p1), Type::Named(p2)) => if p1.eq_deep(p2) {
            Result::Ok(())
        } else {
            Result::Err(ValidateError::TypeMismatch)
        },
        _ => Result::Err(ValidateError::TypeMismatch),
    };
    r
}

fn check_unify_fn(
    f1: &FnType,
    f2: &FnType,
    type_state: &TypeState,
    fuel: usize,
) -> (r: Result<(), ValidateError>)
    ensures
        r == spec_unify_fn(
            type_state.deep_view(),
            view_fn_type(*f1),
            view_fn_type(*f2),
            fuel as nat,
        ),
    decreases fuel, 0nat, 0nat,
{
    if fuel == 0 {
        return Result::Err(ValidateError::RecursionLimit);
    }
    proof {
        lemma_view_types(f1.params@);
        lemma_view_types(f2.params@);
    }
    if !abi_eq(f1.tag, f2.tag) {
        Result::Err(ValidateError::TypeMismatch)
    } else if f1.variadic != f2.variadic {
        Result::Err(ValidateError::TypeMismatch)
    } else if f1.params.len() != f2.params.len() {
        Result::Err(ValidateError::TypeMismatch)
    } else {
        match check_unify_list(&f1.params, &f2.params, type_state, fuel - 1) {
            Result::Ok(()) => check_unify_fuel(&f1.ret, &f2.ret, type_state, fuel - 1),
            Result::Err(e) => Result::Err(e),
        }
    }
}

fn check_unify_product(
    l1: &Vec<Type>,
    l2: &Vec<Type>,
    type_state: &TypeState,
    fuel: usize,
) -> (r: Result<(), ValidateError>)
    ensures
        r == spec_unify_product(
            type_state.deep_view(),
            view_types(l1@),
            view_types(l2@),
            fuel as nat,
        ),
    decreases fuel, 0nat, 0nat,
{
    if fuel == 0 {
        return Result::Err(ValidateError::RecursionLimit);
    }
    proof {
        lemma_view_types(l1@);
        lemma_view_types(l2@);
    }
    if l1.len() != l2.len() {
        Result::Err(ValidateError::TypeMismatch)
    } else {
        check_unify_list(l1, l2, type_state, fuel - 1)
    }
}

fn check_unify_aggregate(
    a1: &AggregateDefinition,
    a2: &AggregateDefinition,
    type_state: &TypeState,
    fuel: usize,
) -> (r: Result<(), ValidateError>)
    ensures
        r == spec_unify_aggregate(
            type_state.deep_view(),
            view_aggregate_definition(*a1),
            view_aggregate_definition(*a2),
            fuel as nat,
        ),
    decreases fuel, 0nat, 0nat,
{
    if fuel == 0 {
        return Result::Err(ValidateError::RecursionLimit);
    }
    if !aggregate_kind_eq(a1.kind, a2.kind) {
        Result::Err(ValidateError::TypeMismatch)
    } else if !a1.annotations.eq_deep(&a2.annotations) {
        Result::Err(ValidateError::TypeMismatch)
    } else {
        check_unify_field_lists(&a1.fields, &a2.fields, type_state, fuel - 1)
    }
}

fn check_unify_array(
    ar1: &ArrayType,
    ar2: &ArrayType,
    type_state: &TypeState,
    fuel: usize,
) -> (r: Result<(), ValidateError>)
    ensures
        r == spec_unify_array(
            type_state.deep_view(),
            ar1.deep_view(),
            ar2.deep_view(),
            fuel as nat,
        ),
    decreases fuel, 0nat, 0nat,
{
    if fuel == 0 {
        return Result::Err(ValidateError::RecursionLimit);
    }
    match (&ar1.len, &ar2.len) {
        (Value::Integer { ty: s1, val: v1 }, Value::Integer { ty: s2, val: v2 }) => {
            let t1 = Type::Scalar(*s1);
            let t2 = Type::Scalar(*s2);
            match check_unify_fuel(&t1, &t2, type_state, fuel - 1) {
                Result::Ok(()) => if v1 == v2 {
                    Result::Ok(())
                } else {
                    Result::Err(ValidateError::TypeMismatch)
                },
                Result::Err(e) => Result::Err(e),
            }
        }
        _ => Result::Err(ValidateError::Unsupported),
    }
}

/// Equality of two calling-convention tags.
fn abi_eq(a: crate::ir::Abi, b: crate::ir::Abi) -> (r: bool)
    ensures
        r == (a == b),
{
    match (a, b) {
        (crate::ir::Abi::C, crate::ir::Abi::C) => true,
        (crate::ir::Abi::Cdecl, crate::ir::Abi::Cdecl) => true,
        (crate::ir::Abi::Fastcall, crate::ir::Abi::Fastcall) => true,
        (crate::ir::Abi::Stdcall, crate::ir::Abi::Stdcall) => true,
        (crate::ir::Abi::Vectorcall, crate::ir::Abi::Vectorcall) => true,
        (crate::ir::Abi::Thiscall, crate::ir::Abi::Thiscall) => true,
        (crate::ir::Abi::SysV, crate::ir::Abi::SysV) => true,
        _ => false,
    }
}

/// Equality of two aggregate kinds.
fn aggregate_kind_eq(a: AggregateKind, b: AggregateKind) -> (r: bool)
    ensures
        r == (a == b),
{
    match (a, b) {
        (AggregateKind::Struct, AggregateKind::Struct) => true,
        (AggregateKind::Union, AggregateKind::Union) => true,
        _ => false,
    }
}

#[verifier::loop_isolation(false)]
fn check_unify_list(
    l1: &Vec<Type>,
    l2: &Vec<Type>,
    type_state: &TypeState,
    fuel: usize,
) -> (r: Result<(), ValidateError>)
    ensures
        r == spec_unify_list(
            type_state.deep_view(),
            view_types(l1@),
            view_types(l2@),
            fuel as nat,
        ),
    decreases fuel, 2nat, l1@.len(),
{
    proof {
        lemma_view_types(l1@);
        lemma_view_types(l2@);
        assert(view_types(l1@).skip(0) =~= view_types(l1@));
        assert(view_types(l2@).skip(0) =~= view_types(l2@));
    }
    let n: usize = if l1.len() < l2.len() {
        l1.len()
    } else {
        l2.len()
    };
    let mut i: usize = 0;
    while i < n
        invariant
            0 <= i <= n,
            spec_unify_list(
                type_state.deep_view(),
                view_types(l1@),
                view_types(l2@),
                fuel as nat,
            ) == spec_unify_list(
                type_state.deep_view(),
                view_types(l1@).skip(i as int),
                view_types(l2@).skip(i as int),
                fuel as nat,
            ),
        decreases n - i,
    {
        match check_unify_fuel(&l1[i], &l2[i], type_state, fuel) {
            Result::Ok(()) => {
                proof {
                    assert(view_types(l1@).skip(i as int)[0] == view_type(l1@[i as int]));
                    assert(view_types(l1@).skip(i as int).skip(1) =~= view_types(l1@).skip(
                        i + 1,
                    ));
                    assert(view_types(l2@).skip(i as int).skip(1) =~= view_types(l2@).skip(
                        i + 1,
                    ));
                }
            }
            Result::Err(e) => {
                return Result::Err(e);
            }
        }
        i += 1;
    }
    proof {
        if view_types(l1@).skip(i as int).len() != 0 && view_types(l2@).skip(i as int).len()
            != 0 {
            assert(false);
        }
    }
    Result::Ok(())
}

#[verifier::loop_isolation(false)]
fn check_unify_field_lists(
    f1: &Vec<(String, Type)>,
    f2: &Vec<(String, Type)>,
    type_state: &TypeState,
    fuel: usize,
) -> (r: Result<(), ValidateError>)
    ensures
        r == spec_unify_fields(
            type_state.deep_view(),
            view_fields(f1@),
            view_fields(f2@),
            fuel as nat,
        ),
    decreases fuel, 2nat, f1@.len(),
{
    proof {
        lemma_view_fields(f1@);
        lemma_view_fields(f2@);
        assert(view_fields(f1@).skip(0) =~= view_fields(f1@));
        assert(view_fields(f2@).skip(0) =~= view_fields(f2@));
    }
    let n: usize = if f1.len() < f2.len() {
        f1.len()
    } else {
        f2.len()
    };
    let mut i: usize = 0;
    while i < n
        invariant
            0 <= i <= n,
            spec_unify_fields(
                type_state.deep_view(),
                view_fields(f1@),
                view_fields(f2@),
                fuel as nat,
            ) == spec_unify_fields(
                type_state.deep_view(),
                view_fields(f1@).skip(i as int),
                view_fields(f2@).skip(i as int),
                fuel as nat,
            ),
        decreases n - i,
    {
        match check_unify_fuel(&f1[i].1, &f2[i].1, type_state, fuel) {
            Result::Ok(()) => {
                if !(f1[i].0 == f2[i].0) {
                    return Result::Err(ValidateError::TypeMismatch);
                }
                proof {
                    assert(view_fields(f1@).skip(i as int).skip(1) =~= view_fields(f1@).skip(
                        i + 1,
                    ));
                    assert(view_fields(f2@).skip(i as int).skip(1) =~= view_fields(f2@).skip(
                        i + 1,
                    ));
                }
            }
            Result::Err(e) => {
                return Result::Err(e);
            }
        }
        i += 1;
    }
    proof {
        if view_fields(f1@).skip(i as int).len() != 0 && view_fields(f2@).skip(i as int).len()
            != 0 {
            assert(false);
        }
    }
    Result::Ok(())
}

/// Decides structural compatibility of two types against the global tables.
/// Returns exactly what the mathematical unification relation says, at the
/// standard recursion budget.
pub fn check_unify(ty1: &Type, ty2: &Type, type_state: &TypeState) -> (r: Result<
    (),
    ValidateError,
>)
    ensures
        r == spec_unify(
            type_state.deep_view(),
            ty1.deep_view(),
            ty2.deep_view(),
            UNIFY_FUEL as nat,
        ),
{
    check_unify_fuel(ty1, ty2, type_state, UNIFY_FUEL)
}


// ---------------------------------------------------------------------------
// Laws of unification
// ---------------------------------------------------------------------------

/// A scalar type can unify with itself exactly when its kind carries
/// information.
pub open spec fn spec_wf_scalar(s: ScalarType) -> bool {
    !(s.kind is Empty)
}

/// Whether a type lies in the self-unifiable fragment at the given budget:
/// after reification it is not `Void`, not a doubly wrapped type, its scalars
/// have informative kinds, and its array lengths are integer values.
pub open spec fn spec_self_unifies(ts: SpecTypeState, t: SpecType, fuel: nat) -> bool
    decreases fuel, 1nat, 0nat,
{
    fuel > 0 && match spec_reify(ts, t) {
        SpecType::Null => true,
        SpecType::Scalar(s) => spec_wf_scalar(s),
        SpecType::FnType(f) => spec_self_unifies_list(ts, f.params, (fuel - 1) as nat)
            && spec_self_unifies(ts, *f.ret, (fuel - 1) as nat),
        SpecType::Pointer(p) => spec_self_unifies(ts, *p.inner, (fuel - 1) as nat),
        SpecType::Product(l) => spec_self_unifies_list(ts, l, (fuel - 1) as nat),
        SpecType::Aggregate(a) => spec_self_unifies_fields(ts, a.fields, (fuel - 1) as nat),
        SpecType::Array(ar) => match *ar.len {
            SpecValue::Integer { ty: s, .. } => (fuel - 1) as nat > 0 && spec_wf_scalar(s),
            _ => false,
        },
        SpecType::Named(_) => true,
        _ => false,
    }
}

pub open spec fn spec_self_unifies_list(ts: SpecTypeState, l: Seq<SpecType>, fuel: nat) -> bool
    decreases fuel, 2nat, l.len(),
{
    l.len() == 0 || (spec_self_unifies(ts, l[0], fuel) && spec_self_unifies_list(
        ts,
        l.skip(1),
        fuel,
    ))
}

pub open spec fn spec_self_unifies_fields(
    ts: SpecTypeState,
    f: Seq<(Seq<char>, SpecType)>,
    fuel: nat,
) -> bool
    decreases fuel, 2nat, f.len(),
{
    f.len() == 0 || (spec_self_unifies(ts, f[0].1, fuel) && spec_self_unifies_fields(
        ts,
        f.skip(1),
        fuel,
    ))
}

/// Unification is reflexive: every type in the self-unifiable fragment
/// unifies with itself.  Outside that fragment reflexivity genuinely fails:
/// `Void`, a scalar of the uninformative `Empty` kind, and an array whose
/// length is not an integer value are each rejected against themselves.
#[verifier::rlimit(60)]
pub proof fn lemma_unify_reflexive(ts: SpecTypeState, t: SpecType, fuel: nat)
    requires
        spec_self_unifies(ts, t, fuel),
    ensures
        spec_unify(ts, t, t, fuel) == Result::<(), ValidateError>::Ok(()),
    decreases fuel, 1nat, 0nat,
{
    match spec_reify(ts, t) {
        SpecType::Null => {
            assert(spec_unify(ts, t, t, fuel) == Result::<(), ValidateError>::Ok(())) by {
                reveal_with_fuel(spec_unify, 2);
            }
        }
        SpecType::Scalar(sc) => {
            assert(spec_unify_scalar(sc, sc) == Result::<(), ValidateError>::Ok(()));
            assert(spec_unify(ts, t, t, fuel) == Result::<(), ValidateError>::Ok(())) by {
                reveal_with_fuel(spec_unify, 2);
            }
        }
        SpecType::FnType(f) => {
            lemma_unify_list_reflexive(ts, f.params, (fuel - 1) as nat);
            lemma_unify_reflexive(ts, *f.ret, (fuel - 1) as nat);
            assert(spec_unify_fn(ts, f, f, fuel) == Result::<(), ValidateError>::Ok(()));
            assert(fuel > 0);
            assert(spec_reify(ts, t) is FnType);
            assert(spec_reify(ts, t)->FnType_0 == f);
            assert(spec_unify(ts, t, t, fuel) == spec_unify_fn(ts, f, f, fuel)) by {
                reveal_with_fuel(spec_unify, 2);
            }
            assert(spec_unify(ts, t, t, fuel) == Result::<(), ValidateError>::Ok(())) by {
                reveal_with_fuel(spec_unify, 2);
            }
        }
        SpecType::Pointer(p) => {
            lemma_unify_reflexive(ts, *p.inner, (fuel - 1) as nat);
            assert(spec_unify(ts, t, t, fuel) == Result::<(), ValidateError>::Ok(())) by {
                reveal_with_fuel(spec_unify, 2);
            }
        }
        SpecType::Product(l) => {
            lemma_unify_list_reflexive(ts, l, (fuel - 1) as nat);
            assert(spec_unify(ts, t, t, fuel) == Result::<(), ValidateError>::Ok(())) by {
                reveal_with_fuel(spec_unify, 2);
            }
        }
        SpecType::Aggregate(a) => {
            lemma_unify_fields_reflexive(ts, a.fields, (fuel - 1) as nat);
            assert(spec_unify(ts, t, t, fuel) == Result::<(), ValidateError>::Ok(())) by {
                reveal_with_fuel(spec_unify, 2);
            }
        }
        SpecType::Array(ar) => {
            match *ar.len {
                SpecValue::Integer { ty: sc, .. } => {
                    lemma_unify_reflexive(ts, SpecType::Scalar(sc), (fuel - 1) as nat);
                }
                _ => {}
            }
            assert(spec_unify(ts, t, t, fuel) == Result::<(), ValidateError>::Ok(())) by {
                reveal_with_fuel(spec_unify, 2);
            }
        }
        SpecType::Named(_) => {
            assert(spec_unify(ts, t, t, fuel) == Result::<(), ValidateError>::Ok(())) by {
                reveal_with_fuel(spec_unify, 2);
            }
        }
        _ => {}
    }
}

pub proof fn lemma_unify_list_reflexive(ts: SpecTypeState, l: Seq<SpecType>, fuel: nat)
    requires
        spec_self_unifies_list(ts, l, fuel),
    ensures
        spec_unify_list(ts, l, l, fuel) == Result::<(), ValidateError>::Ok(()),
    decreases fuel, 2nat, l.len(),
{
    if l.len() > 0 {
        lemma_unify_reflexive(ts, l[0], fuel);
        lemma_unify_list_reflexive(ts, l.skip(1), fuel);
    }
}

pub proof fn lemma_unify_fields_reflexive(
    ts: SpecTypeState,
    f: Seq<(Seq<char>, SpecType)>,
    fuel: nat,
)
    requires
        spec_self_unifies_fields(ts, f, fuel),
    ensures
        spec_unify_fields(ts, f, f, fuel) == Result::<(), ValidateError>::Ok(()),
    decreases fuel, 2nat, f.len(),
{
    if f.len() > 0 {
        lemma_unify_reflexive(ts, f[0].1, fuel);
        lemma_unify_fields_reflexive(ts, f.skip(1), fuel);
    }
}

/// Unification is symmetric: swapping the two sides gives the same outcome,
/// success or fault alike.
#[verifier::rlimit(60)]
pub proof fn lemma_unify_symmetric(ts: SpecTypeState, t1: SpecType, t2: SpecType, fuel: nat)
    ensures
        spec_unify(ts, t1, t2, fuel) == spec_unify(ts, t2, t1, fuel),
    decreases fuel, 1nat, 0nat,
{
    if fuel > 0 {
        match (spec_reify(ts, t1), spec_reify(ts, t2)) {
            (SpecType::FnType(f1), SpecType::FnType(f2)) => {
                lemma_unify_list_symmetric(ts, f1.params, f2.params, (fuel - 1) as nat);
                lemma_unify_symmetric(ts, *f1.ret, *f2.ret, (fuel - 1) as nat);
                assert(spec_unify_fn(ts, f1, f2, fuel) == spec_unify_fn(ts, f2, f1, fuel));
            }
            (SpecType::Pointer(p1), SpecType::Pointer(p2)) => {
                lemma_unify_symmetric(ts, *p1.inner, *p2.inner, (fuel - 1) as nat);
                assert(spec_unify(ts, *p1.inner, *p2.inner, (fuel - 1) as nat) == spec_unify(
                    ts,
                    *p2.inner,
                    *p1.inner,
                    (fuel - 1) as nat,
                ));
            }
            (SpecType::Product(l1), SpecType::Product(l2)) => {
                lemma_unify_list_symmetric(ts, l1, l2, (fuel - 1) as nat);
                assert(spec_unify_product(ts, l1, l2, fuel) == spec_unify_product(
                    ts,
                    l2,
                    l1,
                    fuel,
                ));
            }
            (SpecType::Aggregate(a1), SpecType::Aggregate(a2)) => {
                lemma_unify_fields_symmetric(ts, a1.fields, a2.fields, (fuel - 1) as nat);
                assert(spec_unify_aggregate(ts, a1, a2, fuel) == spec_unify_aggregate(
                    ts,
                    a2,
                    a1,
                    fuel,
                ));
            }
            (SpecType::Array(ar1), SpecType::Array(ar2)) => {
                match (*ar1.len, *ar2.len) {
                    (
                        SpecValue::Integer { ty: s1, .. },
                        SpecValue::Integer { ty: s2, .. },
                    ) => {
                        lemma_unify_symmetric(
                            ts,
                            SpecType::Scalar(s1),
                            SpecType::Scalar(s2),
                            (fuel - 1) as nat,
                        );
                    }
                    _ => {}
                }
                assert(spec_unify_array(ts, ar1, ar2, fuel) == spec_unify_array(
                    ts,
                    ar2,
                    ar1,
                    fuel,
                ));
                assert(spec_unify(ts, t1, t2, fuel) == spec_unify(ts, t2, t1, fuel));
            }
            (SpecType::Scalar(s1), SpecType::Scalar(s2)) => {
                assert(spec_unify_scalar(s1, s2) == spec_unify_scalar(s2, s1));
                assert(spec_unify(ts, t1, t2, fuel) == spec_unify(ts, t2, t1, fuel));
            }
            _ => {}
        }
    }
}

pub proof fn lemma_unify_list_symmetric(
    ts: SpecTypeState,
    l1: Seq<SpecType>,
    l2: Seq<SpecType>,
    fuel: nat,
)
    ensures
        spec_unify_list(ts, l1, l2, fuel) == spec_unify_list(ts, l2, l1, fuel),
    decreases fuel, 2nat, l1.len(),
{
    if l1.len() > 0 && l2.len() > 0 {
        lemma_unify_symmetric(ts, l1[0], l2[0], fuel);
        lemma_unify_list_symmetric(ts, l1.skip(1), l2.skip(1), fuel);
    }
}

pub proof fn lemma_unify_fields_symmetric(
    ts: SpecTypeState,
    f1: Seq<(Seq<char>, SpecType)>,
    f2: Seq<(Seq<char>, SpecType)>,
    fuel: nat,
)
    ensures
        spec_unify_fields(ts, f1, f2, fuel) == spec_unify_fields(ts, f2, f1, fuel),
    decreases fuel, 2nat, f1.len(),
{
    if f1.len() > 0 && f2.len() > 0 {
        lemma_unify_symmetric(ts, f1[0].1, f2[0].1, fuel);
        lemma_unify_fields_symmetric(ts, f1.skip(1), f2.skip(1), fuel);
    }
}

// ---------------------------------------------------------------------------
// Field lookup
// ---------------------------------------------------------------------------

/// Decimal interpretation of a product field name; faults (a non-digit, an
/// empty name, a value over the machine's range) give nothing.
pub open spec fn spec_parse_dec(s: Seq<char>, acc: int) -> Option<int>
    decreases s.len(),
{
    if s.len() == 0 {
        Option::Some(acc)
    } else if ('0' as int) <= (s[0] as int) && (s[0] as int) <= ('9' as int) {
        let d = (s[0] as int) - ('0' as int);
        if acc <= (usize::MAX as int - d) / 10 {
            spec_parse_dec(s.skip(1), acc * 10 + d)
        } else {
            Option::None
        }
    } else {
        Option::None
    }
}

pub open spec fn spec_parse_usize(s: Seq<char>) -> Option<int> {
    if s.len() == 0 {
        Option::None
    } else {
        spec_parse_dec(s, 0)
    }
}

/// The first field with the given name, if any.
pub open spec fn spec_find_field(
    fields: Seq<(Seq<char>, SpecType)>,
    name: Seq<char>,
) -> Option<SpecType>
    decreases fields.len(),
{
    if fields.len() == 0 {
        Option::None
    } else if fields[0].0 == name {
        Option::Some(fields[0].1)
    } else {
        spec_find_field(fields.skip(1), name)
    }
}

/// The type of the named field of `t`: transparent wrappers are stripped, a
/// product is indexed by decimal position, an aggregate is searched by name,
/// and a `Named` type is resolved through the aggregate table first and the
/// global type table second.  Every fault — a type without fields, a missing
/// field or index, an opaque aggregate, an unresolved name, or an exhausted
/// budget — gives nothing.
pub open spec fn spec_field_type(
    ts: SpecTypeState,
    t: SpecType,
    name: Seq<char>,
    fuel: nat,
) -> Option<SpecType>
    decreases fuel,
{
    if fuel == 0 {
        Option::None
    } else {
        match t {
            SpecType::TaggedType(_, inner) => spec_field_type(ts, *inner, name, (fuel - 1) as nat),
            SpecType::Aligned(_, inner) => spec_field_type(ts, *inner, name, (fuel - 1) as nat),
            SpecType::Product(tys) => match spec_parse_usize(name) {
                Option::Some(v) => if 0 <= v < tys.len() {
                    Option::Some(tys[v])
                } else {
                    Option::None
                },
                Option::None => Option::None,
            },
            SpecType::Aggregate(a) => spec_find_field(a.fields, name),
            SpecType::Named(p) => match spec_assoc(ts.aggregate, p) {
                Option::Some(Option::Some(ag)) => spec_find_field(ag.fields, name),
                Option::Some(Option::None) => Option::None,
                Option::None => match spec_assoc(ts.tys, p) {
                    Option::Some(t2) => spec_field_type(ts, t2, name, (fuel - 1) as nat),
                    Option::None => Option::None,
                },
            },
            _ => Option::None,
        }
    }
}

// ---------------------------------------------------------------------------
// The simulated operand stack
// ---------------------------------------------------------------------------

pub open spec fn spec_int_scalar(bits: u16, signed: bool) -> ScalarType {
    ScalarType {
        header: ScalarTypeHeader {
            bitsize: bits,
            vectorsize: 0,
            validity: ScalarValidity { nonzero: false, finite: false, nonnan: false },
        },
        kind: ScalarTypeKind::Integer { signed, min: Option::None, max: Option::None },
    }
}

pub open spec fn spec_int_type(bits: u16, signed: bool) -> SpecType {
    SpecType::Scalar(spec_int_scalar(bits, signed))
}

pub open spec fn spec_int_item(bits: u16, signed: bool) -> SpecStackItem {
    SpecStackItem { ty: spec_int_type(bits, signed), kind: StackValueKind::RValue }
}

/// A pointer to `t` with default aliasing and valid-range annotations.
pub open spec fn spec_pointer_to(t: SpecType) -> SpecType {
    SpecType::Pointer(
        SpecPointerType {
            alias: PointerAliasingRule::Empty,
            valid_range: ValidRange { kind: ValidRangeType::Empty, extent: 0 },
            inner: Box::new(t),
        },
    )
}

/// The label stacks declared in a block, keyed by label number.
pub type SpecTargets = Seq<(u32, Seq<SpecStackItem>)>;

/// The per-ordinal exit-stack records of the enclosing blocks: nothing until
/// a first exit establishes the shape.
pub type SpecExits = Seq<Option<Seq<SpecStackItem>>>;

pub open spec fn spec_target_lookup(targets: SpecTargets, n: u32) -> Option<Seq<SpecStackItem>>
    decreases targets.len(),
{
    if targets.len() == 0 {
        Option::None
    } else if targets[0].0 == n {
        Option::Some(targets[0].1)
    } else {
        spec_target_lookup(targets.skip(1), n)
    }
}

pub open spec fn view_targets(v: Seq<(u32, Vec<StackItem>)>) -> SpecTargets
    decreases v,
{
    if v.len() == 0 {
        Seq::empty()
    } else {
        view_targets(v.subrange(0, v.len() - 1)).push(
            (v[v.len() - 1].0, view_stack(v[v.len() - 1].1@)),
        )
    }
}

/// The mirror of a target table is the table of the mirrored stacks.
pub broadcast proof fn lemma_view_targets(v: Seq<(u32, Vec<StackItem>)>)
    ensures
        (#[trigger] view_targets(v)).len() == v.len(),
        forall|i: int| 0 <= i < v.len()
            ==> view_targets(v)[i] == (v[i].0, view_stack(v[i].1@)),
    decreases v.len(),
{
    if v.len() > 0 {
        lemma_view_targets(v.subrange(0, v.len() - 1));
    }
}

pub open spec fn view_exits(v: Seq<Option<Vec<StackItem>>>) -> SpecExits
    decreases v,
{
    if v.len() == 0 {
        Seq::empty()
    } else {
        view_exits(v.subrange(0, v.len() - 1)).push(
            match v[v.len() - 1] {
                Option::Some(s) => Option::Some(view_stack(s@)),
                Option::None => Option::None,
            },
        )
    }
}

/// The mirror of an exit-record list is the list of the mirrored records.
pub broadcast proof fn lemma_view_exits(v: Seq<Option<Vec<StackItem>>>)
    ensures
        (#[trigger] view_exits(v)).len() == v.len(),
        forall|i: int| 0 <= i < v.len()
            ==> view_exits(v)[i] == match v[i] {
                Option::Some(s) => Option::Some(view_stack(s@)),
                Option::None => Option::<Seq<SpecStackItem>>::None,
            },
    decreases v.len(),
{
    if v.len() > 0 {
        lemma_view_exits(v.subrange(0, v.len() - 1));
    }
}

/// Pairwise check of the top of the live stack against a declared target
/// shape: the target must not be longer, the kinds of the compared window
/// must be equal, and the types must unify.  Extra stack items below the
/// window are left unexamined.
pub open spec fn spec_unify_stack(
    ts: SpecTypeState,
    stack: Seq<SpecStackItem>,
    target: Seq<SpecStackItem>,
    fuel: nat,
) -> Result<(), ValidateError> {
    if target.len() > stack.len() {
        Result::Err(ValidateError::StackMismatch)
    } else {
        spec_unify_stack_items(ts, stack.skip(stack.len() - target.len()), target, fuel)
    }
}

pub open spec fn spec_unify_stack_items(
    ts: SpecTypeState,
    stack: Seq<SpecStackItem>,
    target: Seq<SpecStackItem>,
    fuel: nat,
) -> Result<(), ValidateError>
    decreases stack.len(),
{
    if stack.len() == 0 || target.len() == 0 {
        Result::Ok(())
    } else if stack[0].kind != target[0].kind {
        Result::Err(ValidateError::StackMismatch)
    } else {
        match spec_unify(ts, stack[0].ty, target[0].ty, fuel) {
            Result::Ok(()) => spec_unify_stack_items(ts, stack.skip(1), target.skip(1), fuel),
            Result::Err(e) => Result::Err(e),
        }
    }
}

// ---------------------------------------------------------------------------
// The effect of one instruction
// ---------------------------------------------------------------------------

/// The effect of pushing a constant: an r-value of the constant's static
/// type.  A global address with an unfilled type takes it from the global
/// type table; a label address requires the label to exist with an empty
/// declared stack.
pub open spec fn spec_step_const(
    ts: SpecTypeState,
    targets: SpecTargets,
    stack: Seq<SpecStackItem>,
    v: Value,
) -> Result<Seq<SpecStackItem>, ValidateError> {
    match v {
        Value::Invalid(ty) => Result::Ok(
            stack.push(SpecStackItem { ty: view_type(ty), kind: StackValueKind::RValue }),
        ),
        Value::Uninitialized(ty) => Result::Ok(
            stack.push(SpecStackItem { ty: view_type(ty), kind: StackValueKind::RValue }),
        ),
        Value::String { ty, .. } => Result::Ok(
            stack.push(SpecStackItem { ty: view_type(ty), kind: StackValueKind::RValue }),
        ),
        Value::GenericParameter(_) => Result::Err(ValidateError::Unsupported),
        Value::Integer { ty, .. } => Result::Ok(
            stack.push(
                SpecStackItem { ty: SpecType::Scalar(ty), kind: StackValueKind::RValue },
            ),
        ),
        Value::GlobalAddress { ty, item } => {
            let eff = if view_type(ty) is Null {
                match spec_assoc(ts.tys, item.deep_view()) {
                    Option::Some(t) => t,
                    Option::None => SpecType::Null,
                }
            } else {
                view_type(ty)
            };
            Result::Ok(
                stack.push(
                    SpecStackItem { ty: spec_pointer_to(eff), kind: StackValueKind::RValue },
                ),
            )
        }
        Value::ByteString { .. } => Result::Ok(
            stack.push(
                SpecStackItem {
                    ty: spec_pointer_to(spec_int_type(8, false)),
                    kind: StackValueKind::RValue,
                },
            ),
        ),
        Value::LabelAddress(n) => match spec_target_lookup(targets, n) {
            Option::Some(tstack) => if tstack.len() == 0 {
                Result::Ok(
                    stack.push(
                        SpecStackItem {
                            ty: spec_pointer_to(SpecType::Void),
                            kind: StackValueKind::RValue,
                        },
                    ),
                )
            } else {
                Result::Err(ValidateError::StackMismatch)
            },
            Option::None => Result::Err(ValidateError::Unresolved),
        },
    }
}

/// The effect of a binary operator: two r-values of scalar type are
/// consumed; comparisons produce a fixed 32-bit signed or 1-bit unsigned
/// integer; checked arithmetic re-pushes the operand type plus a 1-bit
/// overflow flag; other arithmetic re-pushes the operand type.
pub open spec fn spec_step_binary(
    ts: SpecTypeState,
    stack: Seq<SpecStackItem>,
    op: BinaryOp,
    ob: OverflowBehaviour,
) -> Result<Seq<SpecStackItem>, ValidateError> {
    if stack.len() < 2 {
        Result::Err(ValidateError::Malformed)
    } else {
        let val1 = stack[stack.len() - 1];
        let val2 = stack[stack.len() - 2];
        let rest = stack.take(stack.len() - 2);
        if val1.kind != StackValueKind::RValue || val2.kind != StackValueKind::RValue {
            Result::Err(ValidateError::KindViolation)
        } else {
            match spec_reify(ts, val1.ty) {
                SpecType::Scalar(_) => match op {
                    BinaryOp::CmpInt => Result::Ok(rest.push(spec_int_item(32, true))),
                    BinaryOp::Cmp => Result::Ok(rest.push(spec_int_item(32, true))),
                    BinaryOp::CmpLt => Result::Ok(rest.push(spec_int_item(1, false))),
                    BinaryOp::CmpLe => Result::Ok(rest.push(spec_int_item(1, false))),
                    BinaryOp::CmpGt => Result::Ok(rest.push(spec_int_item(1, false))),
                    BinaryOp::CmpGe => Result::Ok(rest.push(spec_int_item(1, false))),
                    BinaryOp::CmpNe => Result::Ok(rest.push(spec_int_item(1, false))),
                    BinaryOp::CmpEq => Result::Ok(rest.push(spec_int_item(1, false))),
                    _ => match ob {
                        OverflowBehaviour::Checked => Result::Ok(
                            rest.push(val1).push(spec_int_item(1, false)),
                        ),
                        _ => Result::Ok(rest.push(val1)),
                    },
                },
                _ => Result::Err(ValidateError::Unsupported),
            }
        }
    }
}

/// The effect of a unary operator on an r-value whose static type is
/// literally scalar: negation re-pushes the operand (plus a 1-bit flag when
/// checked); logical not replaces it by a 1-bit unsigned integer; bitwise
/// not re-pushes it.
pub open spec fn spec_step_unary(
    stack: Seq<SpecStackItem>,
    op: UnaryOp,
    ob: OverflowBehaviour,
) -> Result<Seq<SpecStackItem>, ValidateError> {
    if stack.len() < 1 {
        Result::Err(ValidateError::Malformed)
    } else {
        let val = stack[stack.len() - 1];
        let rest = stack.take(stack.len() - 1);
        if val.kind != StackValueKind::RValue {
            Result::Err(ValidateError::KindViolation)
        } else {
            match val.ty {
                SpecType::Scalar(_) => match op {
                    UnaryOp::Minus => match ob {
                        OverflowBehaviour::Checked => Result::Ok(
                            rest.push(val).push(spec_int_item(1, false)),
                        ),
                        _ => Result::Ok(rest.push(val)),
                    },
                    UnaryOp::LogicNot => Result::Ok(rest.push(spec_int_item(1, false))),
                    UnaryOp::BitNot => Result::Ok(rest.push(val)),
                },
                _ => Result::Err(ValidateError::TypeMismatch),
            }
        }
    }
}

/// Pairwise check of call arguments against the call-site parameter types:
/// each argument must be an r-value and unify with its parameter.
pub open spec fn spec_check_args(
    ts: SpecTypeState,
    items: Seq<SpecStackItem>,
    params: Seq<SpecType>,
    fuel: nat,
) -> Result<(), ValidateError>
    decreases items.len(),
{
    if items.len() == 0 || params.len() == 0 {
        Result::Ok(())
    } else if items[0].kind != StackValueKind::RValue {
        Result::Err(ValidateError::KindViolation)
    } else {
        match spec_unify(ts, items[0].ty, params[0], fuel) {
            Result::Ok(()) => spec_check_args(ts, items.skip(1), params.skip(1), fuel),
            Result::Err(e) => Result::Err(e),
        }
    }
}

/// The effect of a call through the call-site signature `f`: the arguments
/// and the callee are consumed; the callee's reified type must be a pointer
/// to a function type; a variadic callee must declare no more parameters
/// than the call site, a non-variadic callee exactly as many; declared and
/// call-site parameter and return types are unified; each argument is
/// checked against its call-site parameter; one r-value of the call-site
/// return type is produced.
pub open spec fn spec_step_call(
    ts: SpecTypeState,
    stack: Seq<SpecStackItem>,
    f: SpecFnType,
    fuel: nat,
) -> Result<Seq<SpecStackItem>, ValidateError> {
    if f.params.len() + 1 > stack.len() {
        Result::Err(ValidateError::Malformed)
    } else {
        let args = stack.skip(stack.len() - f.params.len());
        let dest = stack[stack.len() - f.params.len() - 1];
        let rest = stack.take(stack.len() - f.params.len() - 1);
        if f.variadic {
            Result::Err(ValidateError::Unsupported)
        } else if dest.kind != StackValueKind::RValue {
            Result::Err(ValidateError::KindViolation)
        } else {
            match spec_reify(ts, dest.ty) {
                SpecType::Pointer(pty) => match spec_reify(ts, *pty.inner) {
                    SpecType::FnType(cty) => {
                        let arity_ok = if cty.variadic {
                            cty.params.len() <= f.params.len()
                        } else {
                            cty.params.len() == f.params.len()
                        };
                        if !arity_ok {
                            Result::Err(ValidateError::TypeMismatch)
                        } else {
                            match spec_unify_list(ts, cty.params, f.params, fuel) {
                                Result::Ok(()) => match spec_unify(ts, *cty.ret, *f.ret, fuel) {
                                    Result::Ok(()) => match spec_check_args(
                                        ts,
                                        args,
                                        f.params,
                                        fuel,
                                    ) {
                                        Result::Ok(()) => Result::Ok(
                                            rest.push(
                                                SpecStackItem {
                                                    ty: *f.ret,
                                                    kind: StackValueKind::RValue,
                                                },
                                            ),
                                        ),
                                        Result::Err(e) => Result::Err(e),
                                    },
                                    Result::Err(e) => Result::Err(e),
                                },
                                Result::Err(e) => Result::Err(e),
                            }
                        }
                    }
                    _ => Result::Err(ValidateError::TypeMismatch),
                },
                _ => Result::Err(ValidateError::TypeMismatch),
            }
        }
    }
}

/// The effect of an l-value operation: exchanges and compare-exchanges
/// consume their operands under the documented kind signature; increments
/// and decrements keep the scalar operand on the stack, a checked variant
/// adding a 1-bit overflow flag, the post variants re-tagging the operand an
/// r-value.
pub open spec fn spec_step_lvalue_op(
    ts: SpecTypeState,
    stack: Seq<SpecStackItem>,
    op: LValueOp,
    ob: OverflowBehaviour,
    fuel: nat,
) -> Result<Seq<SpecStackItem>, ValidateError> {
    match op {
        LValueOp::Xchg => {
            if stack.len() < 2 {
                Result::Err(ValidateError::Malformed)
            } else {
                let val1 = stack[stack.len() - 1];
                let val2 = stack[stack.len() - 2];
                let rest = stack.take(stack.len() - 2);
                if val1.kind != StackValueKind::LValue || val2.kind != StackValueKind::LValue {
                    Result::Err(ValidateError::KindViolation)
                } else {
                    match spec_unify(ts, val1.ty, val2.ty, fuel) {
                        Result::Ok(()) => Result::Ok(rest),
                        Result::Err(e) => Result::Err(e),
                    }
                }
            }
        }
        LValueOp::Cmpxchg | LValueOp::Wcmpxchg => {
            if stack.len() < 3 {
                Result::Err(ValidateError::Malformed)
            } else {
                let control = stack[stack.len() - 1];
                let swap = stack[stack.len() - 2];
                let dest = stack[stack.len() - 3];
                let rest = stack.take(stack.len() - 3);
                if dest.kind != StackValueKind::LValue || swap.kind != StackValueKind::LValue
                    || control.kind != StackValueKind::RValue {
                    Result::Err(ValidateError::KindViolation)
                } else {
                    match spec_unify(ts, dest.ty, control.ty, fuel) {
                        Result::Ok(()) => match spec_unify(ts, dest.ty, swap.ty, fuel) {
                            Result::Ok(()) => Result::Ok(rest.push(spec_int_item(1, false))),
                            Result::Err(e) => Result::Err(e),
                        },
                        Result::Err(e) => Result::Err(e),
                    }
                }
            }
        }
        LValueOp::PreDec | LValueOp::PreInc => {
            if stack.len() < 1 {
                Result::Err(ValidateError::Malformed)
            } else {
                let lvalue = stack[stack.len() - 1];
                if lvalue.kind != StackValueKind::LValue {
                    Result::Err(ValidateError::KindViolation)
                } else {
                    match spec_reify(ts, lvalue.ty) {
                        SpecType::Scalar(_) => match ob {
                            OverflowBehaviour::Checked => Result::Ok(
                                stack.push(spec_int_item(1, false)),
                            ),
                            _ => Result::Ok(stack),
                        },
                        _ => Result::Err(ValidateError::TypeMismatch),
                    }
                }
            }
        }
        LValueOp::PostDec | LValueOp::PostInc => {
            if stack.len() < 1 {
                Result::Err(ValidateError::Malformed)
            } else {
                let lvalue = stack[stack.len() - 1];
                let rest = stack.take(stack.len() - 1);
                if lvalue.kind != StackValueKind::LValue {
                    Result::Err(ValidateError::KindViolation)
                } else {
                    match spec_reify(ts, lvalue.ty) {
                        SpecType::Scalar(_) => match ob {
                            OverflowBehaviour::Checked => Result::Ok(
                                rest.push(
                                    SpecStackItem { ty: lvalue.ty, kind: StackValueKind::RValue },
                                ).push(spec_int_item(1, false)),
                            ),
                            _ => Result::Ok(stack),
                        },
                        _ => Result::Err(ValidateError::TypeMismatch),
                    }
                }
            }
        }
    }
}

/// Pairwise check of the constructed fields of an aggregate: each consumed
/// item must be an r-value, its field must exist, and the field type must
/// unify with the item's type.
pub open spec fn spec_check_ctor_fields(
    ts: SpecTypeState,
    ty: SpecType,
    names: Seq<Seq<char>>,
    items: Seq<SpecStackItem>,
    fuel: nat,
) -> Result<(), ValidateError>
    decreases names.len(),
{
    if names.len() == 0 || items.len() == 0 {
        Result::Ok(())
    } else if items[0].kind != StackValueKind::RValue {
        Result::Err(ValidateError::KindViolation)
    } else {
        match spec_field_type(ts, ty, names[0], fuel) {
            Option::Some(fty) => match spec_unify(ts, fty, items[0].ty, fuel) {
                Result::Ok(()) => spec_check_ctor_fields(
                    ts,
                    ty,
                    names.skip(1),
                    items.skip(1),
                    fuel,
                ),
                Result::Err(e) => Result::Err(e),
            },
            Option::None => Result::Err(ValidateError::Unresolved),
        }
    }
}

/// The effect of an aggregate construction: one r-value per declared field
/// is consumed and checked, and an r-value of the aggregate type is
/// produced.
pub open spec fn spec_step_aggregate(
    ts: SpecTypeState,
    stack: Seq<SpecStackItem>,
    ty: SpecType,
    names: Seq<Seq<char>>,
    fuel: nat,
) -> Result<Seq<SpecStackItem>, ValidateError> {
    if names.len() > stack.len() {
        Result::Err(ValidateError::Malformed)
    } else {
        let items = stack.skip(stack.len() - names.len());
        let rest = stack.take(stack.len() - names.len());
        match spec_check_ctor_fields(ts, ty, names, items, fuel) {
            Result::Ok(()) => Result::Ok(
                rest.push(SpecStackItem { ty, kind: StackValueKind::RValue }),
            ),
            Result::Err(e) => Result::Err(e),
        }
    }
}

/// The check of a hash switch's cases: every case value must be an integer
/// whose type unifies with the control type; every case target must exist;
/// the first case's target shape is checked against the live stack and
/// becomes the reference; every later target shape must agree with the
/// reference pairwise in kind and unified type.
pub open spec fn spec_check_switch_cases(
    ts: SpecTypeState,
    targets: SpecTargets,
    ctrl_ty: SpecType,
    stack: Seq<SpecStackItem>,
    cases: Seq<(Value, u32)>,
    ustack: Option<Seq<SpecStackItem>>,
    fuel: nat,
) -> Result<(), ValidateError>
    decreases cases.len(),
{
    if cases.len() == 0 {
        Result::Ok(())
    } else {
        match cases[0].0 {
            Value::Integer { ty, .. } => {
                match spec_unify(ts, ctrl_ty, SpecType::Scalar(ty), fuel) {
                    Result::Ok(()) => match spec_target_lookup(targets, cases[0].1) {
                        Option::Some(tstack) => match ustack {
                            Option::Some(us) => if us.len() != tstack.len() {
                                Result::Err(ValidateError::StackMismatch)
                            } else {
                                match spec_unify_stack_items(ts, us, tstack, fuel) {
                                    Result::Ok(()) => spec_check_switch_cases(
                                        ts,
                                        targets,
                                        ctrl_ty,
                                        stack,
                                        cases.skip(1),
                                        ustack,
                                        fuel,
                                    ),
                                    Result::Err(e) => Result::Err(e),
                                }
                            },
                            Option::None => match spec_unify_stack(ts, stack, tstack, fuel) {
                                Result::Ok(()) => spec_check_switch_cases(
                                    ts,
                                    targets,
                                    ctrl_ty,
                                    stack,
                                    cases.skip(1),
                                    Option::Some(tstack),
                                    fuel,
                                ),
                                Result::Err(e) => Result::Err(e),
                            },
                        },
                        Option::None => Result::Err(ValidateError::Unresolved),
                    },
                    Result::Err(e) => Result::Err(e),
                }
            }
            _ => Result::Err(ValidateError::TypeMismatch),
        }
    }
}

/// The effect of a switch: an r-value whose reified type is an integer
/// scalar is consumed, and for a hash dispatch every case is checked; a
/// linear-range dispatch is unsupported.
pub open spec fn spec_step_switch(
    ts: SpecTypeState,
    targets: SpecTargets,
    stack: Seq<SpecStackItem>,
    sw: Switch,
    fuel: nat,
) -> Result<Seq<SpecStackItem>, ValidateError> {
    if stack.len() < 1 {
        Result::Err(ValidateError::Malformed)
    } else {
        let ctrl = stack[stack.len() - 1];
        let rest = stack.take(stack.len() - 1);
        if ctrl.kind != StackValueKind::RValue {
            Result::Err(ValidateError::KindViolation)
        } else {
            match spec_reify(ts, ctrl.ty) {
                SpecType::Scalar(sc) => if !(sc.kind is Integer) {
                    Result::Err(ValidateError::TypeMismatch)
                } else {
                    match sw {
                        Switch::Hash(h) => match spec_check_switch_cases(
                            ts,
                            targets,
                            ctrl.ty,
                            rest,
                            h.cases@,
                            Option::None,
                            fuel,
                        ) {
                            Result::Ok(()) => Result::Ok(rest),
                            Result::Err(e2) => Result::Err(e2),
                        },
                        Switch::Linear(_) => Result::Err(ValidateError::Unsupported),
                    }
                },
                _ => Result::Err(ValidateError::TypeMismatch),
            }
        }
    }
}


/// The effect of leaving block `blk` with the top `values` items: the first
/// exit establishes the block's exit-stack shape; every later exit must
/// match it in count, kind, and unified type.
pub open spec fn spec_step_exit_block(
    ts: SpecTypeState,
    exits: SpecExits,
    stack: Seq<SpecStackItem>,
    blk: u32,
    values: u16,
    fuel: nat,
) -> Result<(Seq<SpecStackItem>, SpecExits), ValidateError> {
    if blk as int >= exits.len() {
        Result::Err(ValidateError::Malformed)
    } else if values as int > stack.len() {
        Result::Err(ValidateError::Malformed)
    } else {
        let popped = stack.skip(stack.len() - values as int);
        let rest = stack.take(stack.len() - values as int);
        match exits[blk as int] {
            Option::None => Result::Ok((rest, exits.update(blk as int, Option::Some(popped)))),
            Option::Some(items) => if items.len() != values as int {
                Result::Err(ValidateError::StackMismatch)
            } else {
                match spec_unify_stack_items(ts, popped, items, fuel) {
                    Result::Ok(()) => Result::Ok((rest, exits)),
                    Result::Err(e2) => Result::Err(e2),
                }
            },
        }
    }
}

/// The effect of a branch: a conditional branch consumes one r-value whose
/// reified type is an integer scalar; the remaining stack must then check
/// against the target label's declared shape.
pub open spec fn spec_step_branch(
    ts: SpecTypeState,
    targets: SpecTargets,
    stack: Seq<SpecStackItem>,
    cond: BranchCondition,
    target: u32,
    fuel: nat,
) -> Result<Seq<SpecStackItem>, ValidateError> {
    let after = match cond {
        BranchCondition::Always => Result::Ok(stack),
        BranchCondition::Never => Result::Ok(stack),
        _ => {
            if stack.len() < 1 {
                Result::Err(ValidateError::Malformed)
            } else {
                let ctrl = stack[stack.len() - 1];
                if ctrl.kind != StackValueKind::RValue {
                    Result::Err(ValidateError::KindViolation)
                } else {
                    match spec_reify(ts, ctrl.ty) {
                        SpecType::Scalar(sc) => if sc.kind is Integer {
                            Result::Ok(stack.take(stack.len() - 1))
                        } else {
                            Result::Err(ValidateError::TypeMismatch)
                        },
                        _ => Result::Err(ValidateError::TypeMismatch),
                    }
                }
            }
        }
    };
    match after {
        Result::Ok(s) => match spec_target_lookup(targets, target) {
            Option::Some(tstack) => match spec_unify_stack(ts, s, tstack, fuel) {
                Result::Ok(()) => Result::Ok(s),
                Result::Err(e2) => Result::Err(e2),
            },
            Option::None => Result::Err(ValidateError::Unresolved),
        },
        Result::Err(e2) => Result::Err(e2),
    }
}

/// The effect of an indirect branch: one r-value that unifies with a
/// pointer to void is consumed.
pub open spec fn spec_step_branch_indirect(
    ts: SpecTypeState,
    stack: Seq<SpecStackItem>,
    fuel: nat,
) -> Result<Seq<SpecStackItem>, ValidateError> {
    if stack.len() < 1 {
        Result::Err(ValidateError::Malformed)
    } else {
        let item = stack[stack.len() - 1];
        if item.kind != StackValueKind::RValue {
            Result::Err(ValidateError::KindViolation)
        } else {
            match spec_unify(ts, item.ty, spec_pointer_to(SpecType::Void), fuel) {
                Result::Ok(()) => Result::Ok(stack.take(stack.len() - 1)),
                Result::Err(e2) => Result::Err(e2),
            }
        }
    }
}

/// The post-processing of a pointer-annotation refinement: the inner
/// expression's result is popped; it must be an r-value whose static type is
/// a pointer, and the refinement's pointee must unify with the operand's.
pub open spec fn spec_step_derive_post(
    ts: SpecTypeState,
    stack: Seq<SpecStackItem>,
    pty: SpecPointerType,
    fuel: nat,
) -> Result<Seq<SpecStackItem>, ValidateError> {
    if stack.len() < 1 {
        Result::Err(ValidateError::Malformed)
    } else {
        let item = stack[stack.len() - 1];
        if item.kind != StackValueKind::RValue {
            Result::Err(ValidateError::KindViolation)
        } else {
            match item.ty {
                SpecType::Pointer(ptrty) => match spec_unify(ts, *pty.inner, *ptrty.inner, fuel) {
                    Result::Ok(()) => Result::Ok(stack.take(stack.len() - 1)),
                    Result::Err(e2) => Result::Err(e2),
                },
                _ => Result::Err(ValidateError::TypeMismatch),
            }
        }
    }
}

/// The effect of loading a local: an l-value of the indexed declared type.
pub open spec fn spec_step_local(
    locals: Seq<SpecType>,
    stack: Seq<SpecStackItem>,
    n: u32,
) -> Result<Seq<SpecStackItem>, ValidateError> {
    if n as int >= locals.len() {
        Result::Err(ValidateError::Malformed)
    } else {
        Result::Ok(
            stack.push(SpecStackItem { ty: locals[n as int], kind: StackValueKind::LValue }),
        )
    }
}

/// The effect of the pure stack shuffles: dropping, duplicating, or rotating
/// the top of the stack.
pub open spec fn spec_step_pop(stack: Seq<SpecStackItem>, n: u32) -> Result<
    Seq<SpecStackItem>,
    ValidateError,
> {
    if n as int > stack.len() {
        Result::Err(ValidateError::Malformed)
    } else {
        Result::Ok(stack.take(stack.len() - n as int))
    }
}

pub open spec fn spec_step_dup(stack: Seq<SpecStackItem>, n: u32) -> Result<
    Seq<SpecStackItem>,
    ValidateError,
> {
    if n as int > stack.len() {
        Result::Err(ValidateError::Malformed)
    } else {
        Result::Ok(stack + stack.skip(stack.len() - n as int))
    }
}

pub open spec fn spec_step_pivot(stack: Seq<SpecStackItem>, n: u32, m: u32) -> Result<
    Seq<SpecStackItem>,
    ValidateError,
> {
    if m as int > stack.len() {
        Result::Err(ValidateError::Malformed)
    } else if n as int > stack.len() - m as int {
        Result::Err(ValidateError::Malformed)
    } else {
        let back1 = stack.len() - m as int;
        let back2 = back1 - n as int;
        Result::Ok(stack.take(back2) + stack.skip(back1) + stack.subrange(back2, back1))
    }
}

/// The effect of a direct member access: an l-value is replaced by an
/// l-value of the named field's type.
pub open spec fn spec_step_member(
    ts: SpecTypeState,
    stack: Seq<SpecStackItem>,
    name: Seq<char>,
    fuel: nat,
) -> Result<Seq<SpecStackItem>, ValidateError> {
    if stack.len() < 1 {
        Result::Err(ValidateError::Malformed)
    } else {
        let val = stack[stack.len() - 1];
        let rest = stack.take(stack.len() - 1);
        if val.kind != StackValueKind::LValue {
            Result::Err(ValidateError::KindViolation)
        } else {
            match spec_field_type(ts, val.ty, name, fuel) {
                Option::Some(fty) => Result::Ok(
                    rest.push(SpecStackItem { ty: fty, kind: StackValueKind::LValue }),
                ),
                Option::None => Result::Err(ValidateError::Unresolved),
            }
        }
    }
}

/// The effect of an indirect member access: an r-value pointer is replaced
/// by an r-value pointer to the pointee's named field, with default pointer
/// annotations.
pub open spec fn spec_step_member_indirect(
    ts: SpecTypeState,
    stack: Seq<SpecStackItem>,
    name: Seq<char>,
    fuel: nat,
) -> Result<Seq<SpecStackItem>, ValidateError> {
    if stack.len() < 1 {
        Result::Err(ValidateError::Malformed)
    } else {
        let val = stack[stack.len() - 1];
        let rest = stack.take(stack.len() - 1);
        if val.kind != StackValueKind::RValue {
            Result::Err(ValidateError::KindViolation)
        } else {
            match val.ty {
                SpecType::Pointer(ptr) => match spec_field_type(ts, *ptr.inner, name, fuel) {
                    Option::Some(fty) => Result::Ok(
                        rest.push(
                            SpecStackItem {
                                ty: spec_pointer_to(fty),
                                kind: StackValueKind::RValue,
                            },
                        ),
                    ),
                    Option::None => Result::Err(ValidateError::Unresolved),
                },
                _ => Result::Err(ValidateError::TypeMismatch),
            }
        }
    }
}

/// The effect of an assignment: an r-value and an l-value whose types unify
/// are consumed.
pub open spec fn spec_step_assign(
    ts: SpecTypeState,
    stack: Seq<SpecStackItem>,
    fuel: nat,
) -> Result<Seq<SpecStackItem>, ValidateError> {
    if stack.len() < 2 {
        Result::Err(ValidateError::Malformed)
    } else {
        let rvalue = stack[stack.len() - 1];
        let lvalue = stack[stack.len() - 2];
        let rest = stack.take(stack.len() - 2);
        if rvalue.kind != StackValueKind::RValue || lvalue.kind != StackValueKind::LValue {
            Result::Err(ValidateError::KindViolation)
        } else {
            match spec_unify(ts, rvalue.ty, lvalue.ty, fuel) {
                Result::Ok(()) => Result::Ok(rest),
                Result::Err(e2) => Result::Err(e2),
            }
        }
    }
}

/// The effect of l-to-r decay: an l-value is re-tagged as an r-value of the
/// same type.
pub open spec fn spec_step_as_rvalue(stack: Seq<SpecStackItem>) -> Result<
    Seq<SpecStackItem>,
    ValidateError,
> {
    if stack.len() < 1 {
        Result::Err(ValidateError::Malformed)
    } else {
        let val = stack[stack.len() - 1];
        let rest = stack.take(stack.len() - 1);
        if val.kind != StackValueKind::LValue {
            Result::Err(ValidateError::KindViolation)
        } else {
            Result::Ok(rest.push(SpecStackItem { ty: val.ty, kind: StackValueKind::RValue }))
        }
    }
}

/// The effect of a compound assignment: an r-value and an l-value of
/// unifying scalar type are consumed; a checked variant leaves a 1-bit
/// overflow flag.
pub open spec fn spec_step_compound_assign(
    ts: SpecTypeState,
    stack: Seq<SpecStackItem>,
    ob: OverflowBehaviour,
    fuel: nat,
) -> Result<Seq<SpecStackItem>, ValidateError> {
    if stack.len() < 2 {
        Result::Err(ValidateError::Malformed)
    } else {
        let rvalue = stack[stack.len() - 1];
        let lvalue = stack[stack.len() - 2];
        let rest = stack.take(stack.len() - 2);
        if rvalue.kind != StackValueKind::RValue || lvalue.kind != StackValueKind::LValue {
            Result::Err(ValidateError::KindViolation)
        } else {
            match spec_unify(ts, lvalue.ty, rvalue.ty, fuel) {
                Result::Ok(()) => match spec_reify(ts, lvalue.ty) {
                    SpecType::Scalar(_) => match ob {
                        OverflowBehaviour::Checked => Result::Ok(
                            rest.push(spec_int_item(1, false)),
                        ),
                        _ => Result::Ok(rest),
                    },
                    _ => Result::Err(ValidateError::Unsupported),
                },
                Result::Err(e2) => Result::Err(e2),
            }
        }
    }
}

/// The effect of a dereference: an r-value whose static type is a pointer is
/// replaced by an l-value of the pointee type.
pub open spec fn spec_step_indirect(stack: Seq<SpecStackItem>) -> Result<
    Seq<SpecStackItem>,
    ValidateError,
> {
    if stack.len() < 1 {
        Result::Err(ValidateError::Malformed)
    } else {
        let val = stack[stack.len() - 1];
        let rest = stack.take(stack.len() - 1);
        if val.kind != StackValueKind::RValue {
            Result::Err(ValidateError::KindViolation)
        } else {
            match val.ty {
                SpecType::Pointer(ptr) => Result::Ok(
                    rest.push(SpecStackItem { ty: *ptr.inner, kind: StackValueKind::LValue }),
                ),
                _ => Result::Err(ValidateError::TypeMismatch),
            }
        }
    }
}

/// The effect of taking an address: an l-value is replaced by an r-value
/// pointer to its type with default annotations.
pub open spec fn spec_step_addr_of(stack: Seq<SpecStackItem>) -> Result<
    Seq<SpecStackItem>,
    ValidateError,
> {
    if stack.len() < 1 {
        Result::Err(ValidateError::Malformed)
    } else {
        let val = stack[stack.len() - 1];
        let rest = stack.take(stack.len() - 1);
        if val.kind != StackValueKind::LValue {
            Result::Err(ValidateError::KindViolation)
        } else {
            Result::Ok(
                rest.push(
                    SpecStackItem { ty: spec_pointer_to(val.ty), kind: StackValueKind::RValue },
                ),
            )
        }
    }
}

/// The static effect of one instruction on the simulated stack and the
/// exit records of the enclosing blocks.
pub open spec fn spec_expr_step(
    ts: SpecTypeState,
    locals: Seq<SpecType>,
    targets: SpecTargets,
    exits: SpecExits,
    stack: Seq<SpecStackItem>,
    e: Expr,
) -> Result<(Seq<SpecStackItem>, SpecExits), ValidateError>
    decreases e, 0nat,
{
    match e {
        Expr::Null => Result::Ok((stack, exits)),
        Expr::Sequence(_) => Result::Ok((stack, exits)),
        Expr::Fence(_) => Result::Ok((stack, exits)),
        Expr::Const(v) => match spec_step_const(ts, targets, stack, v) {
            Result::Ok(s) => Result::Ok((s, exits)),
            Result::Err(e2) => Result::Err(e2),
        },
        Expr::ExitBlock { blk, values } => spec_step_exit_block(
            ts,
            exits,
            stack,
            blk,
            values,
            UNIFY_FUEL as nat,
        ),
        Expr::BinaryOp(op, ob) => match spec_step_binary(ts, stack, op, ob) {
            Result::Ok(s) => Result::Ok((s, exits)),
            Result::Err(e2) => Result::Err(e2),
        },
        Expr::UnaryOp(op, ob) => match spec_step_unary(stack, op, ob) {
            Result::Ok(s) => Result::Ok((s, exits)),
            Result::Err(e2) => Result::Err(e2),
        },
        Expr::Tailcall(_) => Result::Err(ValidateError::Unsupported),
        Expr::CallFunction(f) => match spec_step_call(
            ts,
            stack,
            view_fn_type(*f),
            UNIFY_FUEL as nat,
        ) {
            Result::Ok(s) => Result::Ok((s, exits)),
            Result::Err(e2) => Result::Err(e2),
        },
        Expr::Branch { cond, target } => match spec_step_branch(
            ts,
            targets,
            stack,
            cond,
            target,
            UNIFY_FUEL as nat,
        ) {
            Result::Ok(s) => Result::Ok((s, exits)),
            Result::Err(e2) => Result::Err(e2),
        },
        Expr::BranchIndirect => match spec_step_branch_indirect(ts, stack, UNIFY_FUEL as nat) {
            Result::Ok(s) => Result::Ok((s, exits)),
            Result::Err(e2) => Result::Err(e2),
        },
        Expr::Convert(_, _) => Result::Err(ValidateError::Unsupported),
        Expr::Derive(pty, inner) => match spec_expr_step(ts, locals, targets, exits, stack, *inner) {
            Result::Ok((s, ex)) => match spec_step_derive_post(
                ts,
                s,
                view_pointer_type(pty),
                UNIFY_FUEL as nat,
            ) {
                Result::Ok(s2) => Result::Ok((s2, ex)),
                Result::Err(e2) => Result::Err(e2),
            },
            Result::Err(e2) => Result::Err(e2),
        },
        Expr::Local(n) => match spec_step_local(locals, stack, n) {
            Result::Ok(s) => Result::Ok((s, exits)),
            Result::Err(e2) => Result::Err(e2),
        },
        Expr::Pop(n) => match spec_step_pop(stack, n) {
            Result::Ok(s) => Result::Ok((s, exits)),
            Result::Err(e2) => Result::Err(e2),
        },
        Expr::Dup(n) => match spec_step_dup(stack, n) {
            Result::Ok(s) => Result::Ok((s, exits)),
            Result::Err(e2) => Result::Err(e2),
        },
        Expr::Pivot(n, m) => match spec_step_pivot(stack, n, m) {
            Result::Ok(s) => Result::Ok((s, exits)),
            Result::Err(e2) => Result::Err(e2),
        },
        Expr::Aggregate(ctor) => match spec_step_aggregate(
            ts,
            stack,
            view_type(ctor.ty),
            ctor.fields.deep_view(),
            UNIFY_FUEL as nat,
        ) {
            Result::Ok(s) => Result::Ok((s, exits)),
            Result::Err(e2) => Result::Err(e2),
        },
        Expr::Member(name) => match spec_step_member(
            ts,
            stack,
            name.deep_view(),
            UNIFY_FUEL as nat,
        ) {
            Result::Ok(s) => Result::Ok((s, exits)),
            Result::Err(e2) => Result::Err(e2),
        },
        Expr::MemberIndirect(name) => match spec_step_member_indirect(
            ts,
            stack,
            name.deep_view(),
            UNIFY_FUEL as nat,
        ) {
            Result::Ok(s) => Result::Ok((s, exits)),
            Result::Err(e2) => Result::Err(e2),
        },
        Expr::Block { n, block } => {
            if n as int != exits.len() {
                Result::Err(ValidateError::Malformed)
            } else {
                match spec_block_run(ts, locals, exits, block) {
                    Result::Ok((res, ex)) => Result::Ok((stack + res, ex)),
                    Result::Err(e2) => Result::Err(e2),
                }
            }
        }
        Expr::Assign(_) => match spec_step_assign(ts, stack, UNIFY_FUEL as nat) {
            Result::Ok(s) => Result::Ok((s, exits)),
            Result::Err(e2) => Result::Err(e2),
        },
        Expr::AsRValue(_) => match spec_step_as_rvalue(stack) {
            Result::Ok(s) => Result::Ok((s, exits)),
            Result::Err(e2) => Result::Err(e2),
        },
        Expr::CompoundAssign(_, ob, _) => match spec_step_compound_assign(
            ts,
            stack,
            ob,
            UNIFY_FUEL as nat,
        ) {
            Result::Ok(s) => Result::Ok((s, exits)),
            Result::Err(e2) => Result::Err(e2),
        },
        Expr::LValueOp(op, ob, _) => match spec_step_lvalue_op(
            ts,
            stack,
            op,
            ob,
            UNIFY_FUEL as nat,
        ) {
            Result::Ok(s) => Result::Ok((s, exits)),
            Result::Err(e2) => Result::Err(e2),
        },
        Expr::Indirect => match spec_step_indirect(stack) {
            Result::Ok(s) => Result::Ok((s, exits)),
            Result::Err(e2) => Result::Err(e2),
        },
        Expr::AddrOf => match spec_step_addr_of(stack) {
            Result::Ok(s) => Result::Ok((s, exits)),
            Result::Err(e2) => Result::Err(e2),
        },
        Expr::Switch(sw) => match spec_step_switch(ts, targets, stack, sw, UNIFY_FUEL as nat) {
            Result::Ok(s) => Result::Ok((s, exits)),
            Result::Err(e2) => Result::Err(e2),
        },
    }
}

// ---------------------------------------------------------------------------
// Blocks
// ---------------------------------------------------------------------------

/// Collects the target labels declared directly in a block; a redeclared
/// label is a structural fault.
pub open spec fn spec_collect_targets(
    items: Seq<BlockItem>,
    i: int,
    acc: SpecTargets,
) -> Result<SpecTargets, ValidateError>
    decreases items.len() - i,
{
    if i < 0 || i >= items.len() {
        Result::Ok(acc)
    } else {
        match items[i] {
            BlockItem::Target { num, stack } => if spec_target_lookup(acc, num) is Some {
                Result::Err(ValidateError::Malformed)
            } else {
                spec_collect_targets(items, i + 1, acc.push((num, view_stack(stack@))))
            },
            BlockItem::Expr(_) => spec_collect_targets(items, i + 1, acc),
        }
    }
}

/// Sequential replay of a block's items: an instruction steps the simulated
/// stack; a target label is a join point — the live stack is checked against
/// the declared shape and then replaced by it, which is how divergent
/// incoming paths are normalized.  No instruction marks its path diverged,
/// so every label is checked as a fall-through join.
pub open spec fn spec_block_items(
    ts: SpecTypeState,
    locals: Seq<SpecType>,
    targets: SpecTargets,
    items: Seq<BlockItem>,
    i: int,
    stack: Seq<SpecStackItem>,
    exits: SpecExits,
) -> Result<SpecExits, ValidateError>
    decreases items, items.len() - i,
{
    if i < 0 || i >= items.len() {
        Result::Ok(exits)
    } else {
        match items[i] {
            BlockItem::Expr(e) => match spec_expr_step(ts, locals, targets, exits, stack, e) {
                Result::Ok((s, ex)) => spec_block_items(ts, locals, targets, items, i + 1, s, ex),
                Result::Err(e2) => Result::Err(e2),
            },
            BlockItem::Target { num, stack: tstack } => match spec_unify_stack(
                ts,
                stack,
                view_stack(tstack@),
                UNIFY_FUEL as nat,
            ) {
                Result::Ok(()) => spec_block_items(
                    ts,
                    locals,
                    targets,
                    items,
                    i + 1,
                    view_stack(tstack@),
                    exits,
                ),
                Result::Err(e2) => Result::Err(e2),
            },
        }
    }
}

/// The check of one block: collect its labels, push a fresh exit record,
/// replay the items on an empty stack, and pop the record; the block's
/// result is the recorded exit stack, empty if no exit ever fired.
pub open spec fn spec_block_run(
    ts: SpecTypeState,
    locals: Seq<SpecType>,
    exits: SpecExits,
    b: Block,
) -> Result<(Seq<SpecStackItem>, SpecExits), ValidateError>
    decreases b, 0nat,
{
    match spec_collect_targets(b.items@, 0, Seq::empty()) {
        Result::Ok(targets) => match spec_block_items(
            ts,
            locals,
            targets,
            b.items@,
            0,
            Seq::empty(),
            exits.push(Option::None),
        ) {
            Result::Ok(ex) => if ex.len() == exits.len() + 1 {
                let res = match ex[ex.len() - 1] {
                    Option::Some(s) => s,
                    Option::None => Seq::empty(),
                };
                Result::Ok((res, ex.take(ex.len() - 1)))
            } else {
                Result::Err(ValidateError::Malformed)
            },
            Result::Err(e2) => Result::Err(e2),
        },
        Result::Err(e2) => Result::Err(e2),
    }
}

// ---------------------------------------------------------------------------
// Functions and files
// ---------------------------------------------------------------------------

/// The check of one function: the locals are the parameter types followed by
/// the declared local types; the root block is replayed; the resulting exit
/// stack must be empty for a void function and otherwise hold exactly one
/// item that unifies with the declared return type.  A declaration without a
/// body is left unchecked.
pub open spec fn spec_check_function(ts: SpecTypeState, f: FunctionDeclaration) -> Result<
    (),
    ValidateError,
> {
    match f.body {
        Option::None => Result::Ok(()),
        Option::Some(body) => {
            let locals = view_types(f.ty.params@) + view_types(body.locals@);
            match spec_block_run(ts, locals, Seq::empty(), body.block) {
                Result::Ok((ret, _)) => if f.ty.ret is Void {
                    if ret.len() == 0 {
                        Result::Ok(())
                    } else {
                        Result::Err(ValidateError::StackMismatch)
                    }
                } else {
                    if ret.len() == 1 {
                        spec_unify(ts, ret[0].ty, view_type(f.ty.ret), UNIFY_FUEL as nat)
                    } else {
                        Result::Err(ValidateError::StackMismatch)
                    }
                },
                Result::Err(e) => Result::Err(e),
            }
        }
    }
}

/// The global tables a file's root members induce, in member order; a later
/// member with the same path wins, as in a map built by overwriting inserts.
pub open spec fn spec_build_state(
    members: Seq<(Path, ScopeMember)>,
    i: int,
    acc: SpecTypeState,
) -> SpecTypeState
    decreases members.len() - i,
{
    if i < 0 || i >= members.len() {
        acc
    } else {
        let path = members[i].0.deep_view();
        let acc2 = match members[i].1.member_decl {
            MemberDeclaration::Function(fd) => SpecTypeState {
                tys: acc.tys.push((path, SpecType::FnType(view_fn_type(fd.ty)))),
                aggregate: acc.aggregate,
            },
            MemberDeclaration::Static(sd) => SpecTypeState {
                tys: acc.tys.push((path, view_type(sd.ty))),
                aggregate: acc.aggregate,
            },
            MemberDeclaration::AggregateDefinition(ag) => SpecTypeState {
                tys: acc.tys,
                aggregate: acc.aggregate.push(
                    (path, Option::Some(view_aggregate_definition(ag))),
                ),
            },
            MemberDeclaration::OpaqueAggregate(_) => SpecTypeState {
                tys: acc.tys,
                aggregate: acc.aggregate.push((path, Option::None)),
            },
            _ => acc,
        };
        spec_build_state(members, i + 1, acc2)
    }
}

/// Whether every `Named` reference inside `t` has a binding in one of the
/// global tables.
pub open spec fn spec_type_resolved(ts: SpecTypeState, t: SpecType) -> bool
    decreases t, 0nat,
{
    match t {
        SpecType::Named(p) => spec_assoc(ts.tys, p) is Some || spec_assoc(ts.aggregate, p)
            is Some,
        SpecType::FnType(f) => spec_types_resolved(ts, f.params) && spec_type_resolved(
            ts,
            *f.ret,
        ),
        SpecType::Pointer(p) => spec_type_resolved(ts, *p.inner),
        SpecType::Product(l) => spec_types_resolved(ts, l),
        SpecType::Aggregate(a) => spec_field_types_resolved(ts, a.fields),
        SpecType::Array(ar) => spec_type_resolved(ts, *ar.ty),
        SpecType::TaggedType(_, inner) => spec_type_resolved(ts, *inner),
        SpecType::Aligned(_, inner) => spec_type_resolved(ts, *inner),
        _ => true,
    }
}

pub open spec fn spec_types_resolved(ts: SpecTypeState, l: Seq<SpecType>) -> bool
    decreases l, 1nat,
{
    l.len() == 0 || (spec_type_resolved(ts, l[0]) && spec_types_resolved(ts, l.skip(1)))
}

pub open spec fn spec_field_types_resolved(
    ts: SpecTypeState,
    f: Seq<(Seq<char>, SpecType)>,
) -> bool
    decreases f, 1nat,
{
    f.len() == 0 || (spec_type_resolved(ts, f[0].1) && spec_field_types_resolved(ts, f.skip(1)))
}

/// Whether the declared types of one member resolve: a function's signature,
/// a static's type, or an aggregate definition's field types.
pub open spec fn spec_member_resolved(ts: SpecTypeState, m: ScopeMember) -> bool {
    match m.member_decl {
        MemberDeclaration::Function(fd) => spec_type_resolved(
            ts,
            SpecType::FnType(view_fn_type(fd.ty)),
        ),
        MemberDeclaration::Static(sd) => spec_type_resolved(ts, view_type(sd.ty)),
        MemberDeclaration::AggregateDefinition(ag) => spec_field_types_resolved(
            ts,
            view_aggregate_definition(ag).fields,
        ),
        _ => true,
    }
}

pub open spec fn spec_members_resolved(
    ts: SpecTypeState,
    members: Seq<(Path, ScopeMember)>,
    i: int,
) -> bool
    decreases members.len() - i,
{
    i < 0 || i >= members.len() || (spec_member_resolved(ts, members[i].1)
        && spec_members_resolved(ts, members, i + 1))
}

/// Pass two over the root members: every function with a body is checked;
/// a static member is an explicitly unimplemented check and surfaces as the
/// distinct not-yet-supported fault; declarations without bodies and the
/// other member kinds are left unchecked.
pub open spec fn spec_check_members(
    ts: SpecTypeState,
    members: Seq<(Path, ScopeMember)>,
    i: int,
) -> Result<(), ValidateError>
    decreases members.len() - i,
{
    if i < 0 || i >= members.len() {
        Result::Ok(())
    } else {
        match members[i].1.member_decl {
            MemberDeclaration::Function(fd) => match spec_check_function(ts, fd) {
                Result::Ok(()) => spec_check_members(ts, members, i + 1),
                Result::Err(e) => Result::Err(e),
            },
            MemberDeclaration::Static(_) => Result::Err(ValidateError::Unsupported),
            _ => spec_check_members(ts, members, i + 1),
        }
    }
}

/// The whole-file check: pass one builds the global tables and requires
/// every named reference in the declared types to resolve; pass two checks
/// every function body against the tables and refuses files with static
/// members, whose checking is not implemented.
pub open spec fn spec_tycheck(f: File) -> Result<(), ValidateError> {
    let ts = spec_build_state(
        f.root.members@,
        0,
        SpecTypeState { tys: Seq::empty(), aggregate: Seq::empty() },
    );
    if !spec_members_resolved(ts, f.root.members@, 0) {
        Result::Err(ValidateError::Unresolved)
    } else {
        spec_check_members(ts, f.root.members@, 0)
    }
}

// ---------------------------------------------------------------------------
// Executable helpers
// ---------------------------------------------------------------------------

/// Character-wise equality of two string slices.
#[verifier::loop_isolation(false)]
fn str_eq(a: &str, b: &str) -> (r: bool)
    ensures
        r == (a@ == b@),
{
    let an: usize = a.unicode_len();
    let bn: usize = b.unicode_len();
    if an != bn {
        return false;
    }
    let mut i: usize = 0;
    while i < an
        invariant
            0 <= i <= an,
            forall|j: int| 0 <= j < i ==> a@[j] == b@[j],
        decreases an - i,
    {
        if a.get_char(i) != b.get_char(i) {
            return false;
        }
        i += 1;
    }
    proof {
        assert(a@ =~= b@);
    }
    true
}

/// Reads a decimal product-field index.
#[verifier::loop_isolation(false)]
fn parse_field_index(s: &str) -> (r: Option<usize>)
    ensures
        match r {
            Option::Some(v) => spec_parse_usize(s@) == Option::Some(v as int),
            Option::None => spec_parse_usize(s@) is None,
        },
{
    let n: usize = s.unicode_len();
    if n == 0 {
        return Option::None;
    }
    let mut acc: usize = 0;
    let mut i: usize = 0;
    proof {
        assert(s@.skip(0) =~= s@);
    }
    while i < n
        invariant
            0 <= i <= n,
            spec_parse_dec(s@.skip(i as int), acc as int) == spec_parse_usize(s@),
        decreases n - i,
    {
        let c = s.get_char(i);
        let cv = c as u32;
        if cv < 48 || cv > 57 {
            return Option::None;
        }
        let d: usize = (cv - 48) as usize;
        if acc > (usize::MAX - d) / 10 {
            return Option::None;
        }
        proof {
            assert(acc * 10 + d <= usize::MAX) by (nonlinear_arith)
                requires
                    acc <= (usize::MAX - d) / 10,
                    d <= 9,
            ;
            assert(s@.skip(i as int).skip(1) =~= s@.skip(i + 1));
        }
        acc = acc * 10 + d;
        i += 1;
    }
    proof {
        assert(s@.skip(n as int) =~= Seq::<char>::empty());
    }
    Option::Some(acc)
}

/// Finds the first field with the given name.
#[verifier::loop_isolation(false)]
fn find_field<'a>(fields: &'a Vec<(String, Type)>, name: &str) -> (r: Option<&'a Type>)
    ensures
        match r {
            Option::Some(t) => spec_find_field(view_fields(fields@), name@) == Option::Some(
                t.deep_view(),
            ),
            Option::None => spec_find_field(view_fields(fields@), name@) is None,
        },
{
    proof {
        lemma_view_fields(fields@);
        assert(view_fields(fields@).skip(0) =~= view_fields(fields@));
    }
    let n: usize = fields.len();
    let mut i: usize = 0;
    while i < n
        invariant
            0 <= i <= n,
            n == fields.len(),
            spec_find_field(view_fields(fields@), name@) == spec_find_field(
                view_fields(fields@).skip(i as int),
                name@,
            ),
        decreases n - i,
    {
        proof {
            assert(view_fields(fields@).skip(i as int).skip(1) =~= view_fields(fields@).skip(
                i + 1,
            ));
        }
        if str_eq(fields[i].0.as_str(), name) {
            return Option::Some(&fields[i].1);
        }
        i += 1;
    }
    Option::None
}

impl TypeState {
    fn field_type_fuel(&self, ty: &Type, name: &str, fuel: usize) -> (r: Option<Type>)
        ensures
            match r {
                Option::Some(t) => spec_field_type(self.deep_view(), ty.deep_view(), name@, fuel as nat)
                    == Option::Some(t.deep_view()),
                Option::None => spec_field_type(self.deep_view(), ty.deep_view(), name@, fuel as nat)
                    is None,
            },
        decreases fuel,
    {
        if fuel == 0 {
            return Option::None;
        }
        let r: Option<Type> = match ty {
            Type::TaggedType(_, inner) => self.field_type_fuel(inner, name, fuel - 1),
            Type::Aligned(_, inner) => self.field_type_fuel(inner, name, fuel - 1),
            Type::Product(tys) => {
                proof {
                    lemma_view_types(tys@);
                }
                match parse_field_index(name) {
                    Option::Some(v) => if v < tys.len() {
                        Option::Some(tys[v].clone_deep())
                    } else {
                        Option::None
                    },
                    Option::None => Option::None,
                }
            }
            Type::Aggregate(a) => {
                proof {
                    assert(ty.deep_view() == SpecType::Aggregate(view_aggregate_definition(*a)));
                    assert(view_aggregate_definition(*a).fields == view_fields(a.fields@));
                }
                match find_field(&a.fields, name) {
                    Option::Some(t) => Option::Some(t.clone_deep()),
                    Option::None => Option::None,
                }
            },
            Type::Named(p) => match self.find_aggregate(p) {
                Option::Some(entry) => match entry {
                    Option::Some(ag) => match find_field(&ag.fields, name) {
                        Option::Some(t) => Option::Some(t.clone_deep()),
                        Option::None => Option::None,
                    },
                    Option::None => Option::None,
                },
                Option::None => match self.find_ty(p) {
                    Option::Some(t2) => {
                        let owned = t2.clone_deep();
                        self.field_type_fuel(&owned, name, fuel - 1)
                    }
                    Option::None => Option::None,
                },
            },
            _ => Option::None,
        };
        proof {
            reveal_with_fuel(spec_field_type, 2);
        }
        r
    }

    /// The type of the named field of `ty`, resolved through transparent
    /// wrappers, product indices, aggregate definitions, and the global
    /// tables.  Nothing is returned for a type without fields, a missing
    /// field, an opaque aggregate, or an unresolved name.
    pub fn get_field_type(&self, ty: &Type, name: &str) -> (r: Option<Type>)
        ensures
            match r {
                Option::Some(t) => spec_field_type(
                    self.deep_view(),
                    ty.deep_view(),
                    name@,
                    UNIFY_FUEL as nat,
                ) == Option::Some(t.deep_view()),
                Option::None => spec_field_type(
                    self.deep_view(),
                    ty.deep_view(),
                    name@,
                    UNIFY_FUEL as nat,
                ) is None,
            },
    {
        self.field_type_fuel(ty, name, UNIFY_FUEL)
    }
}

/// Checks the top of the live stack against a declared target shape, kind
/// for kind and type by unification, leaving anything below the compared
/// window unexamined.
#[verifier::loop_isolation(false)]
pub fn check_unify_stack(
    stack: &Vec<StackItem>,
    target: &Vec<StackItem>,
    tys: &TypeState,
) -> (r: Result<(), ValidateError>)
    ensures
        r == spec_unify_stack(
            tys.deep_view(),
            view_stack(stack@),
            view_stack(target@),
            UNIFY_FUEL as nat,
        ),
{
    proof {
        lemma_view_stack(stack@);
        lemma_view_stack(target@);
    }
    if target.len() > stack.len() {
        return Result::Err(ValidateError::StackMismatch);
    }
    let begin: usize = stack.len() - target.len();
    let ghost w = view_stack(stack@).skip(begin as int);
    proof {
        assert(w =~= w.skip(0));
        assert(view_stack(target@) =~= view_stack(target@).skip(0));
    }
    let n: usize = target.len();
    let mut i: usize = 0;
    while i < n
        invariant
            0 <= i <= n,
            spec_unify_stack_items(tys.deep_view(), w, view_stack(target@), UNIFY_FUEL as nat)
                == spec_unify_stack_items(
                tys.deep_view(),
                w.skip(i as int),
                view_stack(target@).skip(i as int),
                UNIFY_FUEL as nat,
            ),
        decreases n - i,
    {
        proof {
            assert(w.skip(i as int)[0] == view_stack(stack@)[begin + i]);
            assert(w.skip(i as int).skip(1) =~= w.skip(i + 1));
            assert(view_stack(target@).skip(i as int).skip(1) =~= view_stack(target@).skip(
                i + 1,
            ));
        }
        let a = &stack[begin + i];
        let b = &target[i];
        if !stack_value_kind_eq(a.kind, b.kind) {
            return Result::Err(ValidateError::StackMismatch);
        }
        match check_unify(&a.ty, &b.ty, tys) {
            Result::Ok(()) => {}
            Result::Err(e) => {
                return Result::Err(e);
            }
        }
        i += 1;
    }
    Result::Ok(())
}

/// Equality of two stack-item kinds.
fn stack_value_kind_eq(a: StackValueKind, b: StackValueKind) -> (r: bool)
    ensures
        r == (a == b),
{
    match (a, b) {
        (StackValueKind::LValue, StackValueKind::LValue) => true,
        (StackValueKind::RValue, StackValueKind::RValue) => true,
        _ => false,
    }
}

/// Whether an executable stepping result returns exactly what the model
/// says: the same fault, or a stack with the model's mirror.
pub open spec fn stack_matches(
    r: Result<Vec<StackItem>, ValidateError>,
    m: Result<Seq<SpecStackItem>, ValidateError>,
) -> bool {
    match (r, m) {
        (Result::Ok(v), Result::Ok(s)) => view_stack(v@) == s,
        (Result::Err(a), Result::Err(b)) => a == b,
        _ => false,
    }
}

fn int_item(bits: u16, signed: bool) -> (r: StackItem)
    ensures
        r.deep_view() == spec_int_item(bits, signed),
{
    StackItem {
        ty: Type::Scalar(
            ScalarType {
                header: ScalarTypeHeader {
                    bitsize: bits,
                    vectorsize: 0,
                    validity: ScalarValidity { nonzero: false, finite: false, nonnan: false },
                },
                kind: ScalarTypeKind::Integer {
                    signed,
                    min: Option::None,
                    max: Option::None,
                },
            },
        ),
        kind: StackValueKind::RValue,
    }
}

fn pointer_to(t: Type) -> (r: Type)
    ensures
        view_type(r) == spec_pointer_to(view_type(t)),
{
    let r = Type::Pointer(
        PointerType {
            alias: PointerAliasingRule::Empty,
            valid_range: ValidRange { kind: ValidRangeType::Empty, extent: 0 },
            inner: Box::new(t),
        },
    );
    proof {
        let p = r->Pointer_0;
        assert(*p.inner == t);
        assert(view_type(r) == SpecType::Pointer(view_pointer_type(p)));
        assert(view_pointer_type(p).inner == Box::new(view_type(t)));
        assert(view_type(r) =~= spec_pointer_to(view_type(t)));
    }
    r
}

#[verifier::loop_isolation(false)]
fn find_target<'a>(targets: &'a Vec<(u32, Vec<StackItem>)>, n: u32) -> (r: Option<
    &'a Vec<StackItem>,
>)
    ensures
        match r {
            Option::Some(v) => spec_target_lookup(view_targets(targets@), n) == Option::Some(
                view_stack(v@),
            ),
            Option::None => spec_target_lookup(view_targets(targets@), n) is None,
        },
{
    proof {
        lemma_view_targets(targets@);
        assert(view_targets(targets@).skip(0) =~= view_targets(targets@));
    }
    let len: usize = targets.len();
    let mut i: usize = 0;
    while i < len
        invariant
            0 <= i <= len,
            len == targets.len(),
            spec_target_lookup(view_targets(targets@), n) == spec_target_lookup(
                view_targets(targets@).skip(i as int),
                n,
            ),
        decreases len - i,
    {
        proof {
            assert(view_targets(targets@).skip(i as int).skip(1) =~= view_targets(
                targets@,
            ).skip(i + 1));
        }
        if targets[i].0 == n {
            return Option::Some(&targets[i].1);
        }
        i += 1;
    }
    Option::None
}

fn step_const(
    v: &Value,
    vstack: Vec<StackItem>,
    targets: &Vec<(u32, Vec<StackItem>)>,
    tys: &TypeState,
) -> (r: Result<Vec<StackItem>, ValidateError>)
    ensures
        stack_matches(
            r,
            spec_step_const(tys.deep_view(), view_targets(targets@), view_stack(vstack@), *v),
        ),
{
    proof {
        broadcast use lemma_view_stack, lemma_view_stack_push;

    }
    let mut vstack = vstack;
    match v {
        Value::Invalid(ty) => {
            vstack.push(StackItem { ty: ty.clone_deep(), kind: StackValueKind::RValue });
            Result::Ok(vstack)
        }
        Value::Uninitialized(ty) => {
            vstack.push(StackItem { ty: ty.clone_deep(), kind: StackValueKind::RValue });
            Result::Ok(vstack)
        }
        Value::String { ty, .. } => {
            vstack.push(StackItem { ty: ty.clone_deep(), kind: StackValueKind::RValue });
            Result::Ok(vstack)
        }
        Value::GenericParameter(_) => Result::Err(ValidateError::Unsupported),
        Value::Integer { ty, .. } => {
            vstack.push(StackItem { ty: Type::Scalar(*ty), kind: StackValueKind::RValue });
            Result::Ok(vstack)
        }
        Value::GlobalAddress { ty, item } => {
            let eff: Type = match ty {
                Type::Null => match tys.find_ty(item) {
                    Option::Some(t) => t.clone_deep(),
                    Option::None => Type::Null,
                },
                _ => ty.clone_deep(),
            };
            vstack.push(StackItem { ty: pointer_to(eff), kind: StackValueKind::RValue });
            Result::Ok(vstack)
        }
        Value::ByteString { .. } => {
            let inner = int_item(8, false);
            vstack.push(StackItem { ty: pointer_to(inner.ty), kind: StackValueKind::RValue });
            Result::Ok(vstack)
        }
        Value::LabelAddress(n) => match find_target(targets, *n) {
            Option::Some(tstack) => {
                proof {
                    lemma_view_stack(tstack@);
                }
                if tstack.len() == 0 {
                    vstack.push(
                        StackItem { ty: pointer_to(Type::Void), kind: StackValueKind::RValue },
                    );
                    Result::Ok(vstack)
                } else {
                    Result::Err(ValidateError::StackMismatch)
                }
            }
            Option::None => Result::Err(ValidateError::Unresolved),
        },
    }
}

fn step_binary(
    op: BinaryOp,
    ob: OverflowBehaviour,
    vstack: Vec<StackItem>,
    tys: &TypeState,
) -> (r: Result<Vec<StackItem>, ValidateError>)
    ensures
        stack_matches(r, spec_step_binary(tys.deep_view(), view_stack(vstack@), op, ob)),
{
    proof {
        broadcast use lemma_view_stack, lemma_view_stack_push;

    }
    let mut vstack = vstack;
    if vstack.len() < 2 {
        return Result::Err(ValidateError::Malformed);
    }
    let ghost s0 = view_stack(vstack@);
    let val1 = vstack.pop().unwrap();
    let val2 = vstack.pop().unwrap();
    proof {
        assert(view_stack(vstack@) =~= s0.take(s0.len() - 2));
    }
    if !stack_value_kind_eq(val1.kind, StackValueKind::RValue) || !stack_value_kind_eq(
        val2.kind,
        StackValueKind::RValue,
    ) {
        return Result::Err(ValidateError::KindViolation);
    }
    let rf = tys.refiy_type(&val1.ty);
    match rf {
        Type::Scalar(_) => match op {
            BinaryOp::CmpInt | BinaryOp::Cmp => {
                vstack.push(int_item(32, true));
                Result::Ok(vstack)
            }
            BinaryOp::CmpLt | BinaryOp::CmpLe | BinaryOp::CmpGt | BinaryOp::CmpGe
                | BinaryOp::CmpNe | BinaryOp::CmpEq => {
                vstack.push(int_item(1, false));
                Result::Ok(vstack)
            }
            _ => match ob {
                OverflowBehaviour::Checked => {
                    vstack.push(val1);
                    vstack.push(int_item(1, false));
                    Result::Ok(vstack)
                }
                _ => {
                    vstack.push(val1);
                    Result::Ok(vstack)
                }
            },
        },
        _ => Result::Err(ValidateError::Unsupported),
    }
}

fn step_unary(
    op: UnaryOp,
    ob: OverflowBehaviour,
    vstack: Vec<StackItem>,
) -> (r: Result<Vec<StackItem>, ValidateError>)
    ensures
        stack_matches(r, spec_step_unary(view_stack(vstack@), op, ob)),
{
    proof {
        broadcast use lemma_view_stack, lemma_view_stack_push;

    }
    let mut vstack = vstack;
    if vstack.len() < 1 {
        return Result::Err(ValidateError::Malformed);
    }
    let ghost s0 = view_stack(vstack@);
    let val = vstack.pop().unwrap();
    proof {
        assert(view_stack(vstack@) =~= s0.take(s0.len() - 1));
    }
    if !stack_value_kind_eq(val.kind, StackValueKind::RValue) {
        return Result::Err(ValidateError::KindViolation);
    }
    match &val.ty {
        Type::Scalar(_) => match op {
            UnaryOp::Minus => {
                vstack.push(val);
                match ob {
                    OverflowBehaviour::Checked => {
                        vstack.push(int_item(1, false));
                        Result::Ok(vstack)
                    }
                    _ => Result::Ok(vstack),
                }
            }
            UnaryOp::LogicNot => {
                vstack.push(int_item(1, false));
                Result::Ok(vstack)
            }
            UnaryOp::BitNot => {
                vstack.push(val);
                Result::Ok(vstack)
            }
        },
        _ => Result::Err(ValidateError::TypeMismatch),
    }
}

#[verifier::loop_isolation(false)]
fn check_args(
    args: &Vec<StackItem>,
    params: &Vec<Type>,
    tys: &TypeState,
) -> (r: Result<(), ValidateError>)
    ensures
        r == spec_check_args(
            tys.deep_view(),
            view_stack(args@),
            view_types(params@),
            UNIFY_FUEL as nat,
        ),
{
    proof {
        lemma_view_stack(args@);
        lemma_view_types(params@);
        assert(view_stack(args@).skip(0) =~= view_stack(args@));
        assert(view_types(params@).skip(0) =~= view_types(params@));
    }
    let n: usize = if args.len() < params.len() {
        args.len()
    } else {
        params.len()
    };
    let mut i: usize = 0;
    while i < n
        invariant
            0 <= i <= n,
            spec_check_args(
                tys.deep_view(),
                view_stack(args@),
                view_types(params@),
                UNIFY_FUEL as nat,
            ) == spec_check_args(
                tys.deep_view(),
                view_stack(args@).skip(i as int),
                view_types(params@).skip(i as int),
                UNIFY_FUEL as nat,
            ),
        decreases n - i,
    {
        proof {
            assert(view_stack(args@).skip(i as int).skip(1) =~= view_stack(args@).skip(i + 1));
            assert(view_types(params@).skip(i as int).skip(1) =~= view_types(params@).skip(
                i + 1,
            ));
        }
        if !stack_value_kind_eq(args[i].kind, StackValueKind::RValue) {
            return Result::Err(ValidateError::KindViolation);
        }
        match check_unify(&args[i].ty, &params[i], tys) {
            Result::Ok(()) => {}
            Result::Err(e) => {
                return Result::Err(e);
            }
        }
        i += 1;
    }
    Result::Ok(())
}

#[verifier::rlimit(80)]
fn step_call(
    fnty: &FnType,
    vstack: Vec<StackItem>,
    tys: &TypeState,
) -> (r: Result<Vec<StackItem>, ValidateError>)
    ensures
        stack_matches(
            r,
            spec_step_call(
                tys.deep_view(),
                view_stack(vstack@),
                view_fn_type(*fnty),
                UNIFY_FUEL as nat,
            ),
        ),
{
    proof {
        broadcast use lemma_view_stack, lemma_view_stack_push;

        lemma_view_types(fnty.params@);
    }
    let mut vstack = vstack;
    let nparams: usize = fnty.params.len();
    if nparams >= vstack.len() {
        return Result::Err(ValidateError::Malformed);
    }
    let ghost s0 = view_stack(vstack@);
    let at: usize = vstack.len() - nparams;
    let args = vstack.split_off(at);
    let dest = vstack.pop().unwrap();
    proof {
        assert(view_stack(args@) =~= s0.skip(s0.len() - nparams as int));
        assert(view_stack(vstack@) =~= s0.take(s0.len() - nparams as int - 1));
        assert(dest.deep_view() == s0[s0.len() - nparams - 1]);
        assert(view_fn_type(*fnty).params.len() == nparams as int);
    }
    if fnty.variadic {
        return Result::Err(ValidateError::Unsupported);
    }
    if !stack_value_kind_eq(dest.kind, StackValueKind::RValue) {
        return Result::Err(ValidateError::KindViolation);
    }
    let rf_dest = tys.refiy_type(&dest.ty);
    match rf_dest {
        Type::Pointer(pty) => {
            let rf_inner = tys.refiy_type(&pty.inner);
            match rf_inner {
                Type::FnType(cty) => {
                    proof {
                        lemma_view_types(cty.params@);
                        let spec_f = view_fn_type(*fnty);
                        let ts_v = tys.deep_view();
                        assert(view_fn_type(*cty).params.len() == cty.params@.len());
                        assert(spec_reify(ts_v, dest.deep_view().ty) == SpecType::Pointer(
                            view_pointer_type(pty),
                        ));
                        assert(rf_inner.deep_view() == spec_reify(
                            ts_v,
                            *view_pointer_type(pty).inner,
                        ));
                        assert(rf_inner.deep_view() == SpecType::FnType(view_fn_type(*cty)));
                        assert(spec_reify(ts_v, *view_pointer_type(pty).inner)
                            == SpecType::FnType(view_fn_type(*cty)));
                        assert(dest.deep_view() == s0[s0.len() - nparams - 1]);
                        assert(spec_f.params.len() == nparams as int);
                    }
                    let arity_ok: bool = if cty.variadic {
                        cty.params.len() <= nparams
                    } else {
                        cty.params.len() == nparams
                    };
                    if !arity_ok {
                        return Result::Err(ValidateError::TypeMismatch);
                    }
                    match check_unify_list(&cty.params, &fnty.params, tys, UNIFY_FUEL) {
                        Result::Ok(()) => {}
                        Result::Err(e) => {
                            return Result::Err(e);
                        }
                    }
                    match check_unify(&cty.ret, &fnty.ret, tys) {
                        Result::Ok(()) => {}
                        Result::Err(e) => {
                            return Result::Err(e);
                        }
                    }
                    match check_args(&args, &fnty.params, tys) {
                        Result::Ok(()) => {}
                        Result::Err(e) => {
                            return Result::Err(e);
                        }
                    }
                    vstack.push(
                        StackItem { ty: fnty.ret.clone_deep(), kind: StackValueKind::RValue },
                    );
                    Result::Ok(vstack)
                }
                _ => Result::Err(ValidateError::TypeMismatch),
            }
        }
        _ => Result::Err(ValidateError::TypeMismatch),
    }
}

fn step_lvalue_op(
    op: LValueOp,
    ob: OverflowBehaviour,
    vstack: Vec<StackItem>,
    tys: &TypeState,
) -> (r: Result<Vec<StackItem>, ValidateError>)
    ensures
        stack_matches(
            r,
            spec_step_lvalue_op(tys.deep_view(), view_stack(vstack@), op, ob, UNIFY_FUEL as nat),
        ),
{
    proof {
        broadcast use lemma_view_stack, lemma_view_stack_push;

    }
    let mut vstack = vstack;
    let ghost s0 = view_stack(vstack@);
    match op {
        LValueOp::Xchg => {
            if vstack.len() < 2 {
                return Result::Err(ValidateError::Malformed);
            }
            let val1 = vstack.pop().unwrap();
            let val2 = vstack.pop().unwrap();
            proof {
                assert(view_stack(vstack@) =~= s0.take(s0.len() - 2));
            }
            if !stack_value_kind_eq(val1.kind, StackValueKind::LValue) || !stack_value_kind_eq(
                val2.kind,
                StackValueKind::LValue,
            ) {
                return Result::Err(ValidateError::KindViolation);
            }
            match check_unify(&val1.ty, &val2.ty, tys) {
                Result::Ok(()) => Result::Ok(vstack),
                Result::Err(e) => Result::Err(e),
            }
        }
        LValueOp::Cmpxchg | LValueOp::Wcmpxchg => {
            if vstack.len() < 3 {
                return Result::Err(ValidateError::Malformed);
            }
            let control = vstack.pop().unwrap();
            let swap = vstack.pop().unwrap();
            let dest = vstack.pop().unwrap();
            proof {
                assert(view_stack(vstack@) =~= s0.take(s0.len() - 3));
            }
            if !stack_value_kind_eq(dest.kind, StackValueKind::LValue) || !stack_value_kind_eq(
                swap.kind,
                StackValueKind::LValue,
            ) || !stack_value_kind_eq(control.kind, StackValueKind::RValue) {
                return Result::Err(ValidateError::KindViolation);
            }
            match check_unify(&dest.ty, &control.ty, tys) {
                Result::Ok(()) => {}
                Result::Err(e) => {
                    return Result::Err(e);
                }
            }
            match check_unify(&dest.ty, &swap.ty, tys) {
                Result::Ok(()) => {}
                Result::Err(e) => {
                    return Result::Err(e);
                }
            }
            vstack.push(int_item(1, false));
            Result::Ok(vstack)
        }
        LValueOp::PreDec | LValueOp::PreInc => {
            if vstack.len() < 1 {
                return Result::Err(ValidateError::Malformed);
            }
            let top: usize = vstack.len() - 1;
            if !stack_value_kind_eq(vstack[top].kind, StackValueKind::LValue) {
                return Result::Err(ValidateError::KindViolation);
            }
            let rf = tys.refiy_type(&vstack[top].ty);
            match rf {
                Type::Scalar(_) => match ob {
                    OverflowBehaviour::Checked => {
                        vstack.push(int_item(1, false));
                        Result::Ok(vstack)
                    }
                    _ => Result::Ok(vstack),
                },
                _ => Result::Err(ValidateError::TypeMismatch),
            }
        }
        LValueOp::PostDec | LValueOp::PostInc => {
            if vstack.len() < 1 {
                return Result::Err(ValidateError::Malformed);
            }
            let top: usize = vstack.len() - 1;
            if !stack_value_kind_eq(vstack[top].kind, StackValueKind::LValue) {
                return Result::Err(ValidateError::KindViolation);
            }
            let rf = tys.refiy_type(&vstack[top].ty);
            match rf {
                Type::Scalar(_) => match ob {
                    OverflowBehaviour::Checked => {
                        let lvalue = vstack.pop().unwrap();
                        proof {
                            assert(view_stack(vstack@) =~= s0.take(s0.len() - 1));
                        }
                        vstack.push(
                            StackItem { ty: lvalue.ty, kind: StackValueKind::RValue },
                        );
                        vstack.push(int_item(1, false));
                        Result::Ok(vstack)
                    }
                    _ => Result::Ok(vstack),
                },
                _ => Result::Err(ValidateError::TypeMismatch),
            }
        }
    }
}

#[verifier::loop_isolation(false)]
fn check_ctor_fields(
    ty: &Type,
    names: &Vec<String>,
    items: &Vec<StackItem>,
    tys: &TypeState,
) -> (r: Result<(), ValidateError>)
    ensures
        r == spec_check_ctor_fields(
            tys.deep_view(),
            ty.deep_view(),
            names.deep_view(),
            view_stack(items@),
            UNIFY_FUEL as nat,
        ),
{
    proof {
        lemma_view_stack(items@);
        assert(names.deep_view().skip(0) =~= names.deep_view());
        assert(view_stack(items@).skip(0) =~= view_stack(items@));
    }
    let n: usize = if names.len() < items.len() {
        names.len()
    } else {
        items.len()
    };
    let mut i: usize = 0;
    while i < n
        invariant
            0 <= i <= n,
            spec_check_ctor_fields(
                tys.deep_view(),
                ty.deep_view(),
                names.deep_view(),
                view_stack(items@),
                UNIFY_FUEL as nat,
            ) == spec_check_ctor_fields(
                tys.deep_view(),
                ty.deep_view(),
                names.deep_view().skip(i as int),
                view_stack(items@).skip(i as int),
                UNIFY_FUEL as nat,
            ),
        decreases n - i,
    {
        proof {
            assert(names.deep_view().skip(i as int).skip(1) =~= names.deep_view().skip(i + 1));
            assert(view_stack(items@).skip(i as int).skip(1) =~= view_stack(items@).skip(
                i + 1,
            ));
        }
        if !stack_value_kind_eq(items[i].kind, StackValueKind::RValue) {
            return Result::Err(ValidateError::KindViolation);
        }
        match tys.get_field_type(ty, names[i].as_str()) {
            Option::Some(fty) => match check_unify(&fty, &items[i].ty, tys) {
                Result::Ok(()) => {}
                Result::Err(e) => {
                    return Result::Err(e);
                }
            },
            Option::None => {
                return Result::Err(ValidateError::Unresolved);
            }
        }
        i += 1;
    }
    Result::Ok(())
}

fn step_aggregate(
    ctor: &AggregateCtor,
    vstack: Vec<StackItem>,
    tys: &TypeState,
) -> (r: Result<Vec<StackItem>, ValidateError>)
    ensures
        stack_matches(
            r,
            spec_step_aggregate(
                tys.deep_view(),
                view_stack(vstack@),
                ctor.ty.deep_view(),
                ctor.fields.deep_view(),
                UNIFY_FUEL as nat,
            ),
        ),
{
    proof {
        broadcast use lemma_view_stack, lemma_view_stack_push;

    }
    let mut vstack = vstack;
    let n: usize = ctor.fields.len();
    if n > vstack.len() {
        return Result::Err(ValidateError::Malformed);
    }
    let ghost s0 = view_stack(vstack@);
    let at: usize = vstack.len() - n;
    let items = vstack.split_off(at);
    proof {
        assert(view_stack(items@) =~= s0.skip(s0.len() - n as int));
        assert(view_stack(vstack@) =~= s0.take(s0.len() - n as int));
    }
    match check_ctor_fields(&ctor.ty, &ctor.fields, &items, tys) {
        Result::Ok(()) => {}
        Result::Err(e) => {
            return Result::Err(e);
        }
    }
    vstack.push(StackItem { ty: ctor.ty.clone_deep(), kind: StackValueKind::RValue });
    Result::Ok(vstack)
}

#[verifier::loop_isolation(false)]
fn unify_stack_pairwise(
    a: &Vec<StackItem>,
    b: &Vec<StackItem>,
    tys: &TypeState,
) -> (r: Result<(), ValidateError>)
    requires
        a@.len() == b@.len(),
    ensures
        r == spec_unify_stack_items(
            tys.deep_view(),
            view_stack(a@),
            view_stack(b@),
            UNIFY_FUEL as nat,
        ),
{
    proof {
        lemma_view_stack(a@);
        lemma_view_stack(b@);
        assert(view_stack(a@).skip(0) =~= view_stack(a@));
        assert(view_stack(b@).skip(0) =~= view_stack(b@));
    }
    let n: usize = a.len();
    let mut i: usize = 0;
    while i < n
        invariant
            0 <= i <= n,
            spec_unify_stack_items(
                tys.deep_view(),
                view_stack(a@),
                view_stack(b@),
                UNIFY_FUEL as nat,
            ) == spec_unify_stack_items(
                tys.deep_view(),
                view_stack(a@).skip(i as int),
                view_stack(b@).skip(i as int),
                UNIFY_FUEL as nat,
            ),
        decreases n - i,
    {
        proof {
            assert(view_stack(a@).skip(i as int).skip(1) =~= view_stack(a@).skip(i + 1));
            assert(view_stack(b@).skip(i as int).skip(1) =~= view_stack(b@).skip(i + 1));
        }
        if !stack_value_kind_eq(a[i].kind, b[i].kind) {
            return Result::Err(ValidateError::StackMismatch);
        }
        match check_unify(&a[i].ty, &b[i].ty, tys) {
            Result::Ok(()) => {}
            Result::Err(e) => {
                return Result::Err(e);
            }
        }
        i += 1;
    }
    Result::Ok(())
}

#[verifier::loop_isolation(false)]
fn check_switch_cases(
    cases: &Vec<(Value, u32)>,
    ctrl_ty: &Type,
    rest: &Vec<StackItem>,
    targets: &Vec<(u32, Vec<StackItem>)>,
    tys: &TypeState,
) -> (r: Result<(), ValidateError>)
    ensures
        r == spec_check_switch_cases(
            tys.deep_view(),
            view_targets(targets@),
            ctrl_ty.deep_view(),
            view_stack(rest@),
            cases@,
            Option::None,
            UNIFY_FUEL as nat,
        ),
{
    proof {
        assert(cases@.skip(0) =~= cases@);
    }
    let n: usize = cases.len();
    let mut i: usize = 0;
    let mut ustack: Option<&Vec<StackItem>> = Option::None;
    while i < n
        invariant
            0 <= i <= n,
            n == cases.len(),
            spec_check_switch_cases(
                tys.deep_view(),
                view_targets(targets@),
                ctrl_ty.deep_view(),
                view_stack(rest@),
                cases@,
                Option::None,
                UNIFY_FUEL as nat,
            ) == spec_check_switch_cases(
                tys.deep_view(),
                view_targets(targets@),
                ctrl_ty.deep_view(),
                view_stack(rest@),
                cases@.skip(i as int),
                match ustack {
                    Option::Some(v) => Option::Some(view_stack(v@)),
                    Option::None => Option::None,
                },
                UNIFY_FUEL as nat,
            ),
        decreases n - i,
    {
        proof {
            assert(cases@.skip(i as int).skip(1) =~= cases@.skip(i + 1));
        }
        match &cases[i].0 {
            Value::Integer { ty, .. } => {
                let case_ty = Type::Scalar(*ty);
                match check_unify(ctrl_ty, &case_ty, tys) {
                    Result::Ok(()) => {}
                    Result::Err(e) => {
                        return Result::Err(e);
                    }
                }
                match find_target(targets, cases[i].1) {
                    Option::Some(tstack) => {
                        match ustack {
                            Option::Some(us) => {
                                proof {
                                    lemma_view_stack(us@);
                                    lemma_view_stack(tstack@);
                                }
                                if us.len() != tstack.len() {
                                    return Result::Err(ValidateError::StackMismatch);
                                }
                                match unify_stack_pairwise(us, tstack, tys) {
                                    Result::Ok(()) => {}
                                    Result::Err(e) => {
                                        return Result::Err(e);
                                    }
                                }
                            }
                            Option::None => {
                                match check_unify_stack(rest, tstack, tys) {
                                    Result::Ok(()) => {}
                                    Result::Err(e) => {
                                        return Result::Err(e);
                                    }
                                }
                                ustack = Option::Some(tstack);
                            }
                        }
                    }
                    Option::None => {
                        return Result::Err(ValidateError::Unresolved);
                    }
                }
            }
            _ => {
                return Result::Err(ValidateError::TypeMismatch);
            }
        }
        i += 1;
    }
    Result::Ok(())
}

fn step_switch(
    sw: &Switch,
    vstack: Vec<StackItem>,
    targets: &Vec<(u32, Vec<StackItem>)>,
    tys: &TypeState,
) -> (r: Result<Vec<StackItem>, ValidateError>)
    ensures
        stack_matches(
            r,
            spec_step_switch(
                tys.deep_view(),
                view_targets(targets@),
                view_stack(vstack@),
                *sw,
                UNIFY_FUEL as nat,
            ),
        ),
{
    proof {
        broadcast use lemma_view_stack, lemma_view_stack_push;

    }
    let mut vstack = vstack;
    if vstack.len() < 1 {
        return Result::Err(ValidateError::Malformed);
    }
    let ghost s0 = view_stack(vstack@);
    let ctrl = vstack.pop().unwrap();
    proof {
        assert(view_stack(vstack@) =~= s0.take(s0.len() - 1));
    }
    if !stack_value_kind_eq(ctrl.kind, StackValueKind::RValue) {
        return Result::Err(ValidateError::KindViolation);
    }
    let rf = tys.refiy_type(&ctrl.ty);
    match rf {
        Type::Scalar(sc) => match sc.kind {
            ScalarTypeKind::Integer { .. } => match sw {
                Switch::Hash(h) => {
                    match check_switch_cases(&h.cases, &ctrl.ty, &vstack, targets, tys) {
                        Result::Ok(()) => Result::Ok(vstack),
                        Result::Err(e) => Result::Err(e),
                    }
                }
                Switch::Linear(_) => Result::Err(ValidateError::Unsupported),
            },
            _ => Result::Err(ValidateError::TypeMismatch),
        },
        _ => Result::Err(ValidateError::TypeMismatch),
    }
}


fn step_exit_block(
    blk: u32,
    values: u16,
    vstack: Vec<StackItem>,
    block_exits: Vec<Option<Vec<StackItem>>>,
    tys: &TypeState,
) -> (r: Result<(Vec<StackItem>, Vec<Option<Vec<StackItem>>>), ValidateError>)
    ensures
        step_matches(
            r,
            spec_step_exit_block(
                tys.deep_view(),
                view_exits(block_exits@),
                view_stack(vstack@),
                blk,
                values,
                UNIFY_FUEL as nat,
            ),
        ),
{
    proof {
        broadcast use lemma_view_stack;

        lemma_view_exits(block_exits@);
    }
    let mut vstack = vstack;
    let mut block_exits = block_exits;
    let ghost s0 = view_stack(vstack@);
    let ghost ex0 = view_exits(block_exits@);
    let blk_i: usize = blk as usize;
    let values_i: usize = values as usize;
    if blk_i >= block_exits.len() {
        return Result::Err(ValidateError::Malformed);
    }
    if values_i > vstack.len() {
        return Result::Err(ValidateError::Malformed);
    }
    let at: usize = vstack.len() - values_i;
    let popped = vstack.split_off(at);
    proof {
        assert(view_stack(popped@) =~= s0.skip(s0.len() - values_i as int));
        assert(view_stack(vstack@) =~= s0.take(s0.len() - values_i as int));
    }
    let recorded: bool = block_exits[blk_i].is_some();
    if !recorded {
        block_exits.set(blk_i, Option::Some(popped));
        proof {
            lemma_view_exits(block_exits@);
            assert(view_exits(block_exits@) =~= ex0.update(
                blk_i as int,
                Option::Some(s0.skip(s0.len() - values_i as int)),
            ));
        }
        Result::Ok((vstack, block_exits))
    } else {
        match &block_exits[blk_i] {
            Option::Some(items) => {
                proof {
                    lemma_view_stack(items@);
                }
                if items.len() != values_i {
                    return Result::Err(ValidateError::StackMismatch);
                }
                match unify_stack_pairwise(&popped, items, tys) {
                    Result::Ok(()) => Result::Ok((vstack, block_exits)),
                    Result::Err(e) => Result::Err(e),
                }
            }
            Option::None => Result::Err(ValidateError::Malformed),
        }
    }
}

fn step_branch(
    cond: BranchCondition,
    target: u32,
    vstack: Vec<StackItem>,
    targets: &Vec<(u32, Vec<StackItem>)>,
    tys: &TypeState,
) -> (r: Result<Vec<StackItem>, ValidateError>)
    ensures
        stack_matches(
            r,
            spec_step_branch(
                tys.deep_view(),
                view_targets(targets@),
                view_stack(vstack@),
                cond,
                target,
                UNIFY_FUEL as nat,
            ),
        ),
{
    proof {
        broadcast use lemma_view_stack;

    }
    let mut vstack = vstack;
    let ghost s0 = view_stack(vstack@);
    let pops: bool = match cond {
        BranchCondition::Always | BranchCondition::Never => false,
        _ => true,
    };
    if pops {
        if vstack.len() < 1 {
            return Result::Err(ValidateError::Malformed);
        }
        let ctrl = vstack.pop().unwrap();
        proof {
            assert(view_stack(vstack@) =~= s0.take(s0.len() - 1));
        }
        if !stack_value_kind_eq(ctrl.kind, StackValueKind::RValue) {
            return Result::Err(ValidateError::KindViolation);
        }
        let rf = tys.refiy_type(&ctrl.ty);
        let is_int: bool = match &rf {
            Type::Scalar(sc) => match sc.kind {
                ScalarTypeKind::Integer { .. } => true,
                _ => false,
            },
            _ => false,
        };
        if !is_int {
            return Result::Err(ValidateError::TypeMismatch);
        }
    }
    match find_target(targets, target) {
        Option::Some(tstack) => match check_unify_stack(&vstack, tstack, tys) {
            Result::Ok(()) => Result::Ok(vstack),
            Result::Err(e) => Result::Err(e),
        },
        Option::None => Result::Err(ValidateError::Unresolved),
    }
}

fn step_branch_indirect(vstack: Vec<StackItem>, tys: &TypeState) -> (r: Result<
    Vec<StackItem>,
    ValidateError,
>)
    ensures
        stack_matches(
            r,
            spec_step_branch_indirect(tys.deep_view(), view_stack(vstack@), UNIFY_FUEL as nat),
        ),
{
    proof {
        broadcast use lemma_view_stack;

    }
    let mut vstack = vstack;
    let ghost s0 = view_stack(vstack@);
    if vstack.len() < 1 {
        return Result::Err(ValidateError::Malformed);
    }
    let item = vstack.pop().unwrap();
    proof {
        assert(view_stack(vstack@) =~= s0.take(s0.len() - 1));
    }
    if !stack_value_kind_eq(item.kind, StackValueKind::RValue) {
        return Result::Err(ValidateError::KindViolation);
    }
    let void_ptr = pointer_to(Type::Void);
    match check_unify(&item.ty, &void_ptr, tys) {
        Result::Ok(()) => Result::Ok(vstack),
        Result::Err(e) => Result::Err(e),
    }
}

fn step_derive_post(
    pty: &PointerType,
    vstack: Vec<StackItem>,
    tys: &TypeState,
) -> (r: Result<Vec<StackItem>, ValidateError>)
    ensures
        stack_matches(
            r,
            spec_step_derive_post(
                tys.deep_view(),
                view_stack(vstack@),
                view_pointer_type(*pty),
                UNIFY_FUEL as nat,
            ),
        ),
{
    proof {
        broadcast use lemma_view_stack;

    }
    let mut vstack = vstack;
    let ghost s0 = view_stack(vstack@);
    if vstack.len() < 1 {
        return Result::Err(ValidateError::Malformed);
    }
    let item = vstack.pop().unwrap();
    proof {
        assert(view_stack(vstack@) =~= s0.take(s0.len() - 1));
    }
    if !stack_value_kind_eq(item.kind, StackValueKind::RValue) {
        return Result::Err(ValidateError::KindViolation);
    }
    match &item.ty {
        Type::Pointer(ptrty) => {
            proof {
                assert(view_type(item.ty) == SpecType::Pointer(view_pointer_type(*ptrty)));
            }
            match check_unify(&pty.inner, &ptrty.inner, tys) {
                Result::Ok(()) => Result::Ok(vstack),
                Result::Err(e) => Result::Err(e),
            }
        }
        _ => Result::Err(ValidateError::TypeMismatch),
    }
}

fn step_local(n: u32, locals: &Vec<Type>, vstack: Vec<StackItem>) -> (r: Result<
    Vec<StackItem>,
    ValidateError,
>)
    ensures
        stack_matches(r, spec_step_local(view_types(locals@), view_stack(vstack@), n)),
{
    proof {
        broadcast use lemma_view_stack, lemma_view_stack_push;

        lemma_view_types(locals@);
    }
    let mut vstack = vstack;
    let idx: usize = n as usize;
    if idx >= locals.len() {
        return Result::Err(ValidateError::Malformed);
    }
    vstack.push(StackItem { ty: locals[idx].clone_deep(), kind: StackValueKind::LValue });
    Result::Ok(vstack)
}

fn step_pop(n: u32, vstack: Vec<StackItem>) -> (r: Result<Vec<StackItem>, ValidateError>)
    ensures
        stack_matches(r, spec_step_pop(view_stack(vstack@), n)),
{
    proof {
        broadcast use lemma_view_stack;

    }
    let mut vstack = vstack;
    let ghost s0 = view_stack(vstack@);
    let cnt: usize = n as usize;
    if cnt > vstack.len() {
        return Result::Err(ValidateError::Malformed);
    }
    let keep: usize = vstack.len() - cnt;
    vstack.truncate(keep);
    proof {
        assert(view_stack(vstack@) =~= s0.take(s0.len() - cnt as int));
    }
    Result::Ok(vstack)
}

#[verifier::loop_isolation(false)]
fn step_dup(n: u32, vstack: Vec<StackItem>) -> (r: Result<Vec<StackItem>, ValidateError>)
    ensures
        stack_matches(r, spec_step_dup(view_stack(vstack@), n)),
{
    proof {
        broadcast use lemma_view_stack;

    }
    let mut vstack = vstack;
    let ghost s0 = view_stack(vstack@);
    let cnt: usize = n as usize;
    if cnt > vstack.len() {
        return Result::Err(ValidateError::Malformed);
    }
    let at: usize = vstack.len() - cnt;
    let mut top: Vec<StackItem> = Vec::new();
    let len: usize = vstack.len();
    let mut i: usize = at;
    while i < len
        invariant
            at <= i <= len,
            len == vstack.len(),
            top@.len() == i - at,
            forall|j: int| 0 <= j < i - at
                ==> top@[j].deep_view() == vstack@[at + j].deep_view(),
        decreases len - i,
    {
        top.push(vstack[i].clone_deep());
        i += 1;
    }
    proof {
        lemma_view_stack(top@);
        assert(view_stack(top@) =~= s0.skip(s0.len() - cnt as int));
    }
    vstack.append(&mut top);
    proof {
        assert(view_stack(vstack@) =~= s0 + s0.skip(s0.len() - cnt as int));
    }
    Result::Ok(vstack)
}

fn step_pivot(n: u32, m: u32, vstack: Vec<StackItem>) -> (r: Result<Vec<StackItem>, ValidateError>)
    ensures
        stack_matches(r, spec_step_pivot(view_stack(vstack@), n, m)),
{
    proof {
        broadcast use lemma_view_stack;

    }
    let mut vstack = vstack;
    let ghost s0 = view_stack(vstack@);
    let mc: usize = m as usize;
    let nc: usize = n as usize;
    if mc > vstack.len() {
        return Result::Err(ValidateError::Malformed);
    }
    let back1: usize = vstack.len() - mc;
    if nc > back1 {
        return Result::Err(ValidateError::Malformed);
    }
    let back2: usize = back1 - nc;
    let mut top_m = vstack.split_off(back1);
    let mut next_n = vstack.split_off(back2);
    vstack.append(&mut top_m);
    vstack.append(&mut next_n);
    proof {
        assert(view_stack(vstack@) =~= s0.take(back2 as int) + s0.skip(back1 as int)
            + s0.subrange(back2 as int, back1 as int));
    }
    Result::Ok(vstack)
}

fn step_member(name: &str, vstack: Vec<StackItem>, tys: &TypeState) -> (r: Result<
    Vec<StackItem>,
    ValidateError,
>)
    ensures
        stack_matches(
            r,
            spec_step_member(tys.deep_view(), view_stack(vstack@), name@, UNIFY_FUEL as nat),
        ),
{
    proof {
        broadcast use lemma_view_stack, lemma_view_stack_push;

    }
    let mut vstack = vstack;
    let ghost s0 = view_stack(vstack@);
    if vstack.len() < 1 {
        return Result::Err(ValidateError::Malformed);
    }
    let val = vstack.pop().unwrap();
    proof {
        assert(view_stack(vstack@) =~= s0.take(s0.len() - 1));
    }
    if !stack_value_kind_eq(val.kind, StackValueKind::LValue) {
        return Result::Err(ValidateError::KindViolation);
    }
    match tys.get_field_type(&val.ty, name) {
        Option::Some(fty) => {
            vstack.push(StackItem { ty: fty, kind: StackValueKind::LValue });
            Result::Ok(vstack)
        }
        Option::None => Result::Err(ValidateError::Unresolved),
    }
}

fn step_member_indirect(name: &str, vstack: Vec<StackItem>, tys: &TypeState) -> (r: Result<
    Vec<StackItem>,
    ValidateError,
>)
    ensures
        stack_matches(
            r,
            spec_step_member_indirect(
                tys.deep_view(),
                view_stack(vstack@),
                name@,
                UNIFY_FUEL as nat,
            ),
        ),
{
    proof {
        broadcast use lemma_view_stack, lemma_view_stack_push;

    }
    let mut vstack = vstack;
    let ghost s0 = view_stack(vstack@);
    if vstack.len() < 1 {
        return Result::Err(ValidateError::Malformed);
    }
    let val = vstack.pop().unwrap();
    proof {
        assert(view_stack(vstack@) =~= s0.take(s0.len() - 1));
    }
    if !stack_value_kind_eq(val.kind, StackValueKind::RValue) {
        return Result::Err(ValidateError::KindViolation);
    }
    match &val.ty {
        Type::Pointer(ptr) => {
            proof {
                assert(view_type(val.ty) == SpecType::Pointer(view_pointer_type(*ptr)));
            }
            match tys.get_field_type(&ptr.inner, name) {
                Option::Some(fty) => {
                    vstack.push(
                        StackItem { ty: pointer_to(fty), kind: StackValueKind::RValue },
                    );
                    Result::Ok(vstack)
                }
                Option::None => Result::Err(ValidateError::Unresolved),
            }
        }
        _ => Result::Err(ValidateError::TypeMismatch),
    }
}

fn step_assign(vstack: Vec<StackItem>, tys: &TypeState) -> (r: Result<
    Vec<StackItem>,
    ValidateError,
>)
    ensures
        stack_matches(
            r,
            spec_step_assign(tys.deep_view(), view_stack(vstack@), UNIFY_FUEL as nat),
        ),
{
    proof {
        broadcast use lemma_view_stack;

    }
    let mut vstack = vstack;
    let ghost s0 = view_stack(vstack@);
    if vstack.len() < 2 {
        return Result::Err(ValidateError::Malformed);
    }
    let rvalue = vstack.pop().unwrap();
    let lvalue = vstack.pop().unwrap();
    proof {
        assert(view_stack(vstack@) =~= s0.take(s0.len() - 2));
    }
    if !stack_value_kind_eq(rvalue.kind, StackValueKind::RValue) || !stack_value_kind_eq(
        lvalue.kind,
        StackValueKind::LValue,
    ) {
        return Result::Err(ValidateError::KindViolation);
    }
    match check_unify(&rvalue.ty, &lvalue.ty, tys) {
        Result::Ok(()) => Result::Ok(vstack),
        Result::Err(e) => Result::Err(e),
    }
}

fn step_as_rvalue(vstack: Vec<StackItem>) -> (r: Result<Vec<StackItem>, ValidateError>)
    ensures
        stack_matches(r, spec_step_as_rvalue(view_stack(vstack@))),
{
    proof {
        broadcast use lemma_view_stack, lemma_view_stack_push;

    }
    let mut vstack = vstack;
    let ghost s0 = view_stack(vstack@);
    if vstack.len() < 1 {
        return Result::Err(ValidateError::Malformed);
    }
    let val = vstack.pop().unwrap();
    proof {
        assert(view_stack(vstack@) =~= s0.take(s0.len() - 1));
    }
    if !stack_value_kind_eq(val.kind, StackValueKind::LValue) {
        return Result::Err(ValidateError::KindViolation);
    }
    vstack.push(StackItem { ty: val.ty, kind: StackValueKind::RValue });
    Result::Ok(vstack)
}

fn step_compound_assign(
    ob: OverflowBehaviour,
    vstack: Vec<StackItem>,
    tys: &TypeState,
) -> (r: Result<Vec<StackItem>, ValidateError>)
    ensures
        stack_matches(
            r,
            spec_step_compound_assign(
                tys.deep_view(),
                view_stack(vstack@),
                ob,
                UNIFY_FUEL as nat,
            ),
        ),
{
    proof {
        broadcast use lemma_view_stack, lemma_view_stack_push;

    }
    let mut vstack = vstack;
    let ghost s0 = view_stack(vstack@);
    if vstack.len() < 2 {
        return Result::Err(ValidateError::Malformed);
    }
    let rvalue = vstack.pop().unwrap();
    let lvalue = vstack.pop().unwrap();
    proof {
        assert(view_stack(vstack@) =~= s0.take(s0.len() - 2));
    }
    if !stack_value_kind_eq(rvalue.kind, StackValueKind::RValue) || !stack_value_kind_eq(
        lvalue.kind,
        StackValueKind::LValue,
    ) {
        return Result::Err(ValidateError::KindViolation);
    }
    match check_unify(&lvalue.ty, &rvalue.ty, tys) {
        Result::Ok(()) => {}
        Result::Err(e) => {
            return Result::Err(e);
        }
    }
    let rf = tys.refiy_type(&lvalue.ty);
    match rf {
        Type::Scalar(_) => match ob {
            OverflowBehaviour::Checked => {
                vstack.push(int_item(1, false));
                Result::Ok(vstack)
            }
            _ => Result::Ok(vstack),
        },
        _ => Result::Err(ValidateError::Unsupported),
    }
}

fn step_indirect(vstack: Vec<StackItem>) -> (r: Result<Vec<StackItem>, ValidateError>)
    ensures
        stack_matches(r, spec_step_indirect(view_stack(vstack@))),
{
    proof {
        broadcast use lemma_view_stack, lemma_view_stack_push;

    }
    let mut vstack = vstack;
    let ghost s0 = view_stack(vstack@);
    if vstack.len() < 1 {
        return Result::Err(ValidateError::Malformed);
    }
    let val = vstack.pop().unwrap();
    proof {
        assert(view_stack(vstack@) =~= s0.take(s0.len() - 1));
    }
    if !stack_value_kind_eq(val.kind, StackValueKind::RValue) {
        return Result::Err(ValidateError::KindViolation);
    }
    let ghost vt = val.ty;
    match val.ty {
        Type::Pointer(ptr) => {
            proof {
                assert(view_type(vt) == SpecType::Pointer(view_pointer_type(ptr)));
            }
            let inner: Type = *ptr.inner;
            vstack.push(StackItem { ty: inner, kind: StackValueKind::LValue });
            Result::Ok(vstack)
        }
        _ => Result::Err(ValidateError::TypeMismatch),
    }
}

fn step_addr_of(vstack: Vec<StackItem>) -> (r: Result<Vec<StackItem>, ValidateError>)
    ensures
        stack_matches(r, spec_step_addr_of(view_stack(vstack@))),
{
    proof {
        broadcast use lemma_view_stack, lemma_view_stack_push;

    }
    let mut vstack = vstack;
    let ghost s0 = view_stack(vstack@);
    if vstack.len() < 1 {
        return Result::Err(ValidateError::Malformed);
    }
    let val = vstack.pop().unwrap();
    proof {
        assert(view_stack(vstack@) =~= s0.take(s0.len() - 1));
    }
    if !stack_value_kind_eq(val.kind, StackValueKind::LValue) {
        return Result::Err(ValidateError::KindViolation);
    }
    vstack.push(StackItem { ty: pointer_to(val.ty), kind: StackValueKind::RValue });
    Result::Ok(vstack)
}

/// Whether an executable stepping result that also carries exit records
/// returns exactly what the model says.
pub open spec fn step_matches(
    r: Result<(Vec<StackItem>, Vec<Option<Vec<StackItem>>>), ValidateError>,
    m: Result<(Seq<SpecStackItem>, SpecExits), ValidateError>,
) -> bool {
    match (r, m) {
        (Result::Ok((v, ex)), Result::Ok((s, e))) => view_stack(v@) == s && view_exits(ex@)
            == e,
        (Result::Err(a), Result::Err(b)) => a == b,
        _ => false,
    }
}

/// Replays one instruction's static effect: consumes the live stack and the
/// exit records, and returns their successors, or the fault the model
/// assigns to this instruction in this state.
#[verifier::loop_isolation(false)]
pub fn tycheck_expr(
    expr: &Expr,
    locals: &Vec<Type>,
    block_exits: Vec<Option<Vec<StackItem>>>,
    vstack: Vec<StackItem>,
    targets: &Vec<(u32, Vec<StackItem>)>,
    tys: &TypeState,
) -> (r: Result<(Vec<StackItem>, Vec<Option<Vec<StackItem>>>), ValidateError>)
    ensures
        step_matches(
            r,
            spec_expr_step(
                tys.deep_view(),
                view_types(locals@),
                view_targets(targets@),
                view_exits(block_exits@),
                view_stack(vstack@),
                *expr,
            ),
        ),
    decreases expr, 0nat,
{
    match expr {
        Expr::Null => Result::Ok((vstack, block_exits)),
        Expr::Sequence(_) => Result::Ok((vstack, block_exits)),
        Expr::Fence(_) => Result::Ok((vstack, block_exits)),
        Expr::Const(v) => match step_const(v, vstack, targets, tys) {
            Result::Ok(s) => Result::Ok((s, block_exits)),
            Result::Err(e) => Result::Err(e),
        },
        Expr::ExitBlock { blk, values } => step_exit_block(*blk, *values, vstack, block_exits, tys),
        Expr::BinaryOp(op, ob) => match step_binary(*op, *ob, vstack, tys) {
            Result::Ok(s) => Result::Ok((s, block_exits)),
            Result::Err(e) => Result::Err(e),
        },
        Expr::UnaryOp(op, ob) => match step_unary(*op, *ob, vstack) {
            Result::Ok(s) => Result::Ok((s, block_exits)),
            Result::Err(e) => Result::Err(e),
        },
        Expr::Tailcall(_) => Result::Err(ValidateError::Unsupported),
        Expr::CallFunction(f) => match step_call(f, vstack, tys) {
            Result::Ok(s) => Result::Ok((s, block_exits)),
            Result::Err(e) => Result::Err(e),
        },
        Expr::Branch { cond, target } => match step_branch(*cond, *target, vstack, targets, tys) {
            Result::Ok(s) => Result::Ok((s, block_exits)),
            Result::Err(e) => Result::Err(e),
        },
        Expr::BranchIndirect => match step_branch_indirect(vstack, tys) {
            Result::Ok(s) => Result::Ok((s, block_exits)),
            Result::Err(e) => Result::Err(e),
        },
        Expr::Convert(_, _) => Result::Err(ValidateError::Unsupported),
        Expr::Derive(pty, inner) => {
            match tycheck_expr(inner, locals, block_exits, vstack, targets, tys) {
                Result::Ok((s, ex)) => match step_derive_post(pty, s, tys) {
                    Result::Ok(s2) => Result::Ok((s2, ex)),
                    Result::Err(e) => Result::Err(e),
                },
                Result::Err(e) => Result::Err(e),
            }
        }
        Expr::Local(n) => match step_local(*n, locals, vstack) {
            Result::Ok(s) => Result::Ok((s, block_exits)),
            Result::Err(e) => Result::Err(e),
        },
        Expr::Pop(n) => match step_pop(*n, vstack) {
            Result::Ok(s) => Result::Ok((s, block_exits)),
            Result::Err(e) => Result::Err(e),
        },
        Expr::Dup(n) => match step_dup(*n, vstack) {
            Result::Ok(s) => Result::Ok((s, block_exits)),
            Result::Err(e) => Result::Err(e),
        },
        Expr::Pivot(n, m) => match step_pivot(*n, *m, vstack) {
            Result::Ok(s) => Result::Ok((s, block_exits)),
            Result::Err(e) => Result::Err(e),
        },
        Expr::Aggregate(ctor) => match step_aggregate(ctor, vstack, tys) {
            Result::Ok(s) => Result::Ok((s, block_exits)),
            Result::Err(e) => Result::Err(e),
        },
        Expr::Member(name) => match step_member(name.as_str(), vstack, tys) {
            Result::Ok(s) => Result::Ok((s, block_exits)),
            Result::Err(e) => Result::Err(e),
        },
        Expr::MemberIndirect(name) => match step_member_indirect(name.as_str(), vstack, tys) {
            Result::Ok(s) => Result::Ok((s, block_exits)),
            Result::Err(e) => Result::Err(e),
        },
        Expr::Block { n, block } => {
            proof {
                lemma_view_exits(block_exits@);
            }
            if *n as usize != block_exits.len() {
                return Result::Err(ValidateError::Malformed);
            }
            let ghost s0 = view_stack(vstack@);
            let mut vstack = vstack;
            match tycheck_block(block, tys, locals, block_exits) {
                Result::Ok((mut res, ex)) => {
                    proof {
                        broadcast use lemma_view_stack;

                    }
                    let ghost rv = view_stack(res@);
                    vstack.append(&mut res);
                    proof {
                        assert(view_stack(vstack@) =~= s0 + rv);
                    }
                    Result::Ok((vstack, ex))
                }
                Result::Err(e) => Result::Err(e),
            }
        }
        Expr::Assign(_) => match step_assign(vstack, tys) {
            Result::Ok(s) => Result::Ok((s, block_exits)),
            Result::Err(e) => Result::Err(e),
        },
        Expr::AsRValue(_) => match step_as_rvalue(vstack) {
            Result::Ok(s) => Result::Ok((s, block_exits)),
            Result::Err(e) => Result::Err(e),
        },
        Expr::CompoundAssign(_, ob, _) => match step_compound_assign(*ob, vstack, tys) {
            Result::Ok(s) => Result::Ok((s, block_exits)),
            Result::Err(e) => Result::Err(e),
        },
        Expr::LValueOp(op, ob, _) => match step_lvalue_op(*op, *ob, vstack, tys) {
            Result::Ok(s) => Result::Ok((s, block_exits)),
            Result::Err(e) => Result::Err(e),
        },
        Expr::Indirect => match step_indirect(vstack) {
            Result::Ok(s) => Result::Ok((s, block_exits)),
            Result::Err(e) => Result::Err(e),
        },
        Expr::AddrOf => match step_addr_of(vstack) {
            Result::Ok(s) => Result::Ok((s, block_exits)),
            Result::Err(e) => Result::Err(e),
        },
        Expr::Switch(sw) => match step_switch(sw, vstack, targets, tys) {
            Result::Ok(s) => Result::Ok((s, block_exits)),
            Result::Err(e) => Result::Err(e),
        },
    }
}

/// Checks one block: collects its target labels, replays its items on an
/// empty simulated stack, and returns the block's recorded exit stack
/// together with the surviving exit records of the enclosing blocks.
#[verifier::loop_isolation(false)]
#[verifier::rlimit(100)]
pub fn tycheck_block(
    block: &Block,
    tys: &TypeState,
    locals: &Vec<Type>,
    block_exits: Vec<Option<Vec<StackItem>>>,
) -> (r: Result<(Vec<StackItem>, Vec<Option<Vec<StackItem>>>), ValidateError>)
    ensures
        step_matches(
            r,
            spec_block_run(tys.deep_view(), view_types(locals@), view_exits(block_exits@), *block),
        ),
    decreases block, 0nat,
{
    proof {
        broadcast use lemma_view_stack, lemma_view_stack_push;

        lemma_view_exits(block_exits@);
    }
    let mut block_exits = block_exits;
    let ghost ex0 = view_exits(block_exits@);
    let n: usize = block.items.len();

    // Pre-scan: collect the declared target labels.
    let mut targets: Vec<(u32, Vec<StackItem>)> = Vec::new();
    let mut i: usize = 0;
    while i < n
        invariant
            0 <= i <= n,
            n == block.items.len(),
            spec_collect_targets(block.items@, 0, Seq::empty()) == spec_collect_targets(
                block.items@,
                i as int,
                view_targets(targets@),
            ),
        decreases n - i,
    {
        match &block.items[i] {
            BlockItem::Target { num, stack } => {
                match find_target(&targets, *num) {
                    Option::Some(_) => {
                        return Result::Err(ValidateError::Malformed);
                    }
                    Option::None => {}
                }
                let mut copy: Vec<StackItem> = Vec::new();
                extend_stack_clone(&mut copy, stack);
                proof {
                    lemma_view_stack(copy@);
                    lemma_view_stack(stack@);
                    assert(view_stack(copy@) =~= view_stack(stack@));
                }
                let ghost tpre = targets@;
                targets.push((*num, copy));
                proof {
                    lemma_view_targets(targets@);
                    lemma_view_targets(tpre);
                    assert(targets@.subrange(0, targets@.len() - 1) =~= tpre);
                    assert(view_targets(targets@) =~= view_targets(tpre).push(
                        (*num, view_stack(stack@)),
                    ));
                }
            }
            BlockItem::Expr(_) => {}
        }
        i += 1;
    }
    let ghost tview = view_targets(targets@);

    // Sequential replay.
    block_exits.push(Option::None);
    proof {
        lemma_view_exits(block_exits@);
        assert(view_exits(block_exits@) =~= ex0.push(Option::None));
    }
    let depth: usize = block_exits.len();
    let mut vstack: Vec<StackItem> = Vec::new();
    let mut j: usize = 0;
    proof {
        assert(view_stack(vstack@) =~= Seq::<SpecStackItem>::empty());
    }
    while j < n
        invariant
            0 <= j <= n,
            n == block.items.len(),
            tview == view_targets(targets@),
            spec_block_items(
                tys.deep_view(),
                view_types(locals@),
                tview,
                block.items@,
                0,
                Seq::empty(),
                ex0.push(Option::None),
            ) == spec_block_items(
                tys.deep_view(),
                view_types(locals@),
                tview,
                block.items@,
                j as int,
                view_stack(vstack@),
                view_exits(block_exits@),
            ),
        decreases n - j,
    {
        match &block.items[j] {
            BlockItem::Expr(e) => {
                match tycheck_expr(e, locals, block_exits, vstack, &targets, tys) {
                    Result::Ok((s, ex)) => {
                        vstack = s;
                        block_exits = ex;
                    }
                    Result::Err(e2) => {
                        return Result::Err(e2);
                    }
                }
            }
            BlockItem::Target { stack, .. } => {
                match check_unify_stack(&vstack, stack, tys) {
                    Result::Ok(()) => {}
                    Result::Err(e2) => {
                        return Result::Err(e2);
                    }
                }
                vstack.clear();
                extend_stack_clone(&mut vstack, stack);
                proof {
                    assert(view_stack(vstack@) =~= view_stack(stack@));
                }
            }
        }
        j += 1;
    }
    proof {
        lemma_view_exits(block_exits@);
    }
    if block_exits.len() != depth {
        return Result::Err(ValidateError::Malformed);
    }
    let ghost exf = view_exits(block_exits@);
    match block_exits.pop() {
        Option::Some(rec) => {
            proof {
                lemma_view_exits(block_exits@);
                assert(view_exits(block_exits@) =~= exf.take(exf.len() - 1));
            }
            let res: Vec<StackItem> = match rec {
                Option::Some(v) => v,
                Option::None => Vec::new(),
            };
            proof {
                assert(view_stack(Seq::<StackItem>::empty()) =~= Seq::<SpecStackItem>::empty());
            }
            Result::Ok((res, block_exits))
        }
        Option::None => Result::Err(ValidateError::Malformed),
    }
}

/// Appends structural copies of `src`'s types to `dst`.
#[verifier::loop_isolation(false)]
fn extend_types_clone(dst: &mut Vec<Type>, src: &Vec<Type>)
    ensures
        view_types(final(dst)@) == view_types(old(dst)@) + view_types(src@),
{
    proof {
        broadcast use lemma_view_types;

    }
    let base: usize = dst.len();
    let n: usize = src.len();
    let mut i: usize = 0;
    while i < n
        invariant
            0 <= i <= n,
            dst@.len() == base + i,
            forall|j: int| 0 <= j < base ==> view_type(dst@[j]) == view_type(old(dst)@[j]),
            forall|j: int| 0 <= j < i ==> view_type(dst@[base + j]) == view_type(src@[j]),
        decreases n - i,
    {
        dst.push(src[i].clone_deep());
        i += 1;
    }
    proof {
        lemma_view_types(dst@);
        lemma_view_types(old(dst)@);
        lemma_view_types(src@);
        assert(view_types(dst@) =~= view_types(old(dst)@) + view_types(src@));
    }
}

/// Checks one function member: replays its root block over the parameter and
/// local types and holds the resulting exit stack to the declared return
/// type.  A declaration without a body is accepted unchecked.
pub fn tycheck_function(x: &FunctionDeclaration, tys: &TypeState) -> (r: Result<
    (),
    ValidateError,
>)
    ensures
        r == spec_check_function(tys.deep_view(), *x),
{
    match &x.body {
        Option::None => Result::Ok(()),
        Option::Some(body) => {
            let mut local_tys: Vec<Type> = Vec::new();
            extend_types_clone(&mut local_tys, &x.ty.params);
            extend_types_clone(&mut local_tys, &body.locals);
            proof {
                assert(view_types(Seq::<Type>::empty()) =~= Seq::<SpecType>::empty());
                assert(view_types(local_tys@) =~= view_types(x.ty.params@) + view_types(
                    body.locals@,
                ));
                assert(view_exits(Seq::<Option<Vec<StackItem>>>::empty())
                    =~= Seq::<Option<Seq<SpecStackItem>>>::empty());
            }
            match tycheck_block(&body.block, tys, &local_tys, Vec::new()) {
                Result::Ok((ret, _)) => {
                    proof {
                        lemma_view_stack(ret@);
                    }
                    let is_void: bool = match &x.ty.ret {
                        Type::Void => true,
                        _ => false,
                    };
                    if is_void {
                        if ret.len() == 0 {
                            Result::Ok(())
                        } else {
                            Result::Err(ValidateError::StackMismatch)
                        }
                    } else {
                        if ret.len() == 1 {
                            check_unify(&ret[0].ty, &x.ty.ret, tys)
                        } else {
                            Result::Err(ValidateError::StackMismatch)
                        }
                    }
                }
                Result::Err(e) => Result::Err(e),
            }
        }
    }
}

impl TypeState {
    fn type_resolved(&self, t: &Type) -> (r: bool)
        ensures
            r == spec_type_resolved(self.deep_view(), t.deep_view()),
        decreases t, 0nat,
    {
        let r: bool = match t {
            Type::Named(p) => {
                let in_tys: bool = self.find_ty(p).is_some();
                let in_ags: bool = self.find_aggregate(p).is_some();
                in_tys || in_ags
            }
            Type::FnType(f) => {
                proof {
                    lemma_view_types(f.params@);
                    assert(t.deep_view() == SpecType::FnType(view_fn_type(**f)));
                }
                self.types_resolved(&f.params) && self.type_resolved(&f.ret)
            }
            Type::Pointer(p) => {
                proof {
                    assert(t.deep_view() == SpecType::Pointer(view_pointer_type(*p)));
                }
                self.type_resolved(&p.inner)
            }
            Type::Product(l) => self.types_resolved(l),
            Type::Aggregate(a) => {
                proof {
                    assert(t.deep_view() == SpecType::Aggregate(view_aggregate_definition(*a)));
                }
                self.field_types_resolved(&a.fields)
            }
            Type::Array(ar) => self.type_resolved(&ar.ty),
            Type::TaggedType(_, inner) => self.type_resolved(inner),
            Type::Aligned(_, inner) => self.type_resolved(inner),
            _ => true,
        };
        proof {
            reveal_with_fuel(spec_type_resolved, 2);
        }
        r
    }

    #[verifier::loop_isolation(false)]
    fn types_resolved(&self, l: &Vec<Type>) -> (r: bool)
        ensures
            r == spec_types_resolved(self.deep_view(), view_types(l@)),
        decreases l@, 1nat,
    {
        proof {
            lemma_view_types(l@);
            assert(view_types(l@).skip(0) =~= view_types(l@));
        }
        let n: usize = l.len();
        let mut i: usize = 0;
        while i < n
            invariant
                0 <= i <= n,
                spec_types_resolved(self.deep_view(), view_types(l@)) == spec_types_resolved(
                    self.deep_view(),
                    view_types(l@).skip(i as int),
                ),
            decreases n - i,
        {
            proof {
                assert(view_types(l@).skip(i as int).skip(1) =~= view_types(l@).skip(i + 1));
            }
            if !self.type_resolved(&l[i]) {
                return false;
            }
            i += 1;
        }
        true
    }

    #[verifier::loop_isolation(false)]
    fn field_types_resolved(&self, f: &Vec<(String, Type)>) -> (r: bool)
        ensures
            r == spec_field_types_resolved(self.deep_view(), view_fields(f@)),
        decreases f@, 1nat,
    {
        proof {
            lemma_view_fields(f@);
            assert(view_fields(f@).skip(0) =~= view_fields(f@));
        }
        let n: usize = f.len();
        let mut i: usize = 0;
        while i < n
            invariant
                0 <= i <= n,
                spec_field_types_resolved(self.deep_view(), view_fields(f@))
                    == spec_field_types_resolved(
                    self.deep_view(),
                    view_fields(f@).skip(i as int),
                ),
            decreases n - i,
        {
            proof {
                assert(view_fields(f@).skip(i as int).skip(1) =~= view_fields(f@).skip(i + 1));
            }
            if !self.type_resolved(&f[i].1) {
                return false;
            }
            i += 1;
        }
        true
    }

    fn member_resolved(&self, m: &ScopeMember) -> (r: bool)
        ensures
            r == spec_member_resolved(self.deep_view(), *m),
    {
        match &m.member_decl {
            MemberDeclaration::Function(fd) => {
                let whole = Type::FnType(Box::new(fd.ty.clone_deep()));
                self.type_resolved(&whole)
            }
            MemberDeclaration::Static(sd) => self.type_resolved(&sd.ty),
            MemberDeclaration::AggregateDefinition(ag) => self.field_types_resolved(&ag.fields),
            _ => true,
        }
    }
}

/// Validates a whole file: pass one builds the global type and aggregate
/// tables from the root scope's members and rejects any unresolvable named
/// reference in the declared types; pass two replays every function body,
/// and refuses a file holding a static member, whose checking is not
/// implemented.  Returns exactly what the file-level model says.
#[verifier::loop_isolation(false)]
pub fn tycheck(x: &File) -> (r: Result<(), ValidateError>)
    ensures
        r == spec_tycheck(*x),
{
    let n: usize = x.root.members.len();

    // Pass one: gather the global tables.
    let mut typestate = TypeState { tys: Vec::new(), aggregate: Vec::new() };
    proof {
        assert(view_ty_table(Seq::<(Path, Type)>::empty()) =~= Seq::<(
            SpecPath,
            SpecType,
        )>::empty());
        assert(view_ag_table(Seq::<(Path, Option<AggregateDefinition>)>::empty()) =~= Seq::<(
            SpecPath,
            Option<SpecAggregateDefinition>,
        )>::empty());
    }
    let ghost init = SpecTypeState { tys: Seq::empty(), aggregate: Seq::empty() };
    let mut i: usize = 0;
    while i < n
        invariant
            0 <= i <= n,
            n == x.root.members.len(),
            spec_build_state(x.root.members@, 0, init) == spec_build_state(
                x.root.members@,
                i as int,
                view_type_state(typestate),
            ),
        decreases n - i,
    {
        let ghost pre_tys = typestate.tys@;
        let ghost pre_ags = typestate.aggregate@;
        match &x.root.members[i].1.member_decl {
            MemberDeclaration::Function(fd) => {
                let path = x.root.members[i].0.clone_deep();
                let ty = Type::FnType(Box::new(fd.ty.clone_deep()));
                typestate.tys.push((path, ty));
                proof {
                    lemma_view_ty_table(typestate.tys@);
                    lemma_view_ty_table(pre_tys);
                    assert(typestate.tys@.subrange(0, typestate.tys@.len() - 1) =~= pre_tys);
                    assert(view_ty_table(typestate.tys@) =~= view_ty_table(pre_tys).push(
                        (
                            x.root.members@[i as int].0.deep_view(),
                            SpecType::FnType(view_fn_type(fd.ty)),
                        ),
                    ));
                }
            }
            MemberDeclaration::Static(sd) => {
                let path = x.root.members[i].0.clone_deep();
                let ty = sd.ty.clone_deep();
                typestate.tys.push((path, ty));
                proof {
                    lemma_view_ty_table(typestate.tys@);
                    lemma_view_ty_table(pre_tys);
                    assert(typestate.tys@.subrange(0, typestate.tys@.len() - 1) =~= pre_tys);
                    assert(view_ty_table(typestate.tys@) =~= view_ty_table(pre_tys).push(
                        (x.root.members@[i as int].0.deep_view(), view_type(sd.ty)),
                    ));
                }
            }
            MemberDeclaration::AggregateDefinition(ag) => {
                let path = x.root.members[i].0.clone_deep();
                let defn = ag.clone_deep();
                typestate.aggregate.push((path, Option::Some(defn)));
                proof {
                    lemma_view_ag_table(typestate.aggregate@);
                    lemma_view_ag_table(pre_ags);
                    assert(typestate.aggregate@.subrange(0, typestate.aggregate@.len() - 1)
                        =~= pre_ags);
                    assert(view_ag_table(typestate.aggregate@) =~= view_ag_table(pre_ags).push(
                        (
                            x.root.members@[i as int].0.deep_view(),
                            Option::Some(view_aggregate_definition(*ag)),
                        ),
                    ));
                }
            }
            MemberDeclaration::OpaqueAggregate(_) => {
                let path = x.root.members[i].0.clone_deep();
                typestate.aggregate.push((path, Option::None));
                proof {
                    lemma_view_ag_table(typestate.aggregate@);
                    lemma_view_ag_table(pre_ags);
                    assert(typestate.aggregate@.subrange(0, typestate.aggregate@.len() - 1)
                        =~= pre_ags);
                    assert(view_ag_table(typestate.aggregate@) =~= view_ag_table(pre_ags).push(
                        (x.root.members@[i as int].0.deep_view(), Option::None),
                    ));
                }
            }
            _ => {}
        }
        i += 1;
    }
    let ghost ts_v = view_type_state(typestate);

    // Pass one, continued: every named reference in the declared types must
    // resolve before any body is checked.
    let mut k: usize = 0;
    while k < n
        invariant
            0 <= k <= n,
            n == x.root.members.len(),
            ts_v == view_type_state(typestate),
            spec_members_resolved(ts_v, x.root.members@, 0) == spec_members_resolved(
                ts_v,
                x.root.members@,
                k as int,
            ),
        decreases n - k,
    {
        if !typestate.member_resolved(&x.root.members[k].1) {
            return Result::Err(ValidateError::Unresolved);
        }
        k += 1;
    }

    // Pass two: check every function body.
    let mut j: usize = 0;
    while j < n
        invariant
            0 <= j <= n,
            n == x.root.members.len(),
            ts_v == view_type_state(typestate),
            spec_members_resolved(ts_v, x.root.members@, 0),
            spec_check_members(ts_v, x.root.members@, 0) == spec_check_members(
                ts_v,
                x.root.members@,
                j as int,
            ),
        decreases n - j,
    {
        match &x.root.members[j].1.member_decl {
            MemberDeclaration::Function(fd) => {
                match tycheck_function(fd, &typestate) {
                    Result::Ok(()) => {}
                    Result::Err(e) => {
                        return Result::Err(e);
                    }
                }
            }
            MemberDeclaration::Static(_) => {
                return Result::Err(ValidateError::Unsupported);
            }
            _ => {}
        }
        j += 1;
    }
    Result::Ok(())
}


// ---------------------------------------------------------------------------
// Laws of the simulator
// ---------------------------------------------------------------------------

/// Stack balance at block exits: whenever an exit-block instruction is
/// accepted, the items it moved into the block's exit record number exactly
/// the declared `values` count, the recorded shape has that same count, and
/// the live stack shrinks by that count.
pub proof fn lemma_exit_block_balance(
    ts: SpecTypeState,
    exits: SpecExits,
    stack: Seq<SpecStackItem>,
    blk: u32,
    values: u16,
    fuel: nat,
)
    ensures
        match spec_step_exit_block(ts, exits, stack, blk, values, fuel) {
            Result::Ok((s2, ex2)) => {
                &&& s2.len() == stack.len() - values as int
                &&& ex2[blk as int] matches Option::Some(rec) && rec.len() == values as int
            },
            Result::Err(_) => true,
        },
{
    if ((blk as int) < exits.len()) && ((values as int) <= stack.len()) {
        let popped = stack.skip(stack.len() - values as int);
        assert(popped.len() == values as int);
        match exits[blk as int] {
            Option::None => {}
            Option::Some(items) => {}
        }
    }
}

/// Stack balance at join points: a target label accepted at a fall-through
/// join requires the live stack to cover the declared shape, and the replay
/// continues with exactly the declared shape.
pub proof fn lemma_target_join_balance(
    ts: SpecTypeState,
    locals: Seq<SpecType>,
    targets: SpecTargets,
    items: Seq<BlockItem>,
    i: int,
    stack: Seq<SpecStackItem>,
    exits: SpecExits,
    num: u32,
    tstack: Vec<StackItem>,
)
    requires
        0 <= i < items.len(),
        items[i] == (BlockItem::Target { num, stack: tstack }),
        spec_unify_stack(ts, stack, view_stack(tstack@), UNIFY_FUEL as nat) is Ok,
    ensures
        stack.len() >= view_stack(tstack@).len(),
        view_stack(tstack@).len() == tstack@.len(),
        spec_block_items(ts, locals, targets, items, i, stack, exits) == spec_block_items(
            ts,
            locals,
            targets,
            items,
            i + 1,
            view_stack(tstack@),
            exits,
        ),
{
    lemma_view_stack(tstack@);
}

/// Kind discipline: l-to-r decay demands an l-value; an r-value on top of
/// the stack is rejected as a kind violation.
pub proof fn lemma_as_rvalue_rejects_rvalue(stack: Seq<SpecStackItem>)
    requires
        stack.len() >= 1,
        stack[stack.len() - 1].kind == StackValueKind::RValue,
    ensures
        spec_step_as_rvalue(stack) == Result::<Seq<SpecStackItem>, ValidateError>::Err(
            ValidateError::KindViolation,
        ),
{
}

/// Kind discipline: an assignment whose target slot holds an r-value is
/// rejected as a kind violation, whatever the source item is.
pub proof fn lemma_assign_rejects_rvalue_target(
    ts: SpecTypeState,
    stack: Seq<SpecStackItem>,
    fuel: nat,
)
    requires
        stack.len() >= 2,
        stack[stack.len() - 2].kind == StackValueKind::RValue,
    ensures
        spec_step_assign(ts, stack, fuel) == Result::<Seq<SpecStackItem>, ValidateError>::Err(
            ValidateError::KindViolation,
        ),
{
}

/// Kind discipline: taking the address of an r-value is rejected as a kind
/// violation.
pub proof fn lemma_addr_of_rejects_rvalue(stack: Seq<SpecStackItem>)
    requires
        stack.len() >= 1,
        stack[stack.len() - 1].kind == StackValueKind::RValue,
    ensures
        spec_step_addr_of(stack) == Result::<Seq<SpecStackItem>, ValidateError>::Err(
            ValidateError::KindViolation,
        ),
{
}

/// Pointwise facts suffice for the argument check: arguments that are all
/// r-values whose types unify with their call-site parameters pass.
pub proof fn lemma_check_args_pointwise(
    ts: SpecTypeState,
    items: Seq<SpecStackItem>,
    params: Seq<SpecType>,
    fuel: nat,
)
    requires
        items.len() == params.len(),
        forall|j: int| 0 <= j < items.len() ==> (#[trigger] items[j].kind)
            == StackValueKind::RValue,
        forall|j: int| 0 <= j < items.len() ==> spec_unify(ts, #[trigger] items[j].ty, params[j], fuel)
            == Result::<(), ValidateError>::Ok(()),
    ensures
        spec_check_args(ts, items, params, fuel) == Result::<(), ValidateError>::Ok(()),
    decreases items.len(),
{
    if items.len() > 0 {
        lemma_check_args_pointwise(ts, items.skip(1), params.skip(1), fuel);
    }
}

/// Call signature, the accepting direction: a call through an r-value
/// callee whose reified type is a pointer to a function type of agreeing
/// arity, whose declared parameters and return type unify with the call
/// site's, and whose arguments all pass, consumes the arguments and the
/// callee and pushes exactly one r-value of the call-site return type.
pub proof fn lemma_call_well_typed(
    ts: SpecTypeState,
    stack: Seq<SpecStackItem>,
    f: SpecFnType,
    fuel: nat,
)
    requires
        f.params.len() + 1 <= stack.len(),
        !f.variadic,
        stack[stack.len() - f.params.len() - 1].kind == StackValueKind::RValue,
        spec_reify(ts, stack[stack.len() - f.params.len() - 1].ty) matches SpecType::Pointer(pty)
            && ({
            &&& spec_reify(ts, *pty.inner) matches SpecType::FnType(cty)
            &&& if cty.variadic {
                cty.params.len() <= f.params.len()
            } else {
                cty.params.len() == f.params.len()
            }
            &&& spec_unify_list(ts, cty.params, f.params, fuel) == Result::<
                (),
                ValidateError,
            >::Ok(())
            &&& spec_unify(ts, *cty.ret, *f.ret, fuel) == Result::<(), ValidateError>::Ok(())
        }),
        spec_check_args(ts, stack.skip(stack.len() - f.params.len()), f.params, fuel)
            == Result::<(), ValidateError>::Ok(()),
    ensures
        spec_step_call(ts, stack, f, fuel) == Result::<Seq<SpecStackItem>, ValidateError>::Ok(
            stack.take(stack.len() - f.params.len() - 1).push(
                SpecStackItem { ty: *f.ret, kind: StackValueKind::RValue },
            ),
        ),
{
}

/// Call arity: a call through a non-variadic callee whose declared parameter
/// count differs from the call site's is rejected, whatever the arguments
/// hold.
pub proof fn lemma_call_arity_mismatch(
    ts: SpecTypeState,
    stack: Seq<SpecStackItem>,
    f: SpecFnType,
    fuel: nat,
)
    requires
        f.params.len() + 1 <= stack.len(),
        !f.variadic,
        stack[stack.len() - f.params.len() - 1].kind == StackValueKind::RValue,
        spec_reify(ts, stack[stack.len() - f.params.len() - 1].ty) matches SpecType::Pointer(pty)
            && spec_reify(ts, *pty.inner) matches SpecType::FnType(cty) && !cty.variadic
            && cty.params.len() != f.params.len(),
    ensures
        spec_step_call(ts, stack, f, fuel) == Result::<Seq<SpecStackItem>, ValidateError>::Err(
            ValidateError::TypeMismatch,
        ),
{
}

} // verus!
