use lccc::ir::{
    Abi, AggregateDefinition, AggregateKind, AnnotatedElement, ArrayType, FnType, Path,
    PathComponent, PointerAliasingRule, PointerType, ScalarType, ScalarTypeHeader,
    ScalarTypeKind, ScalarValidity, Type, ValidRange, ValidRangeType, Value,
};
use lccc::validate::{check_unify, TypeState, ValidateError};

fn int_scalar(bits: u16, signed: bool) -> ScalarType {
    ScalarType {
        header: ScalarTypeHeader {
            bitsize: bits,
            vectorsize: 0,
            validity: ScalarValidity { nonzero: false, finite: false, nonnan: false },
        },
        kind: ScalarTypeKind::Integer { signed, min: None, max: None },
    }
}

fn int_ty(bits: u16, signed: bool) -> Type {
    Type::Scalar(int_scalar(bits, signed))
}

fn ptr_to(t: Type, alias: PointerAliasingRule) -> Type {
    Type::Pointer(PointerType {
        alias,
        valid_range: ValidRange { kind: ValidRangeType::Empty, extent: 0 },
        inner: Box::new(t),
    })
}

fn fn_ty(ret: Type, params: Vec<Type>) -> Type {
    Type::FnType(Box::new(FnType { ret, params, tag: Abi::C, variadic: false }))
}

fn arr_ty(elem: Type, len: u128) -> Type {
    Type::Array(Box::new(ArrayType {
        ty: elem,
        len: Value::Integer { ty: int_scalar(64, false), val: len },
    }))
}

fn agg_ty(fields: Vec<(&str, Type)>) -> Type {
    Type::Aggregate(AggregateDefinition {
        annotations: AnnotatedElement { annotations: Vec::new() },
        kind: AggregateKind::Struct,
        fields: fields.into_iter().map(|(n, t)| (String::from(n), t)).collect(),
    })
}

fn path(name: &str) -> Path {
    Path { components: vec![PathComponent::Text(String::from(name))] }
}

fn empty_state() -> TypeState {
    TypeState { tys: Vec::new(), aggregate: Vec::new() }
}

fn samples() -> Vec<Type> {
    vec![
        int_ty(32, true),
        int_ty(8, false),
        ptr_to(int_ty(32, true), PointerAliasingRule::Empty),
        fn_ty(int_ty(32, true), vec![int_ty(8, false), int_ty(16, false)]),
        agg_ty(vec![("x", int_ty(32, true)), ("y", int_ty(64, false))]),
        arr_ty(int_ty(8, false), 16),
        Type::Product(vec![int_ty(8, false), int_ty(32, true)]),
        Type::Null,
    ]
}

fn clone_ty(t: &Type) -> Type {
    t.clone_deep()
}

#[test]
fn unify_is_reflexive_on_sample_types() {
    let ts = empty_state();
    for t in &samples() {
        assert!(check_unify(t, &clone_ty(t), &ts).is_ok(), "failed on {:?}", t);
    }
}

#[test]
fn unify_is_symmetric_on_sample_pairs() {
    let ts = empty_state();
    let sample = samples();
    for a in &sample {
        for b in &sample {
            let ab = check_unify(a, b, &ts);
            let ba = check_unify(b, a, &ts);
            assert_eq!(ab, ba, "asymmetric on {:?} and {:?}", a, b);
        }
    }
}

#[test]
fn null_unifies_with_anything() {
    let ts = empty_state();
    assert!(check_unify(&Type::Null, &int_ty(32, true), &ts).is_ok());
    assert!(check_unify(&fn_ty(int_ty(8, false), Vec::new()), &Type::Null, &ts).is_ok());
}

#[test]
fn scalar_unification_compares_width_and_signedness() {
    let ts = empty_state();
    assert!(check_unify(&int_ty(32, true), &int_ty(32, true), &ts).is_ok());
    assert_eq!(
        check_unify(&int_ty(32, true), &int_ty(16, true), &ts).unwrap_err(),
        ValidateError::TypeMismatch
    );
    assert_eq!(
        check_unify(&int_ty(32, true), &int_ty(32, false), &ts).unwrap_err(),
        ValidateError::TypeMismatch
    );
}

#[test]
fn pointer_unification_ignores_aliasing_annotations() {
    let ts = empty_state();
    let a = ptr_to(int_ty(32, true), PointerAliasingRule::Empty);
    let b = ptr_to(int_ty(32, true), PointerAliasingRule::Unique);
    assert!(check_unify(&a, &b, &ts).is_ok());
    let c = ptr_to(int_ty(16, true), PointerAliasingRule::Empty);
    assert_eq!(check_unify(&a, &c, &ts).unwrap_err(), ValidateError::TypeMismatch);
}

#[test]
fn function_unification_requires_equal_arity() {
    let ts = empty_state();
    let two = fn_ty(int_ty(32, true), vec![int_ty(32, true), int_ty(32, true)]);
    let one = fn_ty(int_ty(32, true), vec![int_ty(32, true)]);
    assert_eq!(check_unify(&two, &one, &ts).unwrap_err(), ValidateError::TypeMismatch);
    assert!(check_unify(&two, &clone_ty(&two), &ts).is_ok());
}

#[test]
fn array_length_must_match_numerically() {
    let ts = empty_state();
    let a = arr_ty(int_ty(8, false), 16);
    let b = arr_ty(int_ty(8, false), 17);
    assert_eq!(check_unify(&a, &b, &ts).unwrap_err(), ValidateError::TypeMismatch);
}

#[test]
fn array_with_non_integer_length_is_unsupported() {
    let ts = empty_state();
    let odd = Type::Array(Box::new(ArrayType {
        ty: int_ty(8, false),
        len: Value::Invalid(int_ty(8, false)),
    }));
    let other = arr_ty(int_ty(8, false), 4);
    assert_eq!(check_unify(&odd, &other, &ts).unwrap_err(), ValidateError::Unsupported);
    // And against itself: the same unsupported construct, not a mismatch.
    let odd2 = Type::Array(Box::new(ArrayType {
        ty: int_ty(8, false),
        len: Value::Invalid(int_ty(8, false)),
    }));
    assert_eq!(check_unify(&odd, &odd2, &ts).unwrap_err(), ValidateError::Unsupported);
}

#[test]
fn named_types_unify_by_path() {
    let ts = empty_state();
    let a = Type::Named(path("Foo"));
    let b = Type::Named(path("Foo"));
    let c = Type::Named(path("Bar"));
    assert!(check_unify(&a, &b, &ts).is_ok());
    assert_eq!(check_unify(&a, &c, &ts).unwrap_err(), ValidateError::TypeMismatch);
}

#[test]
fn named_type_resolves_through_the_table() {
    let ts = TypeState {
        tys: vec![(path("word"), int_ty(32, true))],
        aggregate: Vec::new(),
    };
    let named = Type::Named(path("word"));
    assert!(check_unify(&named, &int_ty(32, true), &ts).is_ok());
    assert_eq!(
        check_unify(&named, &int_ty(16, true), &ts).unwrap_err(),
        ValidateError::TypeMismatch
    );
}

#[test]
fn aggregate_field_names_must_agree() {
    let ts = empty_state();
    let a = agg_ty(vec![("x", int_ty(32, true))]);
    let b = agg_ty(vec![("y", int_ty(32, true))]);
    assert_eq!(check_unify(&a, &b, &ts).unwrap_err(), ValidateError::TypeMismatch);
    let c = agg_ty(vec![("x", int_ty(32, true))]);
    assert!(check_unify(&a, &c, &ts).is_ok());
}

#[test]
fn product_arity_must_agree() {
    let ts = empty_state();
    let a = Type::Product(vec![int_ty(8, false)]);
    let b = Type::Product(vec![int_ty(8, false), int_ty(8, false)]);
    assert_eq!(check_unify(&a, &b, &ts).unwrap_err(), ValidateError::TypeMismatch);
}

#[test]
fn void_does_not_unify_even_with_itself() {
    let ts = empty_state();
    assert_eq!(
        check_unify(&Type::Void, &Type::Void, &ts).unwrap_err(),
        ValidateError::TypeMismatch
    );
}
