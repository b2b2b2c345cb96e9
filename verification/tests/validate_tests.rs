use lccc::ir::{
    Abi, AggregateDefinition, AggregateKind, AnnotatedElement, BinaryOp, Block, BlockItem, Expr,
    File, FnType, FunctionBody, FunctionDeclaration, LValueOp, MemberDeclaration,
    OverflowBehaviour, Path, PathComponent, PointerAliasingRule, PointerType, ScalarType,
    ScalarTypeHeader, ScalarTypeKind, ScalarValidity, Scope, ScopeMember, StackItem,
    StackValueKind, Type, ValidRange, ValidRangeType, Value, Visibility, AccessClass,
};
use lccc::ir::{BranchCondition, HashSwitch, StaticDefinition, Switch};
use lccc::validate::{
    check_unify, tycheck, tycheck_block, tycheck_expr, TypeState, ValidateError,
};

fn int_scalar(bits: u16, signed: bool) -> ScalarType {
    ScalarType {
        header: ScalarTypeHeader {
            bitsize: bits,
            vectorsize: 0,
            validity: ScalarValidity { nonzero: false, finite: false, nonnan: false },
        },
        kind: ScalarTypeKind::Integer { signed, min: None, max: None },
    }
}

fn int_ty(bits: u16, signed: bool) -> Type {
    Type::Scalar(int_scalar(bits, signed))
}

fn ptr_to(t: Type) -> Type {
    Type::Pointer(PointerType {
        alias: PointerAliasingRule::Empty,
        valid_range: ValidRange { kind: ValidRangeType::Empty, extent: 0 },
        inner: Box::new(t),
    })
}

fn rv(t: Type) -> StackItem {
    StackItem { ty: t, kind: StackValueKind::RValue }
}

fn path(name: &str) -> Path {
    Path { components: vec![PathComponent::Text(String::from(name))] }
}

fn empty_state() -> TypeState {
    TypeState { tys: Vec::new(), aggregate: Vec::new() }
}

fn const_int(bits: u16, signed: bool, val: u128) -> Expr {
    Expr::Const(Value::Integer { ty: int_scalar(bits, signed), val })
}

fn run_exprs(
    exprs: Vec<Expr>,
    locals: &Vec<Type>,
    tys: &TypeState,
) -> Result<Vec<StackItem>, ValidateError> {
    let targets: Vec<(u32, Vec<StackItem>)> = Vec::new();
    let mut exits: Vec<Option<Vec<StackItem>>> = vec![None];
    let mut stack: Vec<StackItem> = Vec::new();
    for e in &exprs {
        match tycheck_expr(e, locals, exits, stack, &targets, tys) {
            Ok((s, ex)) => {
                stack = s;
                exits = ex;
            }
            Err(e) => return Err(e),
        }
    }
    Ok(stack)
}

fn assert_int_item(item: &StackItem, bits: u16, signed: bool, kind: StackValueKind) {
    assert_eq!(item.kind, kind);
    match &item.ty {
        Type::Scalar(sc) => {
            assert_eq!(sc.header.bitsize, bits);
            assert!(matches!(sc.kind, ScalarTypeKind::Integer { signed: s, .. } if s == signed));
        }
        other => panic!("expected a scalar, got {:?}", other),
    }
}

#[test]
fn integer_add_yields_one_int32_rvalue() {
    let locals: Vec<Type> = Vec::new();
    let tys = empty_state();
    let stack = run_exprs(
        vec![
            const_int(32, true, 2),
            const_int(32, true, 3),
            Expr::BinaryOp(BinaryOp::Add, OverflowBehaviour::Unchecked),
        ],
        &locals,
        &tys,
    )
    .unwrap();
    assert_eq!(stack.len(), 1);
    assert_int_item(&stack[0], 32, true, StackValueKind::RValue);
}

#[test]
fn checked_increment_leaves_lvalue_and_flag() {
    let locals: Vec<Type> = vec![int_ty(8, false)];
    let tys = empty_state();
    let stack = run_exprs(
        vec![
            Expr::Local(0),
            Expr::LValueOp(
                LValueOp::PreInc,
                OverflowBehaviour::Checked,
                AccessClass::Normal,
            ),
        ],
        &locals,
        &tys,
    )
    .unwrap();
    assert_eq!(stack.len(), 2);
    assert_int_item(&stack[0], 8, false, StackValueKind::LValue);
    assert_int_item(&stack[1], 1, false, StackValueKind::RValue);
}

fn target_block(first: Expr) -> Block {
    Block {
        items: vec![
            BlockItem::Expr(first),
            BlockItem::Target { num: 0, stack: vec![rv(int_ty(32, true))] },
        ],
    }
}

#[test]
fn branch_target_accepts_fall_through_int32() {
    let locals: Vec<Type> = Vec::new();
    let tys = empty_state();
    let r = tycheck_block(&target_block(const_int(32, true, 7)), &tys, &locals, Vec::new());
    assert!(r.is_ok());
}

#[test]
fn branch_target_accepts_exit_block_path() {
    // The int32 reaches the target out of a nested block's exit.
    let inner = Block {
        items: vec![
            BlockItem::Expr(const_int(32, true, 9)),
            BlockItem::Expr(Expr::ExitBlock { blk: 1, values: 1 }),
        ],
    };
    let outer = target_block(Expr::Block { n: 1, block: inner });
    let locals: Vec<Type> = Vec::new();
    let tys = empty_state();
    let r = tycheck_block(&outer, &tys, &locals, Vec::new());
    assert!(r.is_ok());
}

#[test]
fn branch_target_rejects_int8_merge() {
    let locals: Vec<Type> = Vec::new();
    let tys = empty_state();
    let r = tycheck_block(&target_block(const_int(8, true, 1)), &tys, &locals, Vec::new());
    assert_eq!(r.unwrap_err(), ValidateError::TypeMismatch);
}

fn callee_ptr(params: usize) -> StackItem {
    let callee_ty = FnType {
        ret: int_ty(32, true),
        params: (0..params).map(|_| int_ty(32, true)).collect(),
        tag: Abi::C,
        variadic: false,
    };
    rv(ptr_to(Type::FnType(Box::new(callee_ty))))
}

fn call_site(params: usize) -> Expr {
    Expr::CallFunction(Box::new(FnType {
        ret: int_ty(32, true),
        params: (0..params).map(|_| int_ty(32, true)).collect(),
        tag: Abi::C,
        variadic: false,
    }))
}

fn run_call(n_args: usize) -> Result<Vec<StackItem>, ValidateError> {
    let locals: Vec<Type> = Vec::new();
    let tys = empty_state();
    let targets: Vec<(u32, Vec<StackItem>)> = Vec::new();
    let exits: Vec<Option<Vec<StackItem>>> = vec![None];
    let mut stack: Vec<StackItem> = vec![callee_ptr(2)];
    for _ in 0..n_args {
        stack.push(rv(int_ty(32, true)));
    }
    tycheck_expr(&call_site(n_args), &locals, exits, stack, &targets, &tys).map(|(s, _)| s)
}

#[test]
fn call_with_one_argument_is_rejected() {
    assert_eq!(run_call(1).unwrap_err(), ValidateError::TypeMismatch);
}

#[test]
fn call_with_three_arguments_is_rejected() {
    assert_eq!(run_call(3).unwrap_err(), ValidateError::TypeMismatch);
}

#[test]
fn call_with_two_arguments_returns_declared_type() {
    let stack = run_call(2).unwrap();
    assert_eq!(stack.len(), 1);
    assert_int_item(&stack[0], 32, true, StackValueKind::RValue);
}

#[test]
fn as_rvalue_on_rvalue_is_rejected() {
    let locals: Vec<Type> = Vec::new();
    let tys = empty_state();
    let r = run_exprs(
        vec![const_int(32, true, 1), Expr::AsRValue(AccessClass::Normal)],
        &locals,
        &tys,
    );
    assert_eq!(r.unwrap_err(), ValidateError::KindViolation);
}

#[test]
fn assign_to_rvalue_is_rejected() {
    let locals: Vec<Type> = Vec::new();
    let tys = empty_state();
    let r = run_exprs(
        vec![
            const_int(32, true, 1),
            const_int(32, true, 2),
            Expr::Assign(AccessClass::Normal),
        ],
        &locals,
        &tys,
    );
    assert_eq!(r.unwrap_err(), ValidateError::KindViolation);
}

#[test]
fn addr_of_rvalue_is_rejected() {
    let locals: Vec<Type> = Vec::new();
    let tys = empty_state();
    let r = run_exprs(vec![const_int(32, true, 1), Expr::AddrOf], &locals, &tys);
    assert_eq!(r.unwrap_err(), ValidateError::KindViolation);
}

#[test]
fn addr_of_lvalue_yields_pointer_rvalue() {
    let locals: Vec<Type> = vec![int_ty(32, true)];
    let tys = empty_state();
    let stack = run_exprs(vec![Expr::Local(0), Expr::AddrOf], &locals, &tys).unwrap();
    assert_eq!(stack.len(), 1);
    assert_eq!(stack[0].kind, StackValueKind::RValue);
    assert!(matches!(stack[0].ty, Type::Pointer(_)));
}

#[test]
fn tailcall_is_unsupported() {
    let locals: Vec<Type> = Vec::new();
    let tys = empty_state();
    let r = run_exprs(
        vec![Expr::Tailcall(Box::new(FnType {
            ret: Type::Void,
            params: Vec::new(),
            tag: Abi::C,
            variadic: false,
        }))],
        &locals,
        &tys,
    );
    assert_eq!(r.unwrap_err(), ValidateError::Unsupported);
}

#[test]
fn pop_past_bottom_is_malformed() {
    let locals: Vec<Type> = Vec::new();
    let tys = empty_state();
    let r = run_exprs(vec![Expr::Pop(5)], &locals, &tys);
    assert_eq!(r.unwrap_err(), ValidateError::Malformed);
}

#[test]
fn cyclic_named_type_hits_the_recursion_budget() {
    let p = path("a");
    let tys = TypeState {
        tys: vec![(
            Path { components: p.components.clone() },
            ptr_to(Type::Named(Path { components: p.components.clone() })),
        )],
        aggregate: Vec::new(),
    };
    let t1 = Type::Named(Path { components: p.components.clone() });
    let t2 = Type::Named(Path { components: p.components.clone() });
    assert_eq!(check_unify(&t1, &t2, &tys).unwrap_err(), ValidateError::RecursionLimit);
}

fn member(name: &str, decl: MemberDeclaration) -> (Path, ScopeMember) {
    (
        path(name),
        ScopeMember {
            annotations: AnnotatedElement { annotations: Vec::new() },
            vis: Visibility::Public,
            member_decl: decl,
        },
    )
}

fn file_of(members: Vec<(Path, ScopeMember)>) -> File {
    File {
        target: String::from("x86_64-unknown-linux-gnu"),
        root: Scope {
            annotations: AnnotatedElement { annotations: Vec::new() },
            members,
        },
    }
}

#[test]
fn unresolved_named_signature_aborts_pass_one() {
    // The function body is itself broken; the unresolved name must win,
    // showing that no body was checked.
    let f = file_of(vec![member(
        "f",
        MemberDeclaration::Function(FunctionDeclaration {
            ty: FnType {
                ret: Type::Named(path("Foo")),
                params: Vec::new(),
                tag: Abi::C,
                variadic: false,
            },
            body: Some(FunctionBody {
                locals: Vec::new(),
                block: Block { items: vec![BlockItem::Expr(Expr::Pop(9))] },
            }),
        }),
    )]);
    assert_eq!(tycheck(&f).unwrap_err(), ValidateError::Unresolved);
}

#[test]
fn whole_file_with_add_function_validates() {
    let f = file_of(vec![member(
        "add_two",
        MemberDeclaration::Function(FunctionDeclaration {
            ty: FnType {
                ret: int_ty(32, true),
                params: Vec::new(),
                tag: Abi::C,
                variadic: false,
            },
            body: Some(FunctionBody {
                locals: Vec::new(),
                block: Block {
                    items: vec![
                        BlockItem::Expr(const_int(32, true, 2)),
                        BlockItem::Expr(const_int(32, true, 3)),
                        BlockItem::Expr(Expr::BinaryOp(
                            BinaryOp::Add,
                            OverflowBehaviour::Unchecked,
                        )),
                        BlockItem::Expr(Expr::ExitBlock { blk: 0, values: 1 }),
                    ],
                },
            }),
        }),
    )]);
    assert!(tycheck(&f).is_ok());
}

#[test]
fn void_function_with_leftover_stack_is_rejected() {
    let f = file_of(vec![member(
        "leftover",
        MemberDeclaration::Function(FunctionDeclaration {
            ty: FnType { ret: Type::Void, params: Vec::new(), tag: Abi::C, variadic: false },
            body: Some(FunctionBody {
                locals: Vec::new(),
                block: Block {
                    items: vec![
                        BlockItem::Expr(const_int(32, true, 1)),
                        BlockItem::Expr(Expr::ExitBlock { blk: 0, values: 1 }),
                    ],
                },
            }),
        }),
    )]);
    assert_eq!(tycheck(&f).unwrap_err(), ValidateError::StackMismatch);
}

#[test]
fn member_access_finds_aggregate_field() {
    let agg = AggregateDefinition {
        annotations: AnnotatedElement { annotations: Vec::new() },
        kind: AggregateKind::Struct,
        fields: vec![(String::from("x"), int_ty(32, true))],
    };
    let tys = TypeState {
        tys: Vec::new(),
        aggregate: vec![(path("S"), Some(agg))],
    };
    let got = tys.get_field_type(&Type::Named(path("S")), "x");
    match got {
        Some(Type::Scalar(sc)) => assert_eq!(sc.header.bitsize, 32),
        other => panic!("expected the int32 field, got {:?}", other),
    }
    assert!(tys.get_field_type(&Type::Named(path("S")), "y").is_none());
}

#[test]
fn product_field_is_indexed_by_decimal_name() {
    let tys = empty_state();
    let prod = Type::Product(vec![int_ty(8, false), int_ty(16, false), int_ty(32, false)]);
    match tys.get_field_type(&prod, "2") {
        Some(Type::Scalar(sc)) => assert_eq!(sc.header.bitsize, 32),
        other => panic!("expected the third element, got {:?}", other),
    }
    assert!(tys.get_field_type(&prod, "3").is_none());
    assert!(tys.get_field_type(&prod, "two").is_none());
}

#[test]
fn switch_checks_every_case_against_one_shape() {
    let locals: Vec<Type> = Vec::new();
    let tys = empty_state();
    let block = Block {
        items: vec![
            BlockItem::Expr(const_int(32, true, 1)),
            BlockItem::Expr(const_int(32, true, 0)),
            BlockItem::Expr(Expr::Switch(Switch::Hash(HashSwitch {
                cases: vec![
                    (Value::Integer { ty: int_scalar(32, true), val: 0 }, 0),
                    (Value::Integer { ty: int_scalar(32, true), val: 1 }, 0),
                ],
            }))),
            BlockItem::Target { num: 0, stack: vec![rv(int_ty(32, true))] },
        ],
    };
    assert!(tycheck_block(&block, &tys, &locals, Vec::new()).is_ok());
}

#[test]
fn switch_on_a_pointer_is_rejected() {
    let locals: Vec<Type> = Vec::new();
    let tys = empty_state();
    let r = run_exprs(
        vec![
            Expr::Const(Value::ByteString { content: vec![104, 105] }),
            Expr::Switch(Switch::Hash(HashSwitch { cases: Vec::new() })),
        ],
        &locals,
        &tys,
    );
    assert_eq!(r.unwrap_err(), ValidateError::TypeMismatch);
}

#[test]
fn second_exit_with_wrong_count_is_a_stack_mismatch() {
    let inner = Block {
        items: vec![
            BlockItem::Expr(const_int(32, true, 1)),
            BlockItem::Expr(Expr::ExitBlock { blk: 1, values: 1 }),
            BlockItem::Expr(const_int(32, true, 2)),
            BlockItem::Expr(const_int(32, true, 3)),
            BlockItem::Expr(Expr::ExitBlock { blk: 1, values: 2 }),
        ],
    };
    let outer = Block { items: vec![BlockItem::Expr(Expr::Block { n: 1, block: inner })] };
    let locals: Vec<Type> = Vec::new();
    let tys = empty_state();
    let r = tycheck_block(&outer, &tys, &locals, Vec::new());
    assert_eq!(r.unwrap_err(), ValidateError::StackMismatch);
}

#[test]
fn dup_and_pivot_shuffle_the_top_of_the_stack() {
    let locals: Vec<Type> = Vec::new();
    let tys = empty_state();
    // 8-bit, then 16-bit; duplicate the top one; rotate the top one below
    // the pair of copies.
    let stack = run_exprs(
        vec![
            const_int(8, true, 1),
            const_int(16, true, 2),
            Expr::Dup(1),
            Expr::Pivot(1, 2),
        ],
        &locals,
        &tys,
    )
    .unwrap();
    assert_eq!(stack.len(), 3);
    assert_int_item(&stack[0], 16, true, StackValueKind::RValue);
    assert_int_item(&stack[1], 16, true, StackValueKind::RValue);
    assert_int_item(&stack[2], 8, true, StackValueKind::RValue);
}

#[test]
fn indirect_and_addr_of_are_type_inverses() {
    let locals: Vec<Type> = vec![int_ty(32, true)];
    let tys = empty_state();
    // Take the local's address, decay it, and dereference it again.
    let stack = run_exprs(
        vec![Expr::Local(0), Expr::AddrOf, Expr::Indirect],
        &locals,
        &tys,
    )
    .unwrap();
    assert_eq!(stack.len(), 1);
    assert_int_item(&stack[0], 32, true, StackValueKind::LValue);
}

#[test]
fn branch_pops_an_integer_condition_and_checks_the_target() {
    let locals: Vec<Type> = Vec::new();
    let tys = empty_state();
    let block = Block {
        items: vec![
            BlockItem::Expr(const_int(32, true, 5)),
            BlockItem::Expr(const_int(1, false, 1)),
            BlockItem::Expr(Expr::Branch { cond: BranchCondition::Equal, target: 0 }),
            BlockItem::Target { num: 0, stack: vec![rv(int_ty(32, true))] },
        ],
    };
    assert!(tycheck_block(&block, &tys, &locals, Vec::new()).is_ok());
}

#[test]
fn branch_to_a_missing_label_is_unresolved() {
    let locals: Vec<Type> = Vec::new();
    let tys = empty_state();
    let r = run_exprs(
        vec![Expr::Branch { cond: BranchCondition::Always, target: 9 }],
        &locals,
        &tys,
    );
    assert_eq!(r.unwrap_err(), ValidateError::Unresolved);
}

#[test]
fn global_address_takes_its_type_from_the_table() {
    let tys = TypeState {
        tys: vec![(path("g"), int_ty(64, false))],
        aggregate: Vec::new(),
    };
    let locals: Vec<Type> = Vec::new();
    let stack = run_exprs(
        vec![Expr::Const(Value::GlobalAddress { ty: Type::Null, item: path("g") })],
        &locals,
        &tys,
    )
    .unwrap();
    assert_eq!(stack.len(), 1);
    match &stack[0].ty {
        Type::Pointer(p) => match p.inner.as_ref() {
            Type::Scalar(sc) => assert_eq!(sc.header.bitsize, 64),
            other => panic!("expected the table type, got {:?}", other),
        },
        other => panic!("expected a pointer, got {:?}", other),
    }
}

#[test]
fn exit_block_records_exactly_the_declared_count() {
    let locals: Vec<Type> = Vec::new();
    let tys = empty_state();
    let targets: Vec<(u32, Vec<StackItem>)> = Vec::new();
    let exits: Vec<Option<Vec<StackItem>>> = vec![None];
    let stack = vec![rv(int_ty(8, true)), rv(int_ty(32, true))];
    let (stack, exits) = tycheck_expr(
        &Expr::ExitBlock { blk: 0, values: 1 },
        &locals,
        exits,
        stack,
        &targets,
        &tys,
    )
    .unwrap();
    assert_eq!(stack.len(), 1);
    match &exits[0] {
        Some(recorded) => assert_eq!(recorded.len(), 1),
        None => panic!("the exit must have recorded its stack"),
    }
}

#[test]
fn static_members_are_not_yet_supported() {
    let f = file_of(vec![member(
        "counter",
        MemberDeclaration::Static(StaticDefinition {
            ty: int_ty(32, true),
            init: Value::Integer { ty: int_scalar(32, true), val: 0 },
        }),
    )]);
    assert_eq!(tycheck(&f).unwrap_err(), ValidateError::Unsupported);
}
