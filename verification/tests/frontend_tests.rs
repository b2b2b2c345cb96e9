use lccc::cparse::{
    parse, CParseError, Initializer, Keyword, Punct, StrEncoding, Token,
};
use lccc::sema::{
    convert, typeck_program, Abi, Declaration, Item, Mangling, Safety, SemaError,
    SurfaceBlockItem, SurfaceExpr, SurfaceType, Visibility,
};

fn ident(s: &str) -> Token {
    Token::Identifier(String::from(s))
}

fn kw(k: Keyword) -> Token {
    Token::Keyword(k)
}

fn punct(p: Punct) -> Token {
    Token::Punctuator(p)
}

fn strlit(s: &str) -> Token {
    Token::StringLiteral(StrEncoding::Default, String::from(s))
}

#[test]
fn parse_accepts_a_variable_declaration() {
    // int x;
    let toks = vec![kw(Keyword::Int), ident("x"), punct(Punct::Semicolon)];
    let decls = parse(&toks).unwrap();
    assert_eq!(decls.len(), 1);
    assert_eq!(decls[0].name, "x");
    assert!(decls[0].initializer.is_none());
}

#[test]
fn parse_accepts_a_function_with_a_call() {
    // int main() { puts("hi"); }
    let toks = vec![
        kw(Keyword::Int),
        ident("main"),
        punct(Punct::LParen),
        punct(Punct::RParen),
        punct(Punct::LBrace),
        ident("puts"),
        punct(Punct::LParen),
        strlit("hi"),
        punct(Punct::RParen),
        punct(Punct::Semicolon),
        punct(Punct::RBrace),
    ];
    let decls = parse(&toks).unwrap();
    assert_eq!(decls.len(), 1);
    assert_eq!(decls[0].name, "main");
    match &decls[0].initializer {
        Some(Initializer::Function(stmts)) => assert_eq!(stmts.len(), 1),
        other => panic!("expected a function body, got {:?}", other),
    }
}

#[test]
fn parse_accepts_a_declaration_with_pointer_parameter() {
    // int puts(const char *s);
    let toks = vec![
        kw(Keyword::Int),
        ident("puts"),
        punct(Punct::LParen),
        kw(Keyword::Const),
        kw(Keyword::Char),
        punct(Punct::Star),
        ident("s"),
        punct(Punct::RParen),
        punct(Punct::Semicolon),
    ];
    let decls = parse(&toks).unwrap();
    assert_eq!(decls.len(), 1);
    assert_eq!(decls[0].name, "puts");
}

#[test]
fn parse_rejects_two_base_types() {
    let toks = vec![kw(Keyword::Int), kw(Keyword::Char), ident("x"), punct(Punct::Semicolon)];
    assert_eq!(parse(&toks).unwrap_err(), CParseError::Unexpected);
}

#[test]
fn parse_rejects_an_initializer() {
    let toks = vec![kw(Keyword::Int), ident("x"), punct(Punct::Assign)];
    assert_eq!(parse(&toks).unwrap_err(), CParseError::Unsupported);
}

#[test]
fn parse_rejects_a_trailing_comma_in_a_call() {
    // main() { f(a,); }  -- the comma before ) is refused
    let toks = vec![
        kw(Keyword::Int),
        ident("main"),
        punct(Punct::LParen),
        punct(Punct::RParen),
        punct(Punct::LBrace),
        ident("f"),
        punct(Punct::LParen),
        ident("a"),
        punct(Punct::Comma),
        punct(Punct::RParen),
        punct(Punct::Semicolon),
        punct(Punct::RBrace),
    ];
    assert_eq!(parse(&toks).unwrap_err(), CParseError::Unexpected);
}

#[test]
fn parse_of_empty_input_yields_no_declarations() {
    let toks: Vec<Token> = Vec::new();
    assert_eq!(parse(&toks).unwrap().len(), 0);
}

fn puts_decl() -> Item {
    Item::FnDeclaration {
        visibility: Visibility::Pub,
        safety: Safety::Safe,
        name: String::from("puts"),
        params: vec![lccc::sema::FnParam {
            name: Some(String::from("s")),
            ty: SurfaceType::Pointer {
                mutability: lccc::sema::Mutability::Const,
                underlying: Box::new(SurfaceType::Name(String::from("i8"))),
            },
        }],
        return_ty: Some(SurfaceType::Name(String::from("i32"))),
        block: None,
    }
}

fn main_calling(args: Vec<SurfaceExpr>) -> Item {
    Item::FnDeclaration {
        visibility: Visibility::Pub,
        safety: Safety::Unsafe,
        name: String::from("main"),
        params: Vec::new(),
        return_ty: None,
        block: Some(vec![SurfaceBlockItem::Discard(SurfaceExpr::FunctionCall {
            func: Box::new(SurfaceExpr::Id(String::from("puts"))),
            args,
        })]),
    }
}

#[test]
fn convert_and_typecheck_a_safe_call() {
    let items = vec![
        Item::ExternBlock {
            abi: Some(String::from("C")),
            items: vec![puts_decl()],
        },
        main_calling(vec![SurfaceExpr::Id(String::from("puts"))]),
    ];
    // `main` is unsafe, so it may call the extern function; identifier
    // arguments carry their declared type and are not held to the
    // parameter, matching the checker's documented rule.
    let program = convert(&items).unwrap();
    assert_eq!(program.declarations.len(), 2);
    assert!(typeck_program(&program).is_ok());
}

#[test]
fn typecheck_rejects_wrong_arity() {
    let items = vec![
        Item::ExternBlock {
            abi: Some(String::from("C")),
            items: vec![puts_decl()],
        },
        main_calling(Vec::new()),
    ];
    let program = convert(&items).unwrap();
    assert_eq!(typeck_program(&program).unwrap_err(), SemaError::ArityMismatch);
}

#[test]
fn typecheck_rejects_an_unknown_identifier() {
    let items = vec![Item::FnDeclaration {
        visibility: Visibility::Pub,
        safety: Safety::Safe,
        name: String::from("main"),
        params: Vec::new(),
        return_ty: None,
        block: Some(vec![SurfaceBlockItem::Discard(SurfaceExpr::Id(String::from(
            "missing",
        )))]),
    }];
    let program = convert(&items).unwrap();
    assert_eq!(typeck_program(&program).unwrap_err(), SemaError::Unresolved);
}

#[test]
fn convert_rejects_an_unknown_type_name() {
    let items = vec![Item::FnDeclaration {
        visibility: Visibility::Pub,
        safety: Safety::Safe,
        name: String::from("f"),
        params: Vec::new(),
        return_ty: Some(SurfaceType::Name(String::from("quux"))),
        block: None,
    }];
    // The named-type list ends with `str`, which has no surface name, so an
    // unknown name faults there.
    assert_eq!(convert(&items).unwrap_err(), SemaError::Unsupported);
}

#[test]
fn empty_program_typechecks() {
    let items: Vec<Item> = Vec::new();
    let program = convert(&items).unwrap();
    assert!(typeck_program(&program).is_ok());
}

#[test]
fn typecheck_rejects_an_unsafe_call_from_a_safe_context() {
    let items = vec![
        Item::ExternBlock {
            abi: Some(String::from("C")),
            items: vec![puts_decl()],
        },
        Item::FnDeclaration {
            visibility: Visibility::Pub,
            safety: Safety::Safe,
            name: String::from("caller"),
            params: Vec::new(),
            return_ty: None,
            block: Some(vec![SurfaceBlockItem::Discard(SurfaceExpr::FunctionCall {
                func: Box::new(SurfaceExpr::Id(String::from("puts"))),
                args: Vec::new(),
            })]),
        },
    ];
    let program = convert(&items).unwrap();
    assert_eq!(typeck_program(&program).unwrap_err(), SemaError::SafetyViolation);
}

#[test]
fn typecheck_rejects_a_non_unit_result() {
    // The body's value is the declaration itself, not the unit the
    // signature declares.
    let items = vec![
        Item::ExternBlock {
            abi: Some(String::from("C")),
            items: vec![puts_decl()],
        },
        Item::FnDeclaration {
            visibility: Visibility::Pub,
            safety: Safety::Safe,
            name: String::from("odd"),
            params: Vec::new(),
            return_ty: None,
            block: Some(vec![SurfaceBlockItem::Expr(SurfaceExpr::Id(String::from(
                "puts",
            )))]),
        },
    ];
    let program = convert(&items).unwrap();
    assert_eq!(typeck_program(&program).unwrap_err(), SemaError::TypeMismatch);
}


#[test]
fn extern_block_without_abi_string_defaults_to_c() {
    let items = vec![Item::ExternBlock { abi: None, items: vec![puts_decl()] }];
    let program = convert(&items).unwrap();
    assert_eq!(program.declarations.len(), 1);
    let Declaration::Function { has_definition, sig, .. } = &program.declarations[0];
    assert!(!has_definition);
    assert_eq!(sig.abi, Abi::C);
    assert_eq!(sig.mangling, Mangling::Rust);
    assert_eq!(sig.safety, Safety::Unsafe);
}
