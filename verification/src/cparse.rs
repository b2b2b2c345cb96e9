//! A recursive-descent parser for a small C subset: declarations, function
//! declarators, code blocks, and call expressions.
//!
//! The grammar is modelled by a position-level acceptor (`spec_*` functions
//! returning the position after each construct, or the fault); every parsing
//! function returns exactly the acceptance, position, and fault the model
//! gives, and structural facts about the tree it builds.  A recursion budget
//! bounds the nesting a parse may explore; exhausting it is its own fault.

use vstd::prelude::*;

verus! {

/// The faults the parser reports.
#[derive(Clone, Copy, Debug, PartialEq, Eq, Structural)]
pub enum CParseError {
    /// The tokens do not follow the grammar.
    Unexpected,
    /// A construct the parser does not handle yet.
    Unsupported,
    /// The parse nested past the supported depth.
    RecursionLimit,
}

/// A keyword of the supported subset.
#[derive(Clone, Copy, Debug, Hash, PartialEq, Eq, Structural)]
pub enum Keyword {
    Char,
    Const,
    Int,
    Restrict,
}

/// A punctuator of the supported subset.
#[derive(Clone, Copy, Debug, Hash, PartialEq, Eq, Structural)]
pub enum Punct {
    Semicolon,
    Comma,
    LParen,
    RParen,
    LBrace,
    RBrace,
    Star,
    Assign,
}

/// The encoding prefix of a C string literal.
#[derive(Clone, Copy, Debug, Hash, PartialEq, Eq, Structural)]
pub enum StrEncoding {
    Default,
    Wide,
}

/// One token of the C subset.
#[derive(Debug)]
pub enum Token {
    Identifier(String),
    Keyword(Keyword),
    Punctuator(Punct),
    StringLiteral(StrEncoding, String),
}

/// A primitive type name.
#[derive(Clone, Copy, Debug, Hash, PartialEq, Eq, Structural)]
pub enum PrimitiveType {
    Char,
    Int,
}

/// The base of a declared type: a function declarator or a primitive.
#[derive(Debug)]
pub enum BaseType {
    Function { ret: Box<Type>, params: Vec<(FullType, Option<String>)> },
    Primitive(PrimitiveType),
}

/// A declared type: its base and constness.
#[derive(Debug)]
pub struct Type {
    pub base: BaseType,
    pub constant: bool,
}

/// A pointer declarator: constness, restrict, and the pointer it wraps.
#[derive(Debug, PartialEq, Eq)]
pub struct Pointer {
    pub constant: bool,
    pub restrict: bool,
    pub sub_ptr: Option<Box<Pointer>>,
}

/// A full type: the inner declared type plus an optional pointer chain.
#[derive(Debug)]
pub struct FullType {
    pub inner: Type,
    pub pointer: Option<Pointer>,
}

/// An expression of the subset; the type slot is filled by later analysis.
#[derive(Debug)]
pub enum Expression {
    FunctionCall { callee: Box<Expression>, args: Vec<Expression>, ty: Option<FullType> },
    Identifier { id: String, ty: Option<FullType> },
    String { str: String, ty: Option<FullType> },
}

/// Whether a borrowed slot result exposes exactly the stored slot.
pub open spec fn slot_matches(r: Option<&FullType>, slot: Option<FullType>) -> bool {
    match (r, slot) {
        (Option::Some(a), Option::Some(b)) => *a == b,
        (Option::None, Option::None) => true,
        _ => false,
    }
}

impl Expression {
    /// The stored analysis type of this expression.
    pub open spec fn spec_ty_slot(&self) -> Option<FullType> {
        match self {
            Expression::FunctionCall { ty, .. } => *ty,
            Expression::Identifier { ty, .. } => *ty,
            Expression::String { ty, .. } => *ty,
        }
    }

    /// The analysed type of this expression, if analysis has filled it.
    pub fn get_type(&self) -> (r: Option<&FullType>)
        ensures
            slot_matches(r, self.spec_ty_slot()),
    {
        match self {
            Expression::FunctionCall { ty, .. } => match ty {
                Option::Some(t) => Option::Some(t),
                Option::None => Option::None,
            },
            Expression::Identifier { ty, .. } => match ty {
                Option::Some(t) => Option::Some(t),
                Option::None => Option::None,
            },
            Expression::String { ty, .. } => match ty {
                Option::Some(t) => Option::Some(t),
                Option::None => Option::None,
            },
        }
    }
}

/// A statement of the subset.
#[derive(Debug)]
pub enum Statement {
    Expression(Expression),
}

/// The initializer of a declaration: an expression or a function body.
#[derive(Debug)]
pub enum Initializer {
    Expression(Expression),
    Function(Vec<Statement>),
}

/// One parsed declaration.
#[derive(Debug)]
pub struct Declaration {
    pub ty: Type,
    pub pointer: Option<Pointer>,
    pub name: String,
    pub initializer: Option<Initializer>,
}

// ---------------------------------------------------------------------------
// The grammar's position-level model
// ---------------------------------------------------------------------------

pub open spec fn tok_is_kw(toks: Seq<Token>, i: int, k: Keyword) -> bool {
    &&& 0 <= i < toks.len()
    &&& toks[i] matches Token::Keyword(k2) && k2 == k
}

pub open spec fn tok_is_punct(toks: Seq<Token>, i: int, p: Punct) -> bool {
    &&& 0 <= i < toks.len()
    &&& toks[i] matches Token::Punctuator(p2) && p2 == p
}

pub open spec fn tok_is_ident(toks: Seq<Token>, i: int) -> bool {
    0 <= i < toks.len() && toks[i] is Identifier
}

pub open spec fn tok_is_string(toks: Seq<Token>, i: int) -> bool {
    0 <= i < toks.len() && toks[i] is StringLiteral
}

/// An identifier: one identifier token.
pub open spec fn spec_identifier(toks: Seq<Token>, i: int) -> Result<int, CParseError> {
    if tok_is_ident(toks, i) {
        Result::Ok(i + 1)
    } else {
        Result::Err(CParseError::Unexpected)
    }
}

/// A type: a run of `char`, `int`, and `const` keywords; a second base
/// keyword is a fault; an identifier before any base is unsupported; a
/// punctuator, or an identifier after a base, ends the run; any other
/// keyword is a fault.  The accumulated state is whether a base was seen.
pub open spec fn spec_type_run(toks: Seq<Token>, i: int, has_base: bool) -> Result<
    int,
    CParseError,
>
    decreases toks.len() - i,
{
    if i < 0 || i >= toks.len() {
        Result::Ok(i)
    } else {
        match toks[i] {
            Token::Keyword(Keyword::Char) => if has_base {
                Result::Err(CParseError::Unexpected)
            } else {
                spec_type_run(toks, i + 1, true)
            },
            Token::Keyword(Keyword::Int) => if has_base {
                Result::Err(CParseError::Unexpected)
            } else {
                spec_type_run(toks, i + 1, true)
            },
            Token::Keyword(Keyword::Const) => spec_type_run(toks, i + 1, has_base),
            Token::Keyword(_) => Result::Err(CParseError::Unexpected),
            Token::Punctuator(_) => Result::Ok(i),
            Token::Identifier(_) => if has_base {
                Result::Ok(i)
            } else {
                Result::Err(CParseError::Unsupported)
            },
            Token::StringLiteral(_, _) => Result::Err(CParseError::Unexpected),
        }
    }
}

pub open spec fn spec_type(toks: Seq<Token>, i: int) -> Result<int, CParseError> {
    spec_type_run(toks, i, false)
}

/// A primary expression: an identifier or a string literal.
pub open spec fn spec_primary(toks: Seq<Token>, i: int) -> Result<int, CParseError> {
    if tok_is_ident(toks, i) || tok_is_string(toks, i) {
        Result::Ok(i + 1)
    } else {
        Result::Err(CParseError::Unexpected)
    }
}

/// The tail of an expression: call argument lists, each opened by `(` and
/// closed by `)`; a semicolon, comma, or closing parenthesis ends the
/// expression; anything else is a fault.
pub open spec fn spec_expr_tail(toks: Seq<Token>, i: int, fuel: nat) -> Result<
    int,
    CParseError,
>
    decreases fuel, 0nat,
{
    if fuel == 0 {
        Result::Err(CParseError::RecursionLimit)
    } else if i < 0 || i >= toks.len() {
        Result::Ok(i)
    } else {
        match toks[i] {
            Token::Punctuator(Punct::Semicolon) => Result::Ok(i),
            Token::Punctuator(Punct::Comma) => Result::Ok(i),
            Token::Punctuator(Punct::RParen) => Result::Ok(i),
            Token::Punctuator(Punct::LParen) => match spec_args(
                toks,
                i + 1,
                false,
                false,
                (fuel - 1) as nat,
            ) {
                Result::Ok(j) => spec_expr_tail(toks, j, (fuel - 1) as nat),
                Result::Err(e) => Result::Err(e),
            },
            Token::Punctuator(_) => Result::Err(CParseError::Unexpected),
            _ => Result::Err(CParseError::Unexpected),
        }
    }
}

/// A call argument list after its opening parenthesis: expressions with
/// comma separators, closed by `)`; a trailing comma before `)` is a fault.
pub open spec fn spec_args(
    toks: Seq<Token>,
    i: int,
    comma_expected: bool,
    trailing_comma: bool,
    fuel: nat,
) -> Result<int, CParseError>
    decreases fuel, 1nat,
{
    if fuel == 0 {
        Result::Err(CParseError::RecursionLimit)
    } else if i < 0 || i >= toks.len() {
        Result::Err(CParseError::Unexpected)
    } else if tok_is_punct(toks, i, Punct::RParen) {
        if trailing_comma {
            Result::Err(CParseError::Unexpected)
        } else {
            Result::Ok(i + 1)
        }
    } else if comma_expected {
        if tok_is_punct(toks, i, Punct::Comma) {
            spec_args(toks, i + 1, false, true, (fuel - 1) as nat)
        } else {
            Result::Err(CParseError::Unexpected)
        }
    } else {
        match spec_expression(toks, i, (fuel - 1) as nat) {
            Result::Ok(j) => spec_args(toks, j, true, false, (fuel - 1) as nat),
            Result::Err(e) => Result::Err(e),
        }
    }
}

/// An expression: a primary expression followed by its tail.
pub open spec fn spec_expression(toks: Seq<Token>, i: int, fuel: nat) -> Result<
    int,
    CParseError,
>
    decreases fuel, 2nat,
{
    if fuel == 0 {
        Result::Err(CParseError::RecursionLimit)
    } else {
        match spec_primary(toks, i) {
            Result::Ok(j) => spec_expr_tail(toks, j, (fuel - 1) as nat),
            Result::Err(e) => Result::Err(e),
        }
    }
}

/// A statement: an expression closed by a semicolon.
pub open spec fn spec_statement(toks: Seq<Token>, i: int, fuel: nat) -> Result<
    int,
    CParseError,
>
    decreases fuel, 3nat,
{
    if fuel == 0 {
        Result::Err(CParseError::RecursionLimit)
    } else {
        match spec_expression(toks, i, (fuel - 1) as nat) {
            Result::Ok(j) => if tok_is_punct(toks, j, Punct::Semicolon) {
                Result::Ok(j + 1)
            } else {
                Result::Err(CParseError::Unexpected)
            },
            Result::Err(e) => Result::Err(e),
        }
    }
}

/// A code block body: statements up to the closing brace, which is
/// consumed.
pub open spec fn spec_code_block(toks: Seq<Token>, i: int, fuel: nat) -> Result<
    int,
    CParseError,
>
    decreases fuel, 4nat,
{
    if fuel == 0 {
        Result::Err(CParseError::RecursionLimit)
    } else if i < 0 || i >= toks.len() {
        Result::Err(CParseError::Unexpected)
    } else if tok_is_punct(toks, i, Punct::RBrace) {
        Result::Ok(i + 1)
    } else {
        match spec_statement(toks, i, (fuel - 1) as nat) {
            Result::Ok(j) => spec_code_block(toks, j, (fuel - 1) as nat),
            Result::Err(e) => Result::Err(e),
        }
    }
}

/// The pointer declarators of one parameter: stars, each followed by
/// `const` and `restrict` qualifiers.
pub open spec fn spec_param_pointers(toks: Seq<Token>, i: int, fuel: nat) -> int
    decreases fuel,
{
    if fuel == 0 {
        i
    } else if tok_is_punct(toks, i, Punct::Star) {
        spec_param_pointers(toks, spec_param_quals(toks, i + 1), (fuel - 1) as nat)
    } else {
        i
    }
}

pub open spec fn spec_param_quals(toks: Seq<Token>, i: int) -> int
    decreases toks.len() - i,
{
    if i < 0 || i >= toks.len() {
        i
    } else if tok_is_kw(toks, i, Keyword::Const) || tok_is_kw(toks, i, Keyword::Restrict) {
        spec_param_quals(toks, i + 1)
    } else {
        i
    }
}

/// A parameter list after its opening parenthesis: parameters (a type,
/// pointers, and an optional name) up to the closing parenthesis, which is
/// consumed.
pub open spec fn spec_params(toks: Seq<Token>, i: int, fuel: nat) -> Result<int, CParseError>
    decreases fuel,
{
    if fuel == 0 {
        Result::Err(CParseError::RecursionLimit)
    } else if i < 0 || i >= toks.len() {
        Result::Err(CParseError::Unexpected)
    } else if tok_is_punct(toks, i, Punct::RParen) {
        Result::Ok(i + 1)
    } else {
        match spec_type(toks, i) {
            Result::Ok(j) => {
                let k = spec_param_pointers(toks, j, fuel);
                let m = if tok_is_ident(toks, k) {
                    k + 1
                } else {
                    k
                };
                spec_params(toks, m, (fuel - 1) as nat)
            }
            Result::Err(e) => Result::Err(e),
        }
    }
}

/// One declaration: a type, a name, and then a semicolon, an initializer
/// (unsupported), or a function declarator with parameters and an optional
/// body.
pub open spec fn spec_declaration(toks: Seq<Token>, i: int, fuel: nat) -> Result<
    int,
    CParseError,
>
    decreases fuel, 5nat,
{
    if fuel == 0 {
        Result::Err(CParseError::RecursionLimit)
    } else {
        match spec_type(toks, i) {
            Result::Ok(j) => match spec_identifier(toks, j) {
                Result::Ok(k) => {
                    if tok_is_punct(toks, k, Punct::Semicolon) {
                        Result::Ok(k + 1)
                    } else if tok_is_punct(toks, k, Punct::Assign) {
                        Result::Err(CParseError::Unsupported)
                    } else if tok_is_punct(toks, k, Punct::LParen) {
                        match spec_params(toks, k + 1, (fuel - 1) as nat) {
                            Result::Ok(m) => {
                                if tok_is_punct(toks, m, Punct::LBrace) {
                                    spec_code_block(toks, m + 1, (fuel - 1) as nat)
                                } else if tok_is_punct(toks, m, Punct::Semicolon) {
                                    Result::Ok(m + 1)
                                } else {
                                    Result::Err(CParseError::Unexpected)
                                }
                            }
                            Result::Err(e) => Result::Err(e),
                        }
                    } else if 0 <= k < toks.len() && toks[k] is Punctuator {
                        Result::Err(CParseError::Unexpected)
                    } else {
                        Result::Err(CParseError::Unsupported)
                    }
                }
                Result::Err(e) => Result::Err(e),
            },
            Result::Err(e) => Result::Err(e),
        }
    }
}

/// The name a declaration starting at `i` declares: the identifier token
/// after its type run.
pub open spec fn spec_decl_name(toks: Seq<Token>, i: int) -> Seq<char> {
    match spec_type(toks, i) {
        Result::Ok(j) => if tok_is_ident(toks, j) {
            toks[j]->Identifier_0@
        } else {
            Seq::empty()
        },
        Result::Err(_) => Seq::empty(),
    }
}

/// A whole input: declarations until the tokens run out.  The result
/// carries the end position and the declared names, in source order.
pub open spec fn spec_parse(toks: Seq<Token>, i: int, fuel: nat) -> Result<
    (int, Seq<Seq<char>>),
    CParseError,
>
    decreases fuel, 6nat,
{
    if i < 0 || i >= toks.len() {
        Result::Ok((i, Seq::empty()))
    } else if fuel == 0 {
        Result::Err(CParseError::RecursionLimit)
    } else {
        match spec_declaration(toks, i, (fuel - 1) as nat) {
            Result::Ok(j) => match spec_parse(toks, j, (fuel - 1) as nat) {
                Result::Ok((m, names)) => Result::Ok(
                    (m, seq![spec_decl_name(toks, i)] + names),
                ),
                Result::Err(e) => Result::Err(e),
            },
            Result::Err(e) => Result::Err(e),
        }
    }
}

// ---------------------------------------------------------------------------
// The parser
// ---------------------------------------------------------------------------

/// Whether a parsing result's acceptance, end position, and fault agree
/// with the model.
pub open spec fn status_matches<T>(
    r: Result<(T, usize), CParseError>,
    m: Result<int, CParseError>,
) -> bool {
    match (r, m) {
        (Result::Ok((_, j)), Result::Ok(j2)) => j as int == j2,
        (Result::Err(a), Result::Err(b)) => a == b,
        _ => false,
    }
}

fn parse_identifier(tokens: &Vec<Token>, pos: usize) -> (r: Result<(String, usize), CParseError>)
    ensures
        status_matches(r, spec_identifier(tokens@, pos as int)),
        r matches Result::Ok((s, _)) ==> tok_is_ident(tokens@, pos as int)
            && s@ == tokens@[pos as int]->Identifier_0@,
{
    if pos < tokens.len() {
        match &tokens[pos] {
            Token::Identifier(id) => Result::Ok((id.clone(), pos + 1)),
            _ => Result::Err(CParseError::Unexpected),
        }
    } else {
        Result::Err(CParseError::Unexpected)
    }
}

#[verifier::loop_isolation(false)]
fn parse_type(tokens: &Vec<Token>, pos: usize) -> (r: Result<(Type, usize), CParseError>)
    ensures
        status_matches(r, spec_type(tokens@, pos as int)),
        r matches Result::Ok((t, _)) ==> t.base is Primitive,
{
    if pos >= tokens.len() {
        return Result::Ok(
            (Type { base: BaseType::Primitive(PrimitiveType::Int), constant: false }, pos),
        );
    }
    let mut base: Option<PrimitiveType> = Option::None;
    let mut constant: bool = false;
    let mut i: usize = pos;
    while i < tokens.len()
        invariant
            pos <= i <= tokens.len(),
            spec_type(tokens@, pos as int) == spec_type_run(tokens@, i as int, base is Some),
        decreases tokens.len() - i,
    {
        match &tokens[i] {
            Token::Keyword(Keyword::Char) => {
                if base.is_some() {
                    return Result::Err(CParseError::Unexpected);
                }
                base = Option::Some(PrimitiveType::Char);
                i += 1;
            }
            Token::Keyword(Keyword::Int) => {
                if base.is_some() {
                    return Result::Err(CParseError::Unexpected);
                }
                base = Option::Some(PrimitiveType::Int);
                i += 1;
            }
            Token::Keyword(Keyword::Const) => {
                constant = true;
                i += 1;
            }
            Token::Keyword(_) => {
                return Result::Err(CParseError::Unexpected);
            }
            Token::Punctuator(_) => {
                let prim: PrimitiveType = match base {
                    Option::Some(p) => p,
                    Option::None => PrimitiveType::Int,
                };
                return Result::Ok((Type { base: BaseType::Primitive(prim), constant }, i));
            }
            Token::Identifier(_) => {
                if base.is_some() {
                    let prim: PrimitiveType = match base {
                        Option::Some(p) => p,
                        Option::None => PrimitiveType::Int,
                    };
                    return Result::Ok(
                        (Type { base: BaseType::Primitive(prim), constant }, i),
                    );
                }
                return Result::Err(CParseError::Unsupported);
            }
            Token::StringLiteral(_, _) => {
                return Result::Err(CParseError::Unexpected);
            }
        }
    }
    let prim: PrimitiveType = match base {
        Option::Some(p) => p,
        Option::None => PrimitiveType::Int,
    };
    Result::Ok((Type { base: BaseType::Primitive(prim), constant }, i))
}

fn parse_primary_expression(tokens: &Vec<Token>, pos: usize) -> (r: Result<
    (Expression, usize),
    CParseError,
>)
    ensures
        status_matches(r, spec_primary(tokens@, pos as int)),
        r matches Result::Ok((e, _)) ==> e.spec_ty_slot() is None,
{
    if pos < tokens.len() {
        match &tokens[pos] {
            Token::Identifier(id) => Result::Ok(
                (Expression::Identifier { id: id.clone(), ty: Option::None }, pos + 1),
            ),
            Token::StringLiteral(_, s) => Result::Ok(
                (Expression::String { str: s.clone(), ty: Option::None }, pos + 1),
            ),
            _ => Result::Err(CParseError::Unexpected),
        }
    } else {
        Result::Err(CParseError::Unexpected)
    }
}

fn parse_expr_tail(
    tokens: &Vec<Token>,
    lhs: Expression,
    pos: usize,
    fuel: usize,
) -> (r: Result<(Expression, usize), CParseError>)
    ensures
        status_matches(r, spec_expr_tail(tokens@, pos as int, fuel as nat)),
    decreases fuel, 0nat,
{
    if fuel == 0 {
        return Result::Err(CParseError::RecursionLimit);
    }
    if pos >= tokens.len() {
        return Result::Ok((lhs, pos));
    }
    match &tokens[pos] {
        Token::Punctuator(Punct::Semicolon) => Result::Ok((lhs, pos)),
        Token::Punctuator(Punct::Comma) => Result::Ok((lhs, pos)),
        Token::Punctuator(Punct::RParen) => Result::Ok((lhs, pos)),
        Token::Punctuator(Punct::LParen) => {
            match parse_args(tokens, pos + 1, false, false, Vec::new(), fuel - 1) {
                Result::Ok((args, j)) => {
                    let call = Expression::FunctionCall {
                        callee: Box::new(lhs),
                        args,
                        ty: Option::None,
                    };
                    parse_expr_tail(tokens, call, j, fuel - 1)
                }
                Result::Err(e) => Result::Err(e),
            }
        }
        Token::Punctuator(_) => Result::Err(CParseError::Unexpected),
        _ => Result::Err(CParseError::Unexpected),
    }
}

fn parse_args(
    tokens: &Vec<Token>,
    pos: usize,
    comma_expected: bool,
    trailing_comma: bool,
    args: Vec<Expression>,
    fuel: usize,
) -> (r: Result<(Vec<Expression>, usize), CParseError>)
    ensures
        status_matches(
            r,
            spec_args(tokens@, pos as int, comma_expected, trailing_comma, fuel as nat),
        ),
    decreases fuel, 1nat,
{
    if fuel == 0 {
        return Result::Err(CParseError::RecursionLimit);
    }
    if pos >= tokens.len() {
        return Result::Err(CParseError::Unexpected);
    }
    let mut args = args;
    let is_rparen: bool = match &tokens[pos] {
        Token::Punctuator(Punct::RParen) => true,
        _ => false,
    };
    if is_rparen {
        if trailing_comma {
            return Result::Err(CParseError::Unexpected);
        }
        return Result::Ok((args, pos + 1));
    }
    if comma_expected {
        let is_comma: bool = match &tokens[pos] {
            Token::Punctuator(Punct::Comma) => true,
            _ => false,
        };
        if is_comma {
            return parse_args(tokens, pos + 1, false, true, args, fuel - 1);
        }
        return Result::Err(CParseError::Unexpected);
    }
    match parse_expression(tokens, pos, fuel - 1) {
        Result::Ok((e, j)) => {
            args.push(e);
            parse_args(tokens, j, true, false, args, fuel - 1)
        }
        Result::Err(e) => Result::Err(e),
    }
}

fn parse_expression(tokens: &Vec<Token>, pos: usize, fuel: usize) -> (r: Result<
    (Expression, usize),
    CParseError,
>)
    ensures
        status_matches(r, spec_expression(tokens@, pos as int, fuel as nat)),
    decreases fuel, 2nat,
{
    if fuel == 0 {
        return Result::Err(CParseError::RecursionLimit);
    }
    match parse_primary_expression(tokens, pos) {
        Result::Ok((lhs, j)) => parse_expr_tail(tokens, lhs, j, fuel - 1),
        Result::Err(e) => Result::Err(e),
    }
}

fn parse_statement(tokens: &Vec<Token>, pos: usize, fuel: usize) -> (r: Result<
    (Statement, usize),
    CParseError,
>)
    ensures
        status_matches(r, spec_statement(tokens@, pos as int, fuel as nat)),
    decreases fuel, 3nat,
{
    if fuel == 0 {
        return Result::Err(CParseError::RecursionLimit);
    }
    match parse_expression(tokens, pos, fuel - 1) {
        Result::Ok((e, j)) => {
            if j < tokens.len() {
                let is_semi: bool = match &tokens[j] {
                    Token::Punctuator(Punct::Semicolon) => true,
                    _ => false,
                };
                if is_semi {
                    return Result::Ok((Statement::Expression(e), j + 1));
                }
            }
            Result::Err(CParseError::Unexpected)
        }
        Result::Err(e) => Result::Err(e),
    }
}

fn parse_code_block(tokens: &Vec<Token>, pos: usize, fuel: usize) -> (r: Result<
    (Vec<Statement>, usize),
    CParseError,
>)
    ensures
        status_matches(r, spec_code_block(tokens@, pos as int, fuel as nat)),
    decreases fuel, 4nat,
{
    parse_code_block_acc(tokens, pos, Vec::new(), fuel)
}

fn parse_code_block_acc(
    tokens: &Vec<Token>,
    pos: usize,
    acc: Vec<Statement>,
    fuel: usize,
) -> (r: Result<(Vec<Statement>, usize), CParseError>)
    ensures
        status_matches(r, spec_code_block(tokens@, pos as int, fuel as nat)),
    decreases fuel, 5nat,
{
    if fuel == 0 {
        return Result::Err(CParseError::RecursionLimit);
    }
    if pos >= tokens.len() {
        return Result::Err(CParseError::Unexpected);
    }
    let mut acc = acc;
    let is_rbrace: bool = match &tokens[pos] {
        Token::Punctuator(Punct::RBrace) => true,
        _ => false,
    };
    if is_rbrace {
        return Result::Ok((acc, pos + 1));
    }
    match parse_statement(tokens, pos, fuel - 1) {
        Result::Ok((st, j)) => {
            acc.push(st);
            match parse_code_block_acc(tokens, j, acc, fuel - 1) {
                Result::Ok((stmts, m)) => Result::Ok((stmts, m)),
                Result::Err(e) => Result::Err(e),
            }
        }
        Result::Err(e) => Result::Err(e),
    }
}

/// The stars and qualifiers of one parameter's pointer chain.
#[verifier::loop_isolation(false)]
fn parse_param_quals(tokens: &Vec<Token>, pos: usize) -> (r: (bool, bool, usize))
    ensures
        r.2 as int == spec_param_quals(tokens@, pos as int),
        pos <= r.2,
    decreases tokens@.len() - pos,
{
    if pos >= tokens.len() {
        return (false, false, pos);
    }
    let mut constant: bool = false;
    let mut restrict: bool = false;
    let mut i: usize = pos;
    while i < tokens.len()
        invariant
            pos <= i <= tokens.len(),
            spec_param_quals(tokens@, pos as int) == spec_param_quals(tokens@, i as int),
        decreases tokens.len() - i,
    {
        match &tokens[i] {
            Token::Keyword(Keyword::Const) => {
                constant = true;
                i += 1;
            }
            Token::Keyword(Keyword::Restrict) => {
                restrict = true;
                i += 1;
            }
            _ => {
                return (constant, restrict, i);
            }
        }
    }
    (constant, restrict, i)
}

fn parse_param_pointers(
    tokens: &Vec<Token>,
    pos: usize,
    acc: Option<Pointer>,
    fuel: usize,
) -> (r: (Option<Pointer>, usize))
    ensures
        r.1 as int == spec_param_pointers(tokens@, pos as int, fuel as nat),
    decreases fuel,
{
    if fuel == 0 {
        return (acc, pos);
    }
    let is_star: bool = pos < tokens.len() && match &tokens[pos] {
        Token::Punctuator(Punct::Star) => true,
        _ => false,
    };
    if !is_star {
        return (acc, pos);
    }
    let (constant, restrict, j) = parse_param_quals(tokens, pos + 1);
    let ptr = Pointer {
        constant,
        restrict,
        sub_ptr: match acc {
            Option::Some(p) => Option::Some(Box::new(p)),
            Option::None => Option::None,
        },
    };
    parse_param_pointers(tokens, j, Option::Some(ptr), fuel - 1)
}

fn parse_params(tokens: &Vec<Token>, pos: usize, fuel: usize) -> (r: Result<
    (Vec<(FullType, Option<String>)>, usize),
    CParseError,
>)
    ensures
        status_matches(r, spec_params(tokens@, pos as int, fuel as nat)),
    decreases fuel, 1nat,
{
    parse_params_acc(tokens, pos, Vec::new(), fuel)
}

fn parse_params_acc(
    tokens: &Vec<Token>,
    pos: usize,
    acc: Vec<(FullType, Option<String>)>,
    fuel: usize,
) -> (r: Result<(Vec<(FullType, Option<String>)>, usize), CParseError>)
    ensures
        status_matches(r, spec_params(tokens@, pos as int, fuel as nat)),
    decreases fuel, 0nat,
{
    if fuel == 0 {
        return Result::Err(CParseError::RecursionLimit);
    }
    if pos >= tokens.len() {
        return Result::Err(CParseError::Unexpected);
    }
    let mut acc = acc;
    let is_rparen: bool = match &tokens[pos] {
        Token::Punctuator(Punct::RParen) => true,
        _ => false,
    };
    if is_rparen {
        return Result::Ok((acc, pos + 1));
    }
    match parse_type(tokens, pos) {
        Result::Ok((ty, j)) => {
            let (pointer, k) = parse_param_pointers(tokens, j, Option::None, fuel);
            let (name, m): (Option<String>, usize) = if k < tokens.len() {
                match &tokens[k] {
                    Token::Identifier(id) => (Option::Some(id.clone()), k + 1),
                    _ => (Option::None, k),
                }
            } else {
                (Option::None, k)
            };
            acc.push((FullType { inner: ty, pointer }, name));
            parse_params_acc(tokens, m, acc, fuel - 1)
        }
        Result::Err(e) => Result::Err(e),
    }
}

fn parse_declaration(tokens: &Vec<Token>, pos: usize, fuel: usize) -> (r: Result<
    (Declaration, usize),
    CParseError,
>)
    ensures
        status_matches(r, spec_declaration(tokens@, pos as int, fuel as nat)),
        r matches Result::Ok((d, _)) ==> d.name@ == spec_decl_name(tokens@, pos as int),
    decreases fuel, 6nat,
{
    if fuel == 0 {
        return Result::Err(CParseError::RecursionLimit);
    }
    let (ty, j) = match parse_type(tokens, pos) {
        Result::Ok(v) => v,
        Result::Err(e) => {
            return Result::Err(e);
        }
    };
    let (name, k) = match parse_identifier(tokens, j) {
        Result::Ok(v) => v,
        Result::Err(e) => {
            return Result::Err(e);
        }
    };
    if k >= tokens.len() {
        return Result::Err(CParseError::Unsupported);
    }
    match &tokens[k] {
        Token::Punctuator(Punct::Semicolon) => Result::Ok(
            (Declaration { ty, pointer: Option::None, name, initializer: Option::None }, k + 1),
        ),
        Token::Punctuator(Punct::Assign) => Result::Err(CParseError::Unsupported),
        Token::Punctuator(Punct::LParen) => {
            let (params, m) = match parse_params(tokens, k + 1, fuel - 1) {
                Result::Ok(v) => v,
                Result::Err(e) => {
                    return Result::Err(e);
                }
            };
            let fn_ty = Type {
                base: BaseType::Function { ret: Box::new(ty), params },
                constant: false,
            };
            if m < tokens.len() {
                match &tokens[m] {
                    Token::Punctuator(Punct::LBrace) => {
                        match parse_code_block(tokens, m + 1, fuel - 1) {
                            Result::Ok((stmts, p2)) => Result::Ok(
                                (
                                    Declaration {
                                        ty: fn_ty,
                                        pointer: Option::None,
                                        name,
                                        initializer: Option::Some(
                                            Initializer::Function(stmts),
                                        ),
                                    },
                                    p2,
                                ),
                            ),
                            Result::Err(e) => Result::Err(e),
                        }
                    }
                    Token::Punctuator(Punct::Semicolon) => Result::Ok(
                        (
                            Declaration {
                                ty: fn_ty,
                                pointer: Option::None,
                                name,
                                initializer: Option::None,
                            },
                            m + 1,
                        ),
                    ),
                    _ => Result::Err(CParseError::Unexpected),
                }
            } else {
                Result::Err(CParseError::Unexpected)
            }
        }
        Token::Punctuator(_) => Result::Err(CParseError::Unexpected),
        _ => Result::Err(CParseError::Unsupported),
    }
}

/// Parses a whole token stream into declarations.  The acceptance, fault,
/// end position, and the declared names in source order are exactly the
/// grammar model's, at a budget of one step per token.
pub fn parse(tokens: &Vec<Token>) -> (r: Result<Vec<Declaration>, CParseError>)
    ensures
        match r {
            Result::Ok(ds) => spec_parse(tokens@, 0, tokens@.len()) matches Result::Ok(
                (_, names),
            ) && ds@.len() == names.len() && (forall|k: int|
                0 <= k < names.len() ==> ds@[k].name@ == names[k]),
            Result::Err(e) => spec_parse(tokens@, 0, tokens@.len()) == Result::<
                (int, Seq<Seq<char>>),
                CParseError,
            >::Err(e),
        },
{
    let fuel: usize = tokens.len();
    parse_all(tokens, 0, fuel)
}

fn parse_all(tokens: &Vec<Token>, pos: usize, fuel: usize) -> (r: Result<
    Vec<Declaration>,
    CParseError,
>)
    ensures
        match r {
            Result::Ok(ds) => spec_parse(tokens@, pos as int, fuel as nat) matches Result::Ok(
                (_, names),
            ) && ds@.len() == names.len() && (forall|k: int|
                0 <= k < names.len() ==> ds@[k].name@ == names[k]),
            Result::Err(e) => spec_parse(tokens@, pos as int, fuel as nat) == Result::<
                (int, Seq<Seq<char>>),
                CParseError,
            >::Err(e),
        },
    decreases fuel,
{
    if pos >= tokens.len() {
        return Result::Ok(Vec::new());
    }
    if fuel == 0 {
        return Result::Err(CParseError::RecursionLimit);
    }
    match parse_declaration(tokens, pos, fuel - 1) {
        Result::Ok((d, j)) => match parse_all(tokens, j, fuel - 1) {
            Result::Ok(mut rest) => {
                let ghost restv = rest@;
                let mut out: Vec<Declaration> = Vec::new();
                out.push(d);
                out.append(&mut rest);
                proof {
                    assert(out@ =~= seq![d] + restv);
                }
                Result::Ok(out)
            }
            Result::Err(e) => Result::Err(e),
        },
        Result::Err(e) => Result::Err(e),
    }
}

} // verus!
