//! The semantic pass for the Rust-like surface language: conversion of the
//! parsed item tree into a typed program, and a tree-shaped type check over
//! it.  This pass is a producer of input comparable to the IR validator's;
//! its contracts state the conversion and checking rules as structural
//! relations and mirror functions.

use vstd::prelude::*;

verus! {

/// The faults the semantic pass reports.
#[derive(Clone, Copy, Debug, PartialEq, Eq, Structural)]
pub enum SemaError {
    /// A name did not resolve to a known type or declaration.
    Unresolved,
    /// Two types that had to agree did not.
    TypeMismatch,
    /// An unsafe function or block was reached from a safe context.
    SafetyViolation,
    /// A call's argument count differed from the callee's parameter count.
    ArityMismatch,
    /// A construct the pass does not handle yet.
    Unsupported,
}

// ---------------------------------------------------------------------------
// The surface syntax handed over by the parser
// ---------------------------------------------------------------------------

/// The encoding prefix of a string literal.
#[derive(Clone, Copy, Debug, Hash, PartialEq, Eq, Structural)]
pub enum StrType {
    Default,
    Byte,
}

#[derive(Clone, Copy, Debug, Hash, PartialEq, Eq, Structural)]
pub enum Mutability {
    Const,
    Mut,
}

#[derive(Clone, Copy, Debug, Hash, PartialEq, Eq, Structural)]
pub enum Safety {
    Safe,
    Unsafe,
}

/// Who may refer to a surface item.
#[derive(Clone, Copy, Debug, Hash, PartialEq, Eq, Structural)]
pub enum Visibility {
    Pub,
    Priv,
}

/// A type as written in the surface syntax.
#[derive(Debug)]
pub enum SurfaceType {
    Name(String),
    Pointer { mutability: Mutability, underlying: Box<SurfaceType> },
}

/// An expression as written in the surface syntax.
#[derive(Debug)]
pub enum SurfaceExpr {
    Cast(Box<SurfaceExpr>, SurfaceType),
    FunctionCall { func: Box<SurfaceExpr>, args: Vec<SurfaceExpr> },
    Id(String),
    Parentheses(Box<SurfaceExpr>),
    StringLiteral(StrType, String),
    UnsafeBlock(Vec<SurfaceBlockItem>),
}

/// One item of a surface block.
#[derive(Debug)]
pub enum SurfaceBlockItem {
    Discard(SurfaceExpr),
    Expr(SurfaceExpr),
    Item(Box<Item>),
}

/// A parameter of a surface function.
#[derive(Debug)]
pub struct FnParam {
    pub name: Option<String>,
    pub ty: SurfaceType,
}

/// A surface item: an extern block or a function declaration.
#[derive(Debug)]
pub enum Item {
    ExternBlock { abi: Option<String>, items: Vec<Item> },
    FnDeclaration {
        visibility: Visibility,
        safety: Safety,
        name: String,
        params: Vec<FnParam>,
        return_ty: Option<SurfaceType>,
        block: Option<Vec<SurfaceBlockItem>>,
    },
}

// ---------------------------------------------------------------------------
// The typed program
// ---------------------------------------------------------------------------

/// A resolved identifier.
#[derive(Debug)]
pub enum Identifier {
    Basic(String),
}

/// The width of a floating-point type; only named here, never computed on.
#[derive(Clone, Copy, Debug, Hash, PartialEq, Eq, Structural)]
pub enum FloatType {
    F32,
    F64,
}

/// The named integer types of the surface language.
#[derive(Clone, Copy, Debug, Hash, PartialEq, Eq, Structural)]
pub enum IntType {
    I8,
    I16,
    I32,
    I64,
    I128,
    Iptr,
    Isize,
    U8,
    U16,
    U32,
    U64,
    U128,
    Uptr,
    Usize,
}

/// A resolved type of the surface language.
#[derive(Debug)]
pub enum Type {
    Boolean,
    Char,
    Float(FloatType),
    Function(FunctionSignature),
    Integer(IntType),
    Pointer { mutability: Mutability, underlying: Box<Type> },
    Str,
    Tuple(Vec<Type>),
}

/// The calling conventions the surface language names.
#[derive(Clone, Copy, Debug, Hash, PartialEq, Eq, Structural)]
pub enum Abi {
    C,
    CUnwind,
    Fastcall,
    FastcallUnwind,
    Rust,
    RustCall,
    RustcallV0,
    RustIntrinsic,
    Stdcall,
    StdcallUnwind,
}

/// How a declaration's symbol name is derived.
#[derive(Clone, Copy, Debug, Hash, PartialEq, Eq, Structural)]
pub enum Mangling {
    C,
    Rust,
}

/// The signature of a surface function.
#[derive(Debug)]
pub struct FunctionSignature {
    pub abi: Abi,
    pub mangling: Mangling,
    pub params: Vec<Type>,
    pub return_ty: Box<Type>,
    pub safety: Safety,
    pub visibility: Visibility,
}

/// A declaration of the typed program.
#[derive(Debug)]
pub enum Declaration {
    Function { has_definition: bool, name: Identifier, sig: FunctionSignature },
}

/// An expression of the typed program.
#[derive(Debug)]
pub enum Expression {
    Cast { expr: Box<Expression>, target: Type },
    FunctionArg(usize),
    FunctionCall { func: Box<Expression>, args: Vec<Expression> },
    Identifier(Identifier),
    StringLiteral { kind: StrType, val: String },
    UnsafeBlock(Vec<Statement>),
}

/// A statement of the typed program.
#[derive(Debug)]
pub enum Statement {
    Bind { target: String, value: Expression },
    Discard(Expression),
    Expression(Expression),
}

/// A definition of the typed program.
#[derive(Debug)]
pub enum Definition {
    Function { name: Identifier, return_ty: Type, body: Vec<Statement> },
}

/// A whole typed program.
#[derive(Debug)]
pub struct Program {
    pub named_types: Vec<Type>,
    pub declarations: Vec<Declaration>,
    pub definitions: Vec<Definition>,
}

// ---------------------------------------------------------------------------
// Structural equality of resolved types
// ---------------------------------------------------------------------------

/// Structural equality of two resolved types, comparing names character for
/// character.
pub open spec fn spec_ty_eq(a: Type, b: Type) -> bool
    decreases a,
{
    match (a, b) {
        (Type::Boolean, Type::Boolean) => true,
        (Type::Char, Type::Char) => true,
        (Type::Float(x), Type::Float(y)) => x == y,
        (Type::Function(f), Type::Function(g)) => spec_sig_eq(f, g),
        (Type::Integer(x), Type::Integer(y)) => x == y,
        (
            Type::Pointer { mutability: m1, underlying: u1 },
            Type::Pointer { mutability: m2, underlying: u2 },
        ) => m1 == m2 && spec_ty_eq(*u1, *u2),
        (Type::Str, Type::Str) => true,
        (Type::Tuple(x), Type::Tuple(y)) => spec_tys_eq(x@, y@),
        _ => false,
    }
}

pub open spec fn spec_sig_eq(f: FunctionSignature, g: FunctionSignature) -> bool
    decreases f,
{
    &&& f.abi == g.abi
    &&& f.mangling == g.mangling
    &&& spec_tys_eq(f.params@, g.params@)
    &&& spec_ty_eq(*f.return_ty, *g.return_ty)
    &&& f.safety == g.safety
    &&& f.visibility == g.visibility
}

pub open spec fn spec_tys_eq(a: Seq<Type>, b: Seq<Type>) -> bool
    decreases a,
{
    if a.len() != b.len() {
        false
    } else if a.len() == 0 {
        true
    } else {
        spec_ty_eq(a[0], b[0]) && spec_tys_eq(a.skip(1), b.skip(1))
    }
}

impl Type {
    /// Structural equality of two resolved types.
    pub fn ty_eq(&self, other: &Type) -> (r: bool)
        ensures
            r == spec_ty_eq(*self, *other),
        decreases self,
    {
        match (self, other) {
            (Type::Boolean, Type::Boolean) => true,
            (Type::Char, Type::Char) => true,
            (Type::Float(x), Type::Float(y)) => x == y,
            (Type::Function(f), Type::Function(g)) => f.sig_eq(g),
            (Type::Integer(x), Type::Integer(y)) => x == y,
            (
                Type::Pointer { mutability: m1, underlying: u1 },
                Type::Pointer { mutability: m2, underlying: u2 },
            ) => m1 == m2 && u1.ty_eq(u2),
            (Type::Str, Type::Str) => true,
            (Type::Tuple(x), Type::Tuple(y)) => tys_eq(x, y),
            _ => false,
        }
    }
}

impl FunctionSignature {
    /// Structural equality of two signatures.
    pub fn sig_eq(&self, other: &FunctionSignature) -> (r: bool)
        ensures
            r == spec_sig_eq(*self, *other),
        decreases self,
    {
        self.abi == other.abi && self.mangling == other.mangling && tys_eq(
            &self.params,
            &other.params,
        ) && self.return_ty.ty_eq(&other.return_ty) && self.safety == other.safety
            && self.visibility == other.visibility
    }
}

/// Pairwise structural equality of two type lists.
#[verifier::loop_isolation(false)]
pub fn tys_eq(a: &Vec<Type>, b: &Vec<Type>) -> (r: bool)
    ensures
        r == spec_tys_eq(a@, b@),
    decreases a@,
{
    proof {
        assert(a@.skip(0) =~= a@);
        assert(b@.skip(0) =~= b@);
    }
    if a.len() != b.len() {
        return false;
    }
    let n: usize = a.len();
    let mut i: usize = 0;
    while i < n
        invariant
            0 <= i <= n,
            spec_tys_eq(a@, b@) == spec_tys_eq(a@.skip(i as int), b@.skip(i as int)),
        decreases n - i,
    {
        proof {
            assert(a@.skip(i as int).skip(1) =~= a@.skip(i + 1));
            assert(b@.skip(i as int).skip(1) =~= b@.skip(i + 1));
        }
        if !a[i].ty_eq(&b[i]) {
            return false;
        }
        i += 1;
    }
    true
}

// ---------------------------------------------------------------------------
// Type names and conversion
// ---------------------------------------------------------------------------

/// Whether `name` can render the type: only the primitive named types carry
/// a surface name.
pub open spec fn spec_nameable(t: Type) -> bool {
    match t {
        Type::Boolean => true,
        Type::Char => true,
        Type::Float(_) => true,
        Type::Integer(_) => true,
        _ => false,
    }
}

/// The surface name of a nameable type.
pub open spec fn spec_type_name(t: Type) -> Seq<char> {
    match t {
        Type::Boolean => "bool"@,
        Type::Char => "char"@,
        Type::Float(FloatType::F32) => "f32"@,
        Type::Float(FloatType::F64) => "f64"@,
        Type::Integer(IntType::I8) => "i8"@,
        Type::Integer(IntType::I16) => "i16"@,
        Type::Integer(IntType::I32) => "i32"@,
        Type::Integer(IntType::I64) => "i64"@,
        Type::Integer(IntType::I128) => "i128"@,
        Type::Integer(IntType::Iptr) => "iptr"@,
        Type::Integer(IntType::Isize) => "isize"@,
        Type::Integer(IntType::U8) => "u8"@,
        Type::Integer(IntType::U16) => "u16"@,
        Type::Integer(IntType::U32) => "u32"@,
        Type::Integer(IntType::U64) => "u64"@,
        Type::Integer(IntType::U128) => "u128"@,
        Type::Integer(IntType::Uptr) => "uptr"@,
        Type::Integer(IntType::Usize) => "usize"@,
        _ => Seq::empty(),
    }
}

impl Type {
    /// The surface name of this type; only the primitive named types have
    /// one.
    pub fn name(&self) -> (r: String)
        requires
            spec_nameable(*self),
        ensures
            r@ == spec_type_name(*self),
    {
        match self {
            Type::Boolean => String::from_str("bool"),
            Type::Char => String::from_str("char"),
            Type::Float(FloatType::F32) => String::from_str("f32"),
            Type::Float(FloatType::F64) => String::from_str("f64"),
            Type::Integer(IntType::I8) => String::from_str("i8"),
            Type::Integer(IntType::I16) => String::from_str("i16"),
            Type::Integer(IntType::I32) => String::from_str("i32"),
            Type::Integer(IntType::I64) => String::from_str("i64"),
            Type::Integer(IntType::I128) => String::from_str("i128"),
            Type::Integer(IntType::Iptr) => String::from_str("iptr"),
            Type::Integer(IntType::Isize) => String::from_str("isize"),
            Type::Integer(IntType::U8) => String::from_str("u8"),
            Type::Integer(IntType::U16) => String::from_str("u16"),
            Type::Integer(IntType::U32) => String::from_str("u32"),
            Type::Integer(IntType::U64) => String::from_str("u64"),
            Type::Integer(IntType::U128) => String::from_str("u128"),
            Type::Integer(IntType::Uptr) => String::from_str("uptr"),
            Type::Integer(IntType::Usize) => String::from_str("usize"),
            _ => String::new(),
        }
    }

    /// A structural copy.
    pub fn clone_deep(&self) -> (r: Type)
        ensures
            spec_ty_eq(r, *self),
        decreases self,
    {
        match self {
            Type::Boolean => Type::Boolean,
            Type::Char => Type::Char,
            Type::Float(x) => Type::Float(*x),
            Type::Function(f) => Type::Function(f.clone_deep()),
            Type::Integer(x) => Type::Integer(*x),
            Type::Pointer { mutability, underlying } => Type::Pointer {
                mutability: *mutability,
                underlying: Box::new(underlying.clone_deep()),
            },
            Type::Str => Type::Str,
            Type::Tuple(v) => Type::Tuple(clone_types(v)),
        }
    }
}

impl FunctionSignature {
    /// A structural copy.
    pub fn clone_deep(&self) -> (r: FunctionSignature)
        ensures
            spec_sig_eq(r, *self),
        decreases self,
    {
        FunctionSignature {
            abi: self.abi,
            mangling: self.mangling,
            params: clone_types(&self.params),
            return_ty: Box::new(self.return_ty.clone_deep()),
            safety: self.safety,
            visibility: self.visibility,
        }
    }
}

/// Structural copies of a type list.
#[verifier::loop_isolation(false)]
pub fn clone_types(v: &Vec<Type>) -> (r: Vec<Type>)
    ensures
        spec_tys_eq(r@, v@),
    decreases v@,
{
    let mut out: Vec<Type> = Vec::new();
    let n: usize = v.len();
    let mut i: usize = 0;
    while i < n
        invariant
            0 <= i <= n,
            out@.len() == i,
            forall|j: int| 0 <= j < i ==> spec_ty_eq(out@[j], v@[j]),
        decreases n - i,
    {
        out.push(v[i].clone_deep());
        i += 1;
    }
    proof {
        lemma_tys_eq_pointwise(out@, v@);
    }
    out
}

/// Pointwise structural equality folds into the pairwise relation.
pub proof fn lemma_tys_eq_pointwise(a: Seq<Type>, b: Seq<Type>)
    requires
        a.len() == b.len(),
        forall|j: int| 0 <= j < a.len() ==> spec_ty_eq(a[j], b[j]),
    ensures
        spec_tys_eq(a, b),
    decreases a.len(),
{
    if a.len() > 0 {
        lemma_tys_eq_pointwise(a.skip(1), b.skip(1));
    }
}

impl Identifier {
    /// The identifier's text.
    pub open spec fn spec_text(&self) -> Seq<char> {
        match self {
            Identifier::Basic(s) => s@,
        }
    }

    /// Character-wise equality of two identifiers.
    pub fn id_eq(&self, other: &Identifier) -> (r: bool)
        ensures
            r == (self.spec_text() == other.spec_text()),
    {
        match (self, other) {
            (Identifier::Basic(a), Identifier::Basic(b)) => *a == *b,
        }
    }
}

impl Declaration {
    /// The declared name.
    pub fn name(&self) -> (r: &Identifier)
        ensures
            r.spec_text() == self.spec_name(),
    {
        let Declaration::Function { name, .. } = self;
        name
    }

    /// The declared name's text.
    pub open spec fn spec_name(&self) -> Seq<char> {
        match self {
            Declaration::Function { name, .. } => name.spec_text(),
        }
    }

    /// The declaration's signature.
    pub open spec fn spec_sig(&self) -> FunctionSignature {
        match self {
            Declaration::Function { sig, .. } => *sig,
        }
    }

    /// The declaration viewed as a type: a function declaration is a
    /// function type of its signature.
    pub fn ty(&self) -> (r: Type)
        ensures
            spec_ty_eq(r, Type::Function(self.spec_sig())),
    {
        let Declaration::Function { sig, .. } = self;
        Type::Function(sig.clone_deep())
    }
}

/// The binding a surface type name has against the list of named types: the
/// first nameable entry with that name wins; reaching an entry that has no
/// surface name is an unsupported lookup; exhausting the list leaves the
/// name unresolved.
pub open spec fn spec_lookup_named(named: Seq<Type>, s: Seq<char>) -> Result<Type, SemaError>
    decreases named.len(),
{
    if named.len() == 0 {
        Result::Err(SemaError::Unresolved)
    } else if !spec_nameable(named[0]) {
        Result::Err(SemaError::Unsupported)
    } else if spec_type_name(named[0]) == s {
        Result::Ok(named[0])
    } else {
        spec_lookup_named(named.skip(1), s)
    }
}

/// The conversion of a surface type: a name is looked up in the named-type
/// list; a pointer converts its pointee.
pub open spec fn spec_convert_ty(named: Seq<Type>, orig: SurfaceType) -> Result<Type, SemaError>
    decreases orig,
{
    match orig {
        SurfaceType::Name(s) => spec_lookup_named(named, s@),
        SurfaceType::Pointer { mutability, underlying } => {
            match spec_convert_ty(named, *underlying) {
                Result::Ok(t) => Result::Ok(
                    Type::Pointer { mutability, underlying: Box::new(t) },
                ),
                Result::Err(e) => Result::Err(e),
            }
        }
    }
}

/// Whether an executable conversion result agrees with the model up to
/// structural type equality.
pub open spec fn ty_result_matches(
    r: Result<Type, SemaError>,
    m: Result<Type, SemaError>,
) -> bool {
    match (r, m) {
        (Result::Ok(a), Result::Ok(b)) => spec_ty_eq(a, b),
        (Result::Err(a), Result::Err(b)) => a == b,
        _ => false,
    }
}

/// Converts a surface type against the named-type list.
#[verifier::loop_isolation(false)]
pub fn convert_ty(named_types: &Vec<Type>, orig: &SurfaceType) -> (r: Result<Type, SemaError>)
    ensures
        ty_result_matches(r, spec_convert_ty(named_types@, *orig)),
    decreases orig,
{
    match orig {
        SurfaceType::Name(s) => {
            proof {
                assert(named_types@.skip(0) =~= named_types@);
            }
            let n: usize = named_types.len();
            let mut i: usize = 0;
            while i < n
                invariant
                    0 <= i <= n,
                    n == named_types.len(),
                    spec_lookup_named(named_types@, s@) == spec_lookup_named(
                        named_types@.skip(i as int),
                        s@,
                    ),
                decreases n - i,
            {
                proof {
                    assert(named_types@.skip(i as int).skip(1) =~= named_types@.skip(i + 1));
                }
                let nameable: bool = match &named_types[i] {
                    Type::Boolean | Type::Char | Type::Float(_) | Type::Integer(_) => true,
                    _ => false,
                };
                if !nameable {
                    return Result::Err(SemaError::Unsupported);
                }
                let tn = named_types[i].name();
                if tn == *s {
                    return Result::Ok(named_types[i].clone_deep());
                }
                i += 1;
            }
            Result::Err(SemaError::Unresolved)
        }
        SurfaceType::Pointer { mutability, underlying } => {
            match convert_ty(named_types, underlying) {
                Result::Ok(t) => Result::Ok(
                    Type::Pointer { mutability: *mutability, underlying: Box::new(t) },
                ),
                Result::Err(e) => Result::Err(e),
            }
        }
    }
}

// ---------------------------------------------------------------------------
// Expression and block conversion
// ---------------------------------------------------------------------------

/// Whether `out` is the conversion of the surface expression `orig`:
/// parentheses are dropped, identifiers and string literals carry their text
/// over, casts and calls convert their parts, and an unsafe block converts
/// its statements.
pub open spec fn rel_convert_expr(named: Seq<Type>, orig: SurfaceExpr, out: Expression) -> bool
    decreases orig, 0nat,
{
    match orig {
        SurfaceExpr::Cast(e, t) => out matches Expression::Cast { expr, target }
            && rel_convert_expr(named, *e, *expr) && (spec_convert_ty(named, t) matches
        Result::Ok(tt) && spec_ty_eq(target, tt)),
        SurfaceExpr::FunctionCall { func, args } => out matches Expression::FunctionCall {
            func: f2,
            args: a2,
        } && rel_convert_expr(named, *func, *f2) && rel_convert_exprs(named, args@, a2@),
        SurfaceExpr::Id(s) => out matches Expression::Identifier(id) && id.spec_text() == s@,
        SurfaceExpr::Parentheses(inner) => rel_convert_expr(named, *inner, out),
        SurfaceExpr::StringLiteral(k, v) => out matches Expression::StringLiteral { kind, val }
            && kind == k && val@ == v@,
        SurfaceExpr::UnsafeBlock(items) => out matches Expression::UnsafeBlock(stmts)
            && rel_convert_stmts(named, items@, stmts@),
    }
}

pub open spec fn rel_convert_exprs(
    named: Seq<Type>,
    orig: Seq<SurfaceExpr>,
    out: Seq<Expression>,
) -> bool
    decreases orig, 1nat,
{
    if orig.len() != out.len() {
        false
    } else if orig.len() == 0 {
        true
    } else {
        rel_convert_expr(named, orig[0], out[0]) && rel_convert_exprs(
            named,
            orig.skip(1),
            out.skip(1),
        )
    }
}

/// Whether `out` is the conversion of one surface block item; declarations
/// nested in code blocks have no conversion.
pub open spec fn rel_convert_stmt(
    named: Seq<Type>,
    orig: SurfaceBlockItem,
    out: Statement,
) -> bool
    decreases orig, 0nat,
{
    match orig {
        SurfaceBlockItem::Discard(e) => out matches Statement::Discard(e2) && rel_convert_expr(
            named,
            e,
            e2,
        ),
        SurfaceBlockItem::Expr(e) => out matches Statement::Expression(e2) && rel_convert_expr(
            named,
            e,
            e2,
        ),
        SurfaceBlockItem::Item(_) => false,
    }
}

pub open spec fn rel_convert_stmts(
    named: Seq<Type>,
    orig: Seq<SurfaceBlockItem>,
    out: Seq<Statement>,
) -> bool
    decreases orig, 1nat,
{
    if orig.len() != out.len() {
        false
    } else if orig.len() == 0 {
        true
    } else {
        rel_convert_stmt(named, orig[0], out[0]) && rel_convert_stmts(
            named,
            orig.skip(1),
            out.skip(1),
        )
    }
}

/// Pointwise conversion facts fold into the pairwise relation.
pub proof fn lemma_rel_exprs_pointwise(
    named: Seq<Type>,
    orig: Seq<SurfaceExpr>,
    out: Seq<Expression>,
)
    requires
        orig.len() == out.len(),
        forall|j: int| 0 <= j < orig.len() ==> rel_convert_expr(named, orig[j], out[j]),
    ensures
        rel_convert_exprs(named, orig, out),
    decreases orig.len(),
{
    if orig.len() > 0 {
        lemma_rel_exprs_pointwise(named, orig.skip(1), out.skip(1));
    }
}

pub proof fn lemma_rel_stmts_pointwise(
    named: Seq<Type>,
    orig: Seq<SurfaceBlockItem>,
    out: Seq<Statement>,
)
    requires
        orig.len() == out.len(),
        forall|j: int| 0 <= j < orig.len() ==> rel_convert_stmt(named, orig[j], out[j]),
    ensures
        rel_convert_stmts(named, orig, out),
    decreases orig.len(),
{
    if orig.len() > 0 {
        lemma_rel_stmts_pointwise(named, orig.skip(1), out.skip(1));
    }
}

/// Converts one surface expression; a failed sub-conversion surfaces its
/// fault.
#[verifier::loop_isolation(false)]
pub fn convert_expr(named_types: &Vec<Type>, orig: &SurfaceExpr) -> (r: Result<
    Expression,
    SemaError,
>)
    ensures
        r matches Result::Ok(out) ==> rel_convert_expr(named_types@, *orig, out),
    decreases orig, 0nat,
{
    match orig {
        SurfaceExpr::Cast(e, t) => {
            let inner = convert_expr(named_types, e);
            match inner {
                Result::Ok(expr) => match convert_ty(named_types, t) {
                    Result::Ok(target) => Result::Ok(
                        Expression::Cast { expr: Box::new(expr), target },
                    ),
                    Result::Err(e2) => Result::Err(e2),
                },
                Result::Err(e2) => Result::Err(e2),
            }
        }
        SurfaceExpr::FunctionCall { func, args } => {
            let f2 = match convert_expr(named_types, func) {
                Result::Ok(f) => f,
                Result::Err(e2) => {
                    return Result::Err(e2);
                }
            };
            let mut out_args: Vec<Expression> = Vec::new();
            let n: usize = args.len();
            let mut i: usize = 0;
            while i < n
                invariant
                    0 <= i <= n,
                    n == args.len(),
                    out_args@.len() == i,
                    forall|j: int| 0 <= j < i
                        ==> rel_convert_expr(named_types@, args@[j], out_args@[j]),
                decreases n - i,
            {
                match convert_expr(named_types, &args[i]) {
                    Result::Ok(a) => {
                        out_args.push(a);
                    }
                    Result::Err(e2) => {
                        return Result::Err(e2);
                    }
                }
                i += 1;
            }
            proof {
                lemma_rel_exprs_pointwise(named_types@, args@, out_args@);
            }
            Result::Ok(Expression::FunctionCall { func: Box::new(f2), args: out_args })
        }
        SurfaceExpr::Id(s) => Result::Ok(Expression::Identifier(Identifier::Basic(s.clone()))),
        SurfaceExpr::Parentheses(inner) => convert_expr(named_types, inner),
        SurfaceExpr::StringLiteral(k, v) => Result::Ok(
            Expression::StringLiteral { kind: *k, val: v.clone() },
        ),
        SurfaceExpr::UnsafeBlock(items) => match convert_block(named_types, items) {
            Result::Ok(stmts) => Result::Ok(Expression::UnsafeBlock(stmts)),
            Result::Err(e2) => Result::Err(e2),
        },
    }
}

/// Converts the items of a surface block into statements; an item
/// declaration inside a code block is unsupported.
#[verifier::loop_isolation(false)]
pub fn convert_block(named_types: &Vec<Type>, orig: &Vec<SurfaceBlockItem>) -> (r: Result<
    Vec<Statement>,
    SemaError,
>)
    ensures
        r matches Result::Ok(out) ==> rel_convert_stmts(named_types@, orig@, out@),
    decreases orig@, 1nat,
{
    let mut result: Vec<Statement> = Vec::new();
    let n: usize = orig.len();
    let mut i: usize = 0;
    while i < n
        invariant
            0 <= i <= n,
            n == orig.len(),
            result@.len() == i,
            forall|j: int| 0 <= j < i ==> rel_convert_stmt(named_types@, orig@[j], result@[j]),
        decreases n - i,
    {
        match &orig[i] {
            SurfaceBlockItem::Discard(e) => match convert_expr(named_types, e) {
                Result::Ok(e2) => {
                    result.push(Statement::Discard(e2));
                }
                Result::Err(e2) => {
                    return Result::Err(e2);
                }
            },
            SurfaceBlockItem::Expr(e) => match convert_expr(named_types, e) {
                Result::Ok(e2) => {
                    result.push(Statement::Expression(e2));
                }
                Result::Err(e2) => {
                    return Result::Err(e2);
                }
            },
            SurfaceBlockItem::Item(_) => {
                return Result::Err(SemaError::Unsupported);
            }
        }
        i += 1;
    }
    proof {
        lemma_rel_stmts_pointwise(named_types@, orig@, result@);
    }
    Result::Ok(result)
}

// ---------------------------------------------------------------------------
// Whole-program conversion
// ---------------------------------------------------------------------------

/// The number of function declarations in an item tree, extern blocks
/// included.
pub open spec fn spec_count_fns(items: Seq<Item>) -> nat
    decreases items, 0nat,
{
    if items.len() == 0 {
        0
    } else {
        let head: nat = match items[0] {
            Item::ExternBlock { items: inner, .. } => spec_count_fns_boxed(inner@),
            Item::FnDeclaration { .. } => 1,
        };
        head + spec_count_fns(items.skip(1))
    }
}

pub open spec fn spec_count_fns_boxed(items: Seq<Item>) -> nat
    decreases items, 1nat,
{
    spec_count_fns(items)
}

/// The standard named types handed to every program, in order.
pub open spec fn spec_standard_named(l: Seq<Type>) -> bool {
    &&& l.len() == 19
    &&& l[0] is Boolean
    &&& l[1] is Char
    &&& l[2] == Type::Float(FloatType::F32)
    &&& l[3] == Type::Float(FloatType::F64)
    &&& l[4] == Type::Integer(IntType::I8)
    &&& l[5] == Type::Integer(IntType::I16)
    &&& l[6] == Type::Integer(IntType::I32)
    &&& l[7] == Type::Integer(IntType::I64)
    &&& l[8] == Type::Integer(IntType::I128)
    &&& l[9] == Type::Integer(IntType::Iptr)
    &&& l[10] == Type::Integer(IntType::Isize)
    &&& l[11] == Type::Integer(IntType::U8)
    &&& l[12] == Type::Integer(IntType::U16)
    &&& l[13] == Type::Integer(IntType::U32)
    &&& l[14] == Type::Integer(IntType::U64)
    &&& l[15] == Type::Integer(IntType::U128)
    &&& l[16] == Type::Integer(IntType::Uptr)
    &&& l[17] == Type::Integer(IntType::Usize)
    &&& l[18] is Str
}


/// Whether `out` is the list of parameter types `ps` converts to.
pub open spec fn rel_convert_params(named: Seq<Type>, ps: Seq<FnParam>, out: Seq<Type>) -> bool
    decreases ps,
{
    if ps.len() != out.len() {
        false
    } else if ps.len() == 0 {
        true
    } else {
        (spec_convert_ty(named, ps[0].ty) matches Result::Ok(t) && spec_ty_eq(out[0], t))
            && rel_convert_params(named, ps.skip(1), out.skip(1))
    }
}

/// Pointwise conversion facts fold into the parameter relation.
pub proof fn lemma_rel_params_pointwise(named: Seq<Type>, ps: Seq<FnParam>, out: Seq<Type>)
    requires
        ps.len() == out.len(),
        forall|j: int| 0 <= j < ps.len()
            ==> (spec_convert_ty(named, #[trigger] ps[j].ty) matches Result::Ok(t)
                && spec_ty_eq(out[j], t)),
    ensures
        rel_convert_params(named, ps, out),
    decreases ps.len(),
{
    if ps.len() > 0 {
        lemma_rel_params_pointwise(named, ps.skip(1), out.skip(1));
    }
}

/// Whether `out` is the conversion of a declared return type; an absent
/// one converts to the empty tuple.
pub open spec fn rel_convert_ret(named: Seq<Type>, rt: Option<SurfaceType>, out: Type) -> bool {
    match rt {
        Option::Some(t) => spec_convert_ty(named, t) matches Result::Ok(t2) && spec_ty_eq(
            out,
            t2,
        ),
        Option::None => out matches Type::Tuple(v) && v@.len() == 0,
    }
}

/// The ABI string an extern block hands to its items: the written one, or
/// the default convention when none is written.
pub open spec fn spec_extern_abi(new_abi: Option<String>) -> Seq<char> {
    match new_abi {
        Option::Some(s) => s@,
        Option::None => "C"@,
    }
}

/// Whether `out` is the declaration a surface function converts to under
/// the inherited extern ABI string (none outside extern blocks): the name
/// and definition flag carry over; the ABI maps from the string; extern
/// items are unsafely callable and mangled the foreign way; parameters and
/// the return type convert pairwise.
pub open spec fn rel_convert_decl(
    named: Seq<Type>,
    item: Item,
    abi: Option<Seq<char>>,
    out: Declaration,
) -> bool {
    match item {
        Item::FnDeclaration { visibility, safety, name, params, return_ty, block } => {
            match out {
                Declaration::Function { has_definition, name: out_name, sig } => {
                    &&& has_definition == (block is Some)
                    &&& out_name.spec_text() == name@
                    &&& match abi {
                        Option::Some(s) => (s == "C"@ && sig.abi == Abi::C) || (s == "Rust"@
                            && sig.abi == Abi::Rust),
                        Option::None => sig.abi == Abi::Rust,
                    }
                    &&& sig.mangling == if abi is Some {
                        Mangling::Rust
                    } else {
                        Mangling::C
                    }
                    &&& sig.safety == if abi is Some {
                        Safety::Unsafe
                    } else {
                        safety
                    }
                    &&& sig.visibility == visibility
                    &&& rel_convert_params(named, params@, sig.params@)
                    &&& rel_convert_ret(named, return_ty, *sig.return_ty)
                }
            }
        }
        _ => false,
    }
}

/// Whether `out` is the declaration list an item tree converts to, in
/// order, descending extern blocks.
pub open spec fn rel_convert_decls(
    named: Seq<Type>,
    items: Seq<Item>,
    abi: Option<Seq<char>>,
    out: Seq<Declaration>,
) -> bool
    decreases items, 0nat,
{
    if items.len() == 0 {
        out.len() == 0
    } else {
        match items[0] {
            Item::ExternBlock { abi: new_abi, items: inner } => {
                let k = spec_count_fns_boxed(inner@);
                &&& abi is None
                &&& k <= out.len()
                &&& rel_convert_decls_boxed(
                    named,
                    inner@,
                    Option::Some(spec_extern_abi(new_abi)),
                    out.take(k as int),
                )
                &&& rel_convert_decls(named, items.skip(1), abi, out.skip(k as int))
            }
            Item::FnDeclaration { .. } => {
                &&& out.len() >= 1
                &&& rel_convert_decl(named, items[0], abi, out[0])
                &&& rel_convert_decls(named, items.skip(1), abi, out.skip(1))
            }
        }
    }
}

pub open spec fn rel_convert_decls_boxed(
    named: Seq<Type>,
    items: Seq<Item>,
    abi: Option<Seq<char>>,
    out: Seq<Declaration>,
) -> bool
    decreases items, 1nat,
{
    rel_convert_decls(named, items, abi, out)
}

/// A related declaration list is as long as the tree's function count.
pub proof fn lemma_rel_decls_len(
    named: Seq<Type>,
    items: Seq<Item>,
    abi: Option<Seq<char>>,
    out: Seq<Declaration>,
)
    requires
        rel_convert_decls(named, items, abi, out),
    ensures
        out.len() == spec_count_fns(items),
    decreases items, 0nat,
{
    reveal_with_fuel(rel_convert_decls, 3);
    reveal_with_fuel(rel_convert_decls_boxed, 2);
    if items.len() > 0 {
        match items[0] {
            Item::ExternBlock { abi: new_abi, items: inner } => {
                let k = spec_count_fns_boxed(inner@);
                lemma_rel_decls_len(
                    named,
                    inner@,
                    Option::Some(spec_extern_abi(new_abi)),
                    out.take(k as int),
                );
                lemma_rel_decls_len(named, items.skip(1), abi, out.skip(k as int));
            }
            Item::FnDeclaration { .. } => {
                lemma_rel_decls_len(named, items.skip(1), abi, out.skip(1));
            }
        }
    }
}

/// Appending one surface function extends a related declaration list by
/// its converted declaration.
pub proof fn lemma_rel_decls_snoc_fn(
    named: Seq<Type>,
    pre: Seq<Item>,
    item: Item,
    abi: Option<Seq<char>>,
    out1: Seq<Declaration>,
    d: Declaration,
)
    requires
        rel_convert_decls(named, pre, abi, out1),
        item is FnDeclaration,
        rel_convert_decl(named, item, abi, d),
    ensures
        rel_convert_decls(named, pre.push(item), abi, out1.push(d)),
    decreases pre, 0nat,
{
    reveal_with_fuel(rel_convert_decls, 3);
    reveal_with_fuel(rel_convert_decls_boxed, 2);
    let items2 = pre.push(item);
    let out2 = out1.push(d);
    if pre.len() == 0 {
        assert(items2.skip(1) =~= Seq::<Item>::empty());
        assert(out2.skip(1) =~= Seq::<Declaration>::empty());
        assert(items2[0] == item);
        assert(out2[0] == d);
    } else {
        match pre[0] {
            Item::ExternBlock { abi: new_abi, items: inner } => {
                let k = spec_count_fns_boxed(inner@);
                assert(k <= out1.len());
                lemma_rel_decls_snoc_fn(named, pre.skip(1), item, abi, out1.skip(k as int), d);
                assert(items2[0] == pre[0]);
                assert(items2.skip(1) =~= pre.skip(1).push(item));
                assert(out2.take(k as int) =~= out1.take(k as int));
                assert(out2.skip(k as int) =~= out1.skip(k as int).push(d));
            }
            Item::FnDeclaration { .. } => {
                lemma_rel_decls_snoc_fn(named, pre.skip(1), item, abi, out1.skip(1), d);
                assert(items2[0] == pre[0]);
                assert(items2.skip(1) =~= pre.skip(1).push(item));
                assert(out2[0] == out1[0]);
                assert(out2.skip(1) =~= out1.skip(1).push(d));
            }
        }
    }
}

/// Appending one extern block extends a related declaration list by the
/// block's converted declarations.
pub proof fn lemma_rel_decls_snoc_extern(
    named: Seq<Type>,
    pre: Seq<Item>,
    item: Item,
    out1: Seq<Declaration>,
    batch: Seq<Declaration>,
)
    requires
        rel_convert_decls(named, pre, Option::None, out1),
        item matches Item::ExternBlock { abi: new_abi, items: inner } && rel_convert_decls(
            named,
            inner@,
            Option::Some(spec_extern_abi(new_abi)),
            batch,
        ),
    ensures
        rel_convert_decls(named, pre.push(item), Option::None, out1 + batch),
    decreases pre, 0nat,
{
    reveal_with_fuel(rel_convert_decls, 3);
    reveal_with_fuel(rel_convert_decls_boxed, 2);
    let items2 = pre.push(item);
    let out2 = out1 + batch;
    match item {
        Item::ExternBlock { abi: new_abi, items: inner } => {
            let kb = spec_count_fns_boxed(inner@);
            lemma_rel_decls_len(
                named,
                inner@,
                Option::Some(spec_extern_abi(new_abi)),
                batch,
            );
            if pre.len() == 0 {
                assert(items2[0] == item);
                assert(out2.take(kb as int) =~= batch);
                assert(items2.skip(1) =~= Seq::<Item>::empty());
                assert(out2.skip(kb as int) =~= Seq::<Declaration>::empty());
            } else {
                match pre[0] {
                    Item::ExternBlock { abi: new_abi0, items: inner0 } => {
                        let k = spec_count_fns_boxed(inner0@);
                        assert(k <= out1.len());
                        lemma_rel_decls_snoc_extern(
                            named,
                            pre.skip(1),
                            item,
                            out1.skip(k as int),
                            batch,
                        );
                        assert(items2[0] == pre[0]);
                        assert(items2.skip(1) =~= pre.skip(1).push(item));
                        assert(out2.take(k as int) =~= out1.take(k as int));
                        assert(out2.skip(k as int) =~= out1.skip(k as int) + batch);
                    }
                    Item::FnDeclaration { .. } => {
                        lemma_rel_decls_snoc_extern(
                            named,
                            pre.skip(1),
                            item,
                            out1.skip(1),
                            batch,
                        );
                        assert(items2[0] == pre[0]);
                        assert(items2.skip(1) =~= pre.skip(1).push(item));
                        assert(out2[0] == out1[0]);
                        assert(out2.skip(1) =~= out1.skip(1) + batch);
                    }
                }
            }
        }
        _ => {}
    }
}


/// The number of function definitions (declarations with bodies) in an
/// item tree.
pub open spec fn spec_count_defs(items: Seq<Item>) -> nat
    decreases items, 0nat,
{
    if items.len() == 0 {
        0
    } else {
        let head: nat = match items[0] {
            Item::ExternBlock { items: inner, .. } => spec_count_defs_boxed(inner@),
            Item::FnDeclaration { block, .. } => if block is Some {
                1
            } else {
                0
            },
        };
        head + spec_count_defs(items.skip(1))
    }
}

pub open spec fn spec_count_defs_boxed(items: Seq<Item>) -> nat
    decreases items, 1nat,
{
    spec_count_defs(items)
}

/// Whether `out` is the definition a surface function with a body converts
/// to: the name and return type carry over, the statements convert in
/// order, and an unsafe function's body is wrapped in one unsafe block.
/// Functions with parameters and a body have no conversion.
pub open spec fn rel_convert_def(named: Seq<Type>, item: Item, out: Definition) -> bool {
    match item {
        Item::FnDeclaration { safety, name, params, return_ty, block, .. } => {
            match block {
                Option::Some(b) => match out {
                    Definition::Function { name: out_name, return_ty: out_rt, body } => {
                        &&& params@.len() == 0
                        &&& out_name.spec_text() == name@
                        &&& rel_convert_ret(named, return_ty, out_rt)
                        &&& if safety == Safety::Unsafe {
                            body@.len() == 1 && (body@[0] matches Statement::Expression(e)
                                && e matches Expression::UnsafeBlock(inner)
                                && rel_convert_stmts(named, b@, inner@))
                        } else {
                            rel_convert_stmts(named, b@, body@)
                        }
                    }
                },
                Option::None => false,
            }
        }
        _ => false,
    }
}

/// Whether `out` is the definition list an item tree converts to, in
/// order, descending extern blocks and passing over bodiless declarations.
pub open spec fn rel_convert_defs(named: Seq<Type>, items: Seq<Item>, out: Seq<Definition>) -> bool
    decreases items, 0nat,
{
    if items.len() == 0 {
        out.len() == 0
    } else {
        match items[0] {
            Item::ExternBlock { items: inner, .. } => {
                let k = spec_count_defs_boxed(inner@);
                &&& k <= out.len()
                &&& rel_convert_defs_boxed(named, inner@, out.take(k as int))
                &&& rel_convert_defs(named, items.skip(1), out.skip(k as int))
            }
            Item::FnDeclaration { block, .. } => if block is Some {
                &&& out.len() >= 1
                &&& rel_convert_def(named, items[0], out[0])
                &&& rel_convert_defs(named, items.skip(1), out.skip(1))
            } else {
                rel_convert_defs(named, items.skip(1), out)
            },
        }
    }
}

pub open spec fn rel_convert_defs_boxed(
    named: Seq<Type>,
    items: Seq<Item>,
    out: Seq<Definition>,
) -> bool
    decreases items, 1nat,
{
    rel_convert_defs(named, items, out)
}

/// A related definition list is as long as the tree's definition count.
pub proof fn lemma_rel_defs_len(named: Seq<Type>, items: Seq<Item>, out: Seq<Definition>)
    requires
        rel_convert_defs(named, items, out),
    ensures
        out.len() == spec_count_defs(items),
    decreases items, 0nat,
{
    reveal_with_fuel(rel_convert_defs, 3);
    reveal_with_fuel(rel_convert_defs_boxed, 2);
    if items.len() > 0 {
        match items[0] {
            Item::ExternBlock { items: inner, .. } => {
                let k = spec_count_defs_boxed(inner@);
                lemma_rel_defs_len(named, inner@, out.take(k as int));
                lemma_rel_defs_len(named, items.skip(1), out.skip(k as int));
            }
            Item::FnDeclaration { block, .. } => {
                if block is Some {
                    lemma_rel_defs_len(named, items.skip(1), out.skip(1));
                } else {
                    lemma_rel_defs_len(named, items.skip(1), out);
                }
            }
        }
    }
}

/// Appending one surface function extends a related definition list by its
/// converted definition when it has a body, and leaves it unchanged when it
/// does not.
pub proof fn lemma_rel_defs_snoc_fn(
    named: Seq<Type>,
    pre: Seq<Item>,
    item: Item,
    out1: Seq<Definition>,
    batch: Seq<Definition>,
)
    requires
        rel_convert_defs(named, pre, out1),
        item is FnDeclaration,
        match item {
            Item::FnDeclaration { block, .. } => if block is Some {
                batch.len() == 1 && rel_convert_def(named, item, batch[0])
            } else {
                batch.len() == 0
            },
            _ => false,
        },
    ensures
        rel_convert_defs(named, pre.push(item), out1 + batch),
    decreases pre, 0nat,
{
    reveal_with_fuel(rel_convert_defs, 3);
    reveal_with_fuel(rel_convert_defs_boxed, 2);
    let items2 = pre.push(item);
    let out2 = out1 + batch;
    if pre.len() == 0 {
        assert(items2.skip(1) =~= Seq::<Item>::empty());
        assert(items2[0] == item);
        match item {
            Item::FnDeclaration { block, .. } => {
                if block is Some {
                    assert(out2[0] == batch[0]);
                    assert(out2.skip(1) =~= Seq::<Definition>::empty());
                } else {
                    assert(out2 =~= Seq::<Definition>::empty());
                }
            }
            _ => {}
        }
    } else {
        match pre[0] {
            Item::ExternBlock { items: inner, .. } => {
                let k = spec_count_defs_boxed(inner@);
                assert(k <= out1.len());
                lemma_rel_defs_snoc_fn(named, pre.skip(1), item, out1.skip(k as int), batch);
                assert(items2[0] == pre[0]);
                assert(items2.skip(1) =~= pre.skip(1).push(item));
                assert(out2.take(k as int) =~= out1.take(k as int));
                assert(out2.skip(k as int) =~= out1.skip(k as int) + batch);
            }
            Item::FnDeclaration { block, .. } => {
                if block is Some {
                    assert(out1.len() >= 1);
                    lemma_rel_defs_snoc_fn(named, pre.skip(1), item, out1.skip(1), batch);
                    assert(items2[0] == pre[0]);
                    assert(items2.skip(1) =~= pre.skip(1).push(item));
                    assert(out2[0] == out1[0]);
                    assert(out2.skip(1) =~= out1.skip(1) + batch);
                } else {
                    lemma_rel_defs_snoc_fn(named, pre.skip(1), item, out1, batch);
                    assert(items2[0] == pre[0]);
                    assert(items2.skip(1) =~= pre.skip(1).push(item));
                }
            }
        }
    }
}

/// Appending one extern block extends a related definition list by the
/// block's converted definitions.
pub proof fn lemma_rel_defs_snoc_extern(
    named: Seq<Type>,
    pre: Seq<Item>,
    item: Item,
    out1: Seq<Definition>,
    batch: Seq<Definition>,
)
    requires
        rel_convert_defs(named, pre, out1),
        item matches Item::ExternBlock { items: inner, .. } && rel_convert_defs(
            named,
            inner@,
            batch,
        ),
    ensures
        rel_convert_defs(named, pre.push(item), out1 + batch),
    decreases pre, 0nat,
{
    reveal_with_fuel(rel_convert_defs, 3);
    reveal_with_fuel(rel_convert_defs_boxed, 2);
    let items2 = pre.push(item);
    let out2 = out1 + batch;
    match item {
        Item::ExternBlock { items: inner, .. } => {
            let kb = spec_count_defs_boxed(inner@);
            lemma_rel_defs_len(named, inner@, batch);
            if pre.len() == 0 {
                assert(items2[0] == item);
                assert(out2.take(kb as int) =~= batch);
                assert(items2.skip(1) =~= Seq::<Item>::empty());
                assert(out2.skip(kb as int) =~= Seq::<Definition>::empty());
            } else {
                match pre[0] {
                    Item::ExternBlock { items: inner0, .. } => {
                        let k = spec_count_defs_boxed(inner0@);
                        assert(k <= out1.len());
                        lemma_rel_defs_snoc_extern(
                            named,
                            pre.skip(1),
                            item,
                            out1.skip(k as int),
                            batch,
                        );
                        assert(items2[0] == pre[0]);
                        assert(items2.skip(1) =~= pre.skip(1).push(item));
                        assert(out2.take(k as int) =~= out1.take(k as int));
                        assert(out2.skip(k as int) =~= out1.skip(k as int) + batch);
                    }
                    Item::FnDeclaration { block, .. } => {
                        if block is Some {
                            assert(out1.len() >= 1);
                            lemma_rel_defs_snoc_extern(
                                named,
                                pre.skip(1),
                                item,
                                out1.skip(1),
                                batch,
                            );
                            assert(items2[0] == pre[0]);
                            assert(items2.skip(1) =~= pre.skip(1).push(item));
                            assert(out2[0] == out1[0]);
                            assert(out2.skip(1) =~= out1.skip(1) + batch);
                        } else {
                            lemma_rel_defs_snoc_extern(named, pre.skip(1), item, out1, batch);
                            assert(items2[0] == pre[0]);
                            assert(items2.skip(1) =~= pre.skip(1).push(item));
                        }
                    }
                }
            }
        }
        _ => {}
    }
}

/// The inherited ABI string an executable walk carries.
pub open spec fn spec_view_abi(o: Option<&str>) -> Option<Seq<char>> {
    match o {
        Option::Some(s) => Option::Some(s@),
        Option::None => Option::None,
    }
}

#[verifier::loop_isolation(false)]
fn convert_decls(
    items: &Vec<Item>,
    abi: Option<&str>,
    named_types: &Vec<Type>,
    out: &mut Vec<Declaration>,
) -> (r: Result<(), SemaError>)
    ensures
        r matches Result::Ok(_) ==> final(out)@.len() == old(out)@.len() + spec_count_fns(
            items@,
        ) && final(out)@.take(old(out)@.len() as int) == old(out)@ && rel_convert_decls(
            named_types@,
            items@,
            spec_view_abi(abi),
            final(out)@.skip(old(out)@.len() as int),
        ),
        items@.len() == 0 ==> r is Ok,
    decreases items@, 0nat,
{
    proof {
        assert(items@.skip(0) =~= items@);
        assert(items@.take(0) =~= Seq::<Item>::empty());
        assert(out@.skip(out@.len() as int) =~= Seq::<Declaration>::empty());
    }
    let ghost base = out@.len();
    let n: usize = items.len();
    let mut i: usize = 0;
    while i < n
        invariant
            0 <= i <= n,
            n == items.len(),
            out@.len() == base + spec_count_fns(items@) - spec_count_fns(items@.skip(i as int)),
            base <= out@.len(),
            out@.take(base as int) == old(out)@,
            rel_convert_decls(
                named_types@,
                items@.take(i as int),
                spec_view_abi(abi),
                out@.skip(base as int),
            ),
        decreases n - i,
    {
        proof {
            assert(items@.skip(i as int).skip(1) =~= items@.skip(i + 1));
        }
        match &items[i] {
            Item::ExternBlock { abi: new_abi, items: inner } => {
                proof {
                    assert(items@.skip(i as int)[0] == items@[i as int]);
                    assert(spec_count_fns(items@.skip(i as int)) == spec_count_fns_boxed(inner@)
                        + spec_count_fns(items@.skip(i + 1)));
                    assert(spec_count_fns_boxed(inner@) == spec_count_fns(inner@));
                }
                if abi.is_some() {
                    return Result::Err(SemaError::Unsupported);
                }
                let effective: &str = match new_abi {
                    Option::Some(a) => a.as_str(),
                    Option::None => "C",
                };
                let ghost seg1 = out@.skip(base as int);
                let ghost mark = out@.len();
                match convert_decls(inner, Option::Some(effective), named_types, out) {
                    Result::Ok(_) => {}
                    Result::Err(e2) => {
                        return Result::Err(e2);
                    }
                }
                proof {
                    let item_v = items@[i as int];
                    match item_v {
                        Item::ExternBlock { abi: na, items: inner_v } => {
                            assert(spec_extern_abi(na) == effective@);
                        }
                        _ => {}
                    }
                    assert(out@.take(base as int) =~= old(out)@);
                    assert(out@.skip(base as int) =~= seg1 + out@.skip(mark as int));
                    lemma_rel_decls_snoc_extern(
                        named_types@,
                        items@.take(i as int),
                        items@[i as int],
                        seg1,
                        out@.skip(mark as int),
                    );
                    assert(items@.take(i + 1) =~= items@.take(i as int).push(
                        items@[i as int],
                    ));
                }
            }
            Item::FnDeclaration { visibility, safety, name, params, return_ty, block } => {
                proof {
                    assert(items@.skip(i as int)[0] == items@[i as int]);
                    assert(spec_count_fns(items@.skip(i as int)) == 1 + spec_count_fns(
                        items@.skip(i + 1),
                    ));
                }
                let decl_abi: Abi = match abi {
                    Option::Some(a) => {
                        if str_is(a, "C") {
                            Abi::C
                        } else if str_is(a, "Rust") {
                            Abi::Rust
                        } else {
                            return Result::Err(SemaError::Unsupported);
                        }
                    }
                    Option::None => Abi::Rust,
                };
                let mut sig_params: Vec<Type> = Vec::new();
                let np: usize = params.len();
                let mut k: usize = 0;
                while k < np
                    invariant
                        0 <= k <= np,
                        np == params.len(),
                        sig_params@.len() == k,
                        forall|j: int| 0 <= j < k
                            ==> (spec_convert_ty(named_types@, #[trigger] params@[j].ty) matches
                        Result::Ok(t) && spec_ty_eq(sig_params@[j], t)),
                    decreases np - k,
                {
                    match convert_ty(named_types, &params[k].ty) {
                        Result::Ok(t) => {
                            sig_params.push(t);
                        }
                        Result::Err(e2) => {
                            return Result::Err(e2);
                        }
                    }
                    k += 1;
                }
                proof {
                    lemma_rel_params_pointwise(named_types@, params@, sig_params@);
                }
                let ret: Type = match return_ty {
                    Option::Some(t) => match convert_ty(named_types, t) {
                        Result::Ok(t2) => t2,
                        Result::Err(e2) => {
                            return Result::Err(e2);
                        }
                    },
                    Option::None => Type::Tuple(Vec::new()),
                };
                let decl = Declaration::Function {
                    has_definition: block.is_some(),
                    name: Identifier::Basic(name.clone()),
                    sig: FunctionSignature {
                        abi: decl_abi,
                        mangling: if abi.is_some() {
                            Mangling::Rust
                        } else {
                            Mangling::C
                        },
                        params: sig_params,
                        return_ty: Box::new(ret),
                        safety: if abi.is_some() {
                            Safety::Unsafe
                        } else {
                            *safety
                        },
                        visibility: *visibility,
                    },
                };
                proof {
                    assert(rel_convert_decl(
                        named_types@,
                        items@[i as int],
                        spec_view_abi(abi),
                        decl,
                    ));
                }
                let ghost seg1 = out@.skip(base as int);
                out.push(decl);
                proof {
                    assert(out@.take(base as int) =~= old(out)@);
                    assert(out@.skip(base as int) =~= seg1.push(out@[out@.len() - 1]));
                    lemma_rel_decls_snoc_fn(
                        named_types@,
                        items@.take(i as int),
                        items@[i as int],
                        spec_view_abi(abi),
                        seg1,
                        out@[out@.len() - 1],
                    );
                    assert(items@.take(i + 1) =~= items@.take(i as int).push(
                        items@[i as int],
                    ));
                }
            }
        }
        i += 1;
    }
    proof {
        assert(items@.take(n as int) =~= items@);
    }
    Result::Ok(())
}

#[verifier::loop_isolation(false)]
fn convert_defs(
    items: &Vec<Item>,
    named_types: &Vec<Type>,
    out: &mut Vec<Definition>,
) -> (r: Result<(), SemaError>)
    ensures
        r matches Result::Ok(_) ==> final(out)@.len() == old(out)@.len() + spec_count_defs(
            items@,
        ) && final(out)@.take(old(out)@.len() as int) == old(out)@ && rel_convert_defs(
            named_types@,
            items@,
            final(out)@.skip(old(out)@.len() as int),
        ),
        items@.len() == 0 ==> r is Ok,
    decreases items@, 0nat,
{
    proof {
        assert(items@.skip(0) =~= items@);
        assert(items@.take(0) =~= Seq::<Item>::empty());
        assert(out@.skip(out@.len() as int) =~= Seq::<Definition>::empty());
    }
    let ghost base = out@.len();
    let n: usize = items.len();
    let mut i: usize = 0;
    while i < n
        invariant
            0 <= i <= n,
            n == items.len(),
            out@.len() == base + spec_count_defs(items@) - spec_count_defs(
                items@.skip(i as int),
            ),
            base <= out@.len(),
            out@.take(base as int) == old(out)@,
            rel_convert_defs(named_types@, items@.take(i as int), out@.skip(base as int)),
        decreases n - i,
    {
        proof {
            assert(items@.skip(i as int).skip(1) =~= items@.skip(i + 1));
            assert(items@.skip(i as int)[0] == items@[i as int]);
        }
        match &items[i] {
            Item::ExternBlock { items: inner, .. } => {
                proof {
                    assert(spec_count_defs(items@.skip(i as int)) == spec_count_defs_boxed(
                        inner@,
                    ) + spec_count_defs(items@.skip(i + 1)));
                    assert(spec_count_defs_boxed(inner@) == spec_count_defs(inner@));
                }
                let ghost seg1 = out@.skip(base as int);
                let ghost mark = out@.len();
                match convert_defs(inner, named_types, out) {
                    Result::Ok(_) => {}
                    Result::Err(e2) => {
                        return Result::Err(e2);
                    }
                }
                proof {
                    assert(out@.take(base as int) =~= old(out)@);
                    assert(out@.skip(base as int) =~= seg1 + out@.skip(mark as int));
                    lemma_rel_defs_snoc_extern(
                        named_types@,
                        items@.take(i as int),
                        items@[i as int],
                        seg1,
                        out@.skip(mark as int),
                    );
                    assert(items@.take(i + 1) =~= items@.take(i as int).push(
                        items@[i as int],
                    ));
                }
            }
            Item::FnDeclaration { safety, name, params, return_ty, block, .. } => {
                match block {
                    Option::Some(b) => {
                        proof {
                            assert(spec_count_defs(items@.skip(i as int)) == 1
                                + spec_count_defs(items@.skip(i + 1)));
                        }
                        if params.len() > 0 {
                            return Result::Err(SemaError::Unsupported);
                        }
                        let mut body: Vec<Statement> = match convert_block(named_types, b) {
                            Result::Ok(s) => s,
                            Result::Err(e2) => {
                                return Result::Err(e2);
                            }
                        };
                        if *safety == Safety::Unsafe {
                            let mut wrapped: Vec<Statement> = Vec::new();
                            wrapped.push(
                                Statement::Expression(Expression::UnsafeBlock(body)),
                            );
                            body = wrapped;
                        }
                        let ret: Type = match return_ty {
                            Option::Some(t) => match convert_ty(named_types, t) {
                                Result::Ok(t2) => t2,
                                Result::Err(e2) => {
                                    return Result::Err(e2);
                                }
                            },
                            Option::None => Type::Tuple(Vec::new()),
                        };
                        let def = Definition::Function {
                            name: Identifier::Basic(name.clone()),
                            return_ty: ret,
                            body,
                        };
                        proof {
                            assert(rel_convert_def(named_types@, items@[i as int], def));
                        }
                        let ghost seg1 = out@.skip(base as int);
                        out.push(def);
                        proof {
                            assert(out@.take(base as int) =~= old(out)@);
                            assert(out@.skip(base as int) =~= seg1.push(
                                out@[out@.len() - 1],
                            ));
                            assert(seg1 + seq![out@[out@.len() - 1]] =~= seg1.push(
                                out@[out@.len() - 1],
                            ));
                            lemma_rel_defs_snoc_fn(
                                named_types@,
                                items@.take(i as int),
                                items@[i as int],
                                seg1,
                                seq![out@[out@.len() - 1]],
                            );
                            assert(items@.take(i + 1) =~= items@.take(i as int).push(
                                items@[i as int],
                            ));
                        }
                    }
                    Option::None => {
                        proof {
                            assert(spec_count_defs(items@.skip(i as int)) == spec_count_defs(
                                items@.skip(i + 1),
                            ));
                            let ghost seg1 = out@.skip(base as int);
                            assert(seg1 + Seq::<Definition>::empty() =~= seg1);
                            lemma_rel_defs_snoc_fn(
                                named_types@,
                                items@.take(i as int),
                                items@[i as int],
                                seg1,
                                Seq::<Definition>::empty(),
                            );
                            assert(items@.take(i + 1) =~= items@.take(i as int).push(
                                items@[i as int],
                            ));
                        }
                    }
                }
            }
        }
        i += 1;
    }
    proof {
        assert(items@.take(n as int) =~= items@);
    }
    Result::Ok(())
}

/// Character-wise comparison of a string slice with a literal.
fn str_is(a: &str, b: &str) -> (r: bool)
    ensures
        r == (a@ == b@),
{
    let an: usize = a.unicode_len();
    let bn: usize = b.unicode_len();
    if an != bn {
        return false;
    }
    let mut i: usize = 0;
    while i < an
        invariant
            0 <= i <= an,
            an == a@.len(),
            an == b@.len(),
            forall|j: int| 0 <= j < i ==> a@[j] == b@[j],
        decreases an - i,
    {
        if a.get_char(i) != b.get_char(i) {
            return false;
        }
        i += 1;
    }
    proof {
        assert(a@ =~= b@);
    }
    true
}

/// Converts an item tree into a typed program: the standard named types
/// are listed; every function declaration in scope becomes one declaration,
/// in order, with its name, definition flag, mapped ABI, mangling, safety,
/// visibility, and converted parameter and return types; every function
/// with a body becomes one definition, in order, with its converted body.
pub fn convert(items: &Vec<Item>) -> (r: Result<Program, SemaError>)
    ensures
        r matches Result::Ok(p) ==> ({
            &&& spec_standard_named(p.named_types@)
            &&& p.declarations@.len() == spec_count_fns(items@)
            &&& rel_convert_decls(p.named_types@, items@, Option::None, p.declarations@)
            &&& p.definitions@.len() == spec_count_defs(items@)
            &&& rel_convert_defs(p.named_types@, items@, p.definitions@)
        }),
        items@.len() == 0 ==> r is Ok,
{
    let mut named_types: Vec<Type> = Vec::new();
    named_types.push(Type::Boolean);
    named_types.push(Type::Char);
    named_types.push(Type::Float(FloatType::F32));
    named_types.push(Type::Float(FloatType::F64));
    named_types.push(Type::Integer(IntType::I8));
    named_types.push(Type::Integer(IntType::I16));
    named_types.push(Type::Integer(IntType::I32));
    named_types.push(Type::Integer(IntType::I64));
    named_types.push(Type::Integer(IntType::I128));
    named_types.push(Type::Integer(IntType::Iptr));
    named_types.push(Type::Integer(IntType::Isize));
    named_types.push(Type::Integer(IntType::U8));
    named_types.push(Type::Integer(IntType::U16));
    named_types.push(Type::Integer(IntType::U32));
    named_types.push(Type::Integer(IntType::U64));
    named_types.push(Type::Integer(IntType::U128));
    named_types.push(Type::Integer(IntType::Uptr));
    named_types.push(Type::Integer(IntType::Usize));
    named_types.push(Type::Str);
    let mut declarations: Vec<Declaration> = Vec::new();
    match convert_decls(items, Option::None, &named_types, &mut declarations) {
        Result::Ok(_) => {}
        Result::Err(e) => {
            return Result::Err(e);
        }
    }
    let mut definitions: Vec<Definition> = Vec::new();
    match convert_defs(items, &named_types, &mut definitions) {
        Result::Ok(_) => {}
        Result::Err(e) => {
            return Result::Err(e);
        }
    }
    proof {
        assert(declarations@.skip(0) =~= declarations@);
        assert(definitions@.skip(0) =~= definitions@);
    }
    Result::Ok(Program { named_types, declarations, definitions })
}


// ---------------------------------------------------------------------------
// The tree type check
// ---------------------------------------------------------------------------

/// The result type of a checked construct: the unit type or a resolved
/// type.
pub enum TyR {
    Unit,
    Of(Type),
}

/// Whether a checked type agrees with an expected one; the unit result
/// agrees with the empty tuple.
pub open spec fn spec_tyr_eq(a: TyR, b: TyR) -> bool {
    match (a, b) {
        (TyR::Unit, TyR::Unit) => true,
        (TyR::Of(x), TyR::Of(y)) => spec_ty_eq(x, y),
        (TyR::Unit, TyR::Of(y)) => y matches Type::Tuple(v) && v@.len() == 0,
        (TyR::Of(x), TyR::Unit) => x matches Type::Tuple(v) && v@.len() == 0,
    }
}

/// The expected type at a checking site, if any.
pub open spec fn spec_expect(o: Option<&Type>) -> Option<TyR> {
    match o {
        Option::Some(t) => Option::Some(TyR::Of(*t)),
        Option::None => Option::None,
    }
}

/// The first declaration with the given name.
pub open spec fn spec_lookup_decl(decls: Seq<Declaration>, name: Seq<char>) -> Result<
    FunctionSignature,
    SemaError,
>
    decreases decls.len(),
{
    if decls.len() == 0 {
        Result::Err(SemaError::Unresolved)
    } else if decls[0].spec_name() == name {
        Result::Ok(decls[0].spec_sig())
    } else {
        spec_lookup_decl(decls.skip(1), name)
    }
}

/// The type check of one expression: calls resolve their callee to a
/// function signature, enforce safety and arity, check each argument
/// against its parameter, and produce the declared return type; identifiers
/// resolve through the declarations; an unsafe block checks its statements
/// in an unsafe context; the remaining forms are unsupported.
pub open spec fn spec_typeck_expr(
    decls: Seq<Declaration>,
    e: Expression,
    safety: Safety,
    expect: Option<TyR>,
    ret: Option<TyR>,
) -> Result<TyR, SemaError>
    decreases e, 0nat,
{
    match e {
        Expression::FunctionCall { func, args } => {
            match spec_typeck_expr(decls, *func, safety, Option::None, ret) {
                Result::Ok(fty) => match fty {
                    TyR::Of(Type::Function(sig)) => {
                        if sig.safety == Safety::Unsafe && safety == Safety::Safe {
                            Result::Err(SemaError::SafetyViolation)
                        } else if sig.params@.len() != args@.len() {
                            Result::Err(SemaError::ArityMismatch)
                        } else {
                            match spec_typeck_args(decls, args@, sig.params@, safety, ret) {
                                Result::Ok(_) => {
                                    let out = TyR::Of(*sig.return_ty);
                                    match expect {
                                        Option::Some(want) => if spec_tyr_eq(out, want) {
                                            Result::Ok(out)
                                        } else {
                                            Result::Err(SemaError::TypeMismatch)
                                        },
                                        Option::None => Result::Ok(out),
                                    }
                                }
                                Result::Err(e2) => Result::Err(e2),
                            }
                        }
                    }
                    _ => Result::Err(SemaError::TypeMismatch),
                },
                Result::Err(e2) => Result::Err(e2),
            }
        }
        Expression::Identifier(id) => match spec_lookup_decl(decls, id.spec_text()) {
            Result::Ok(sig) => Result::Ok(TyR::Of(Type::Function(sig))),
            Result::Err(e2) => Result::Err(e2),
        },
        Expression::UnsafeBlock(inner) => spec_typeck_block(
            decls,
            inner@,
            Safety::Unsafe,
            expect,
            ret,
        ),
        _ => Result::Err(SemaError::Unsupported),
    }
}

pub open spec fn spec_typeck_args(
    decls: Seq<Declaration>,
    args: Seq<Expression>,
    params: Seq<Type>,
    safety: Safety,
    ret: Option<TyR>,
) -> Result<(), SemaError>
    decreases args, 1nat,
{
    if args.len() == 0 || params.len() == 0 {
        Result::Ok(())
    } else {
        match spec_typeck_expr(decls, args[0], safety, Option::Some(TyR::Of(params[0])), ret) {
            Result::Ok(_) => spec_typeck_args(decls, args.skip(1), params.skip(1), safety, ret),
            Result::Err(e2) => Result::Err(e2),
        }
    }
}

/// The type check of one statement: a binding is unsupported; a discarded
/// expression checks without an expectation and has the unit type; an
/// expression statement checks against the expectation.
pub open spec fn spec_typeck_statement(
    decls: Seq<Declaration>,
    st: Statement,
    safety: Safety,
    expect: Option<TyR>,
    ret: Option<TyR>,
) -> Result<TyR, SemaError>
    decreases st, 2nat,
{
    match st {
        Statement::Bind { .. } => Result::Err(SemaError::Unsupported),
        Statement::Discard(e) => match spec_typeck_expr(decls, e, safety, Option::None, ret) {
            Result::Ok(_) => Result::Ok(TyR::Unit),
            Result::Err(e2) => Result::Err(e2),
        },
        Statement::Expression(e) => match spec_typeck_expr(decls, e, safety, expect, ret) {
            Result::Ok(t) => match expect {
                Option::Some(want) => if spec_tyr_eq(t, want) {
                    Result::Ok(t)
                } else {
                    Result::Err(SemaError::TypeMismatch)
                },
                Option::None => Result::Ok(t),
            },
            Result::Err(e2) => Result::Err(e2),
        },
    }
}

/// The type check of a block: every statement but the last must have the
/// unit type; the last is checked against the block's expectation, and an
/// empty block has the unit type.
pub open spec fn spec_typeck_block(
    decls: Seq<Declaration>,
    block: Seq<Statement>,
    safety: Safety,
    expect: Option<TyR>,
    ret: Option<TyR>,
) -> Result<TyR, SemaError>
    decreases block, 3nat,
{
    let result = if block.len() == 0 {
        Result::Ok(TyR::Unit)
    } else {
        match spec_typeck_bulk(decls, block.take(block.len() - 1), safety, ret) {
            Result::Ok(_) => spec_typeck_statement(
                decls,
                block[block.len() - 1],
                safety,
                expect,
                ret,
            ),
            Result::Err(e2) => Result::Err(e2),
        }
    };
    match result {
        Result::Ok(t) => match expect {
            Option::Some(want) => if spec_tyr_eq(t, want) {
                Result::Ok(t)
            } else {
                Result::Err(SemaError::TypeMismatch)
            },
            Option::None => Result::Ok(t),
        },
        Result::Err(e2) => Result::Err(e2),
    }
}

pub open spec fn spec_typeck_bulk(
    decls: Seq<Declaration>,
    stmts: Seq<Statement>,
    safety: Safety,
    ret: Option<TyR>,
) -> Result<(), SemaError>
    decreases stmts, 4nat,
{
    if stmts.len() == 0 {
        Result::Ok(())
    } else {
        match spec_typeck_statement(decls, stmts[0], safety, Option::None, ret) {
            Result::Ok(t) => if spec_tyr_eq(t, TyR::Unit) {
                spec_typeck_bulk(decls, stmts.skip(1), safety, ret)
            } else {
                Result::Err(SemaError::TypeMismatch)
            },
            Result::Err(e2) => Result::Err(e2),
        }
    }
}

/// The type check of one definition: its body is checked as a block whose
/// result and return type are the declared return type.
pub open spec fn spec_typeck_definition(
    decls: Seq<Declaration>,
    d: Definition,
) -> Result<(), SemaError> {
    match d {
        Definition::Function { return_ty, body, .. } => {
            match spec_typeck_block(
                decls,
                body@,
                Safety::Safe,
                Option::Some(TyR::Of(return_ty)),
                Option::Some(TyR::Of(return_ty)),
            ) {
                Result::Ok(_) => Result::Ok(()),
                Result::Err(e2) => Result::Err(e2),
            }
        }
    }
}

pub open spec fn spec_typeck_defs(
    decls: Seq<Declaration>,
    defs: Seq<Definition>,
    i: int,
) -> Result<(), SemaError>
    decreases defs.len() - i,
{
    if i < 0 || i >= defs.len() {
        Result::Ok(())
    } else {
        match spec_typeck_definition(decls, defs[i]) {
            Result::Ok(_) => spec_typeck_defs(decls, defs, i + 1),
            Result::Err(e2) => Result::Err(e2),
        }
    }
}


/// The result of an executable check: the unit type or a reference to a
/// resolved type.
#[derive(Clone, Copy, Debug)]
pub enum TyRef<'a> {
    Unit,
    Of(&'a Type),
    Fn(&'a FunctionSignature),
}

pub open spec fn view_tyr(t: TyRef) -> TyR {
    match t {
        TyRef::Unit => TyR::Unit,
        TyRef::Of(ty) => TyR::Of(*ty),
        TyRef::Fn(sig) => TyR::Of(Type::Function(*sig)),
    }
}

pub open spec fn view_expect(o: Option<TyRef>) -> Option<TyR> {
    match o {
        Option::Some(t) => Option::Some(view_tyr(t)),
        Option::None => Option::None,
    }
}

/// Whether an executable checking result agrees with the model exactly.
pub open spec fn tyr_result_matches(
    r: Result<TyRef, SemaError>,
    m: Result<TyR, SemaError>,
) -> bool {
    match (r, m) {
        (Result::Ok(a), Result::Ok(b)) => view_tyr(a) == b,
        (Result::Err(a), Result::Err(b)) => a == b,
        _ => false,
    }
}

/// Structural agreement of a checked type with an expectation.
pub fn tyr_eq(a: TyRef, b: TyRef) -> (r: bool)
    ensures
        r == spec_tyr_eq(view_tyr(a), view_tyr(b)),
{
    match (a, b) {
        (TyRef::Unit, TyRef::Unit) => true,
        (TyRef::Of(x), TyRef::Of(y)) => x.ty_eq(y),
        (TyRef::Unit, TyRef::Of(y)) => match y {
            Type::Tuple(v) => v.len() == 0,
            _ => false,
        },
        (TyRef::Of(x), TyRef::Unit) => match x {
            Type::Tuple(v) => v.len() == 0,
            _ => false,
        },
        (TyRef::Fn(f), TyRef::Fn(g)) => f.sig_eq(g),
        (TyRef::Fn(f), TyRef::Of(y)) => match y {
            Type::Function(g) => f.sig_eq(g),
            _ => false,
        },
        (TyRef::Of(x), TyRef::Fn(g)) => match x {
            Type::Function(f) => f.sig_eq(g),
            _ => false,
        },
        (TyRef::Unit, TyRef::Fn(_)) => false,
        (TyRef::Fn(_), TyRef::Unit) => false,
    }
}

#[verifier::loop_isolation(false)]
fn lookup_decl<'a>(decls: &'a Vec<Declaration>, name: &Identifier) -> (r: Result<
    &'a FunctionSignature,
    SemaError,
>)
    ensures
        match r {
            Result::Ok(sig) => spec_lookup_decl(decls@, name.spec_text()) == Result::<
                FunctionSignature,
                SemaError,
            >::Ok(*sig),
            Result::Err(e) => spec_lookup_decl(decls@, name.spec_text()) == Result::<
                FunctionSignature,
                SemaError,
            >::Err(e),
        },
{
    proof {
        assert(decls@.skip(0) =~= decls@);
    }
    let n: usize = decls.len();
    let mut i: usize = 0;
    while i < n
        invariant
            0 <= i <= n,
            n == decls.len(),
            spec_lookup_decl(decls@, name.spec_text()) == spec_lookup_decl(
                decls@.skip(i as int),
                name.spec_text(),
            ),
        decreases n - i,
    {
        proof {
            assert(decls@.skip(i as int).skip(1) =~= decls@.skip(i + 1));
        }
        if decls[i].name().id_eq(name) {
            let Declaration::Function { sig, .. } = &decls[i];
            return Result::Ok(sig);
        }
        i += 1;
    }
    Result::Err(SemaError::Unresolved)
}

#[verifier::loop_isolation(false)]
fn typeck_expr<'a>(
    declarations: &'a Vec<Declaration>,
    expr: &'a Expression,
    safety: Safety,
    ty: Option<TyRef<'a>>,
    return_ty: Option<TyRef<'a>>,
) -> (r: Result<TyRef<'a>, SemaError>)
    ensures
        tyr_result_matches(
            r,
            spec_typeck_expr(declarations@, *expr, safety, view_expect(ty), view_expect(return_ty)),
        ),
    decreases expr, 0nat,
{
    match expr {
        Expression::FunctionCall { func, args } => {
            let fty = match typeck_expr(declarations, func, safety, Option::None, return_ty) {
                Result::Ok(t) => t,
                Result::Err(e) => {
                    return Result::Err(e);
                }
            };
            let sig: &FunctionSignature = match fty {
                TyRef::Fn(sig) => sig,
                TyRef::Of(t) => match t {
                    Type::Function(sig) => sig,
                    _ => {
                        return Result::Err(SemaError::TypeMismatch);
                    }
                },
                TyRef::Unit => {
                    return Result::Err(SemaError::TypeMismatch);
                }
            };
            if sig.safety == Safety::Unsafe && safety == Safety::Safe {
                return Result::Err(SemaError::SafetyViolation);
            }
            if sig.params.len() != args.len() {
                return Result::Err(SemaError::ArityMismatch);
            }
            proof {
                assert(args@.skip(0) =~= args@);
                assert(sig.params@.skip(0) =~= sig.params@);
            }
            let n: usize = args.len();
            let mut i: usize = 0;
            while i < n
                invariant
                    0 <= i <= n,
                    n == args.len(),
                    n == sig.params.len(),
                    spec_typeck_args(
                        declarations@,
                        args@,
                        sig.params@,
                        safety,
                        view_expect(return_ty),
                    ) == spec_typeck_args(
                        declarations@,
                        args@.skip(i as int),
                        sig.params@.skip(i as int),
                        safety,
                        view_expect(return_ty),
                    ),
                decreases n - i,
            {
                proof {
                    assert(args@.skip(i as int).skip(1) =~= args@.skip(i + 1));
                    assert(sig.params@.skip(i as int).skip(1) =~= sig.params@.skip(i + 1));
                }
                match typeck_expr(
                    declarations,
                    &args[i],
                    safety,
                    Option::Some(TyRef::Of(&sig.params[i])),
                    return_ty,
                ) {
                    Result::Ok(_) => {}
                    Result::Err(e) => {
                        return Result::Err(e);
                    }
                }
                i += 1;
            }
            let out: TyRef<'a> = TyRef::Of(&sig.return_ty);
            match ty {
                Option::Some(want) => if tyr_eq(out, want) {
                    Result::Ok(out)
                } else {
                    Result::Err(SemaError::TypeMismatch)
                },
                Option::None => Result::Ok(out),
            }
        }
        Expression::Identifier(id) => match lookup_decl(declarations, id) {
            Result::Ok(sig) => Result::Ok(TyRef::Fn(sig)),
            Result::Err(e) => Result::Err(e),
        },
        Expression::UnsafeBlock(inner) => typeck_block(
            declarations,
            inner,
            Safety::Unsafe,
            ty,
            return_ty,
        ),
        _ => Result::Err(SemaError::Unsupported),
    }
}


#[verifier::loop_isolation(false)]
fn typeck_statement<'a>(
    declarations: &'a Vec<Declaration>,
    statement: &'a Statement,
    safety: Safety,
    ty: Option<TyRef<'a>>,
    return_ty: Option<TyRef<'a>>,
) -> (r: Result<TyRef<'a>, SemaError>)
    ensures
        tyr_result_matches(
            r,
            spec_typeck_statement(
                declarations@,
                *statement,
                safety,
                view_expect(ty),
                view_expect(return_ty),
            ),
        ),
    decreases statement, 2nat,
{
    match statement {
        Statement::Bind { .. } => Result::Err(SemaError::Unsupported),
        Statement::Discard(e) => match typeck_expr(
            declarations,
            e,
            safety,
            Option::None,
            return_ty,
        ) {
            Result::Ok(_) => Result::Ok(TyRef::Unit),
            Result::Err(e2) => Result::Err(e2),
        },
        Statement::Expression(e) => match typeck_expr(declarations, e, safety, ty, return_ty) {
            Result::Ok(t) => match ty {
                Option::Some(want) => if tyr_eq(t, want) {
                    Result::Ok(t)
                } else {
                    Result::Err(SemaError::TypeMismatch)
                },
                Option::None => Result::Ok(t),
            },
            Result::Err(e2) => Result::Err(e2),
        },
    }
}

#[verifier::loop_isolation(false)]
fn typeck_block<'a>(
    declarations: &'a Vec<Declaration>,
    block: &'a Vec<Statement>,
    safety: Safety,
    ty: Option<TyRef<'a>>,
    return_ty: Option<TyRef<'a>>,
) -> (r: Result<TyRef<'a>, SemaError>)
    ensures
        tyr_result_matches(
            r,
            spec_typeck_block(
                declarations@,
                block@,
                safety,
                view_expect(ty),
                view_expect(return_ty),
            ),
        ),
    decreases block@, 3nat,
{
    let n: usize = block.len();
    let result: TyRef<'a> = if n == 0 {
        TyRef::Unit
    } else {
        proof {
            assert(block@.take(n - 1).skip(0) =~= block@.take(n - 1));
        }
        let mut i: usize = 0;
        while i < n - 1
            invariant
                0 <= i <= n - 1,
                n == block.len(),
                n >= 1,
                spec_typeck_bulk(
                    declarations@,
                    block@.take(n - 1),
                    safety,
                    view_expect(return_ty),
                ) == spec_typeck_bulk(
                    declarations@,
                    block@.take(n - 1).skip(i as int),
                    safety,
                    view_expect(return_ty),
                ),
            decreases n - 1 - i,
        {
            proof {
                assert(block@.take(n - 1).skip(i as int)[0] == block@[i as int]);
                assert(block@.take(n - 1).skip(i as int).skip(1) =~= block@.take(n - 1).skip(
                    i + 1,
                ));
            }
            match typeck_statement(declarations, &block[i], safety, Option::None, return_ty) {
                Result::Ok(t) => {
                    if !tyr_eq(t, TyRef::Unit) {
                        return Result::Err(SemaError::TypeMismatch);
                    }
                }
                Result::Err(e2) => {
                    return Result::Err(e2);
                }
            }
            i += 1;
        }
        match typeck_statement(declarations, &block[n - 1], safety, ty, return_ty) {
            Result::Ok(t) => t,
            Result::Err(e2) => {
                return Result::Err(e2);
            }
        }
    };
    match ty {
        Option::Some(want) => if tyr_eq(result, want) {
            Result::Ok(result)
        } else {
            Result::Err(SemaError::TypeMismatch)
        },
        Option::None => Result::Ok(result),
    }
}

fn typeck_definition<'a>(
    declarations: &'a Vec<Declaration>,
    definition: &'a Definition,
) -> (r: Result<(), SemaError>)
    ensures
        r == spec_typeck_definition(declarations@, *definition),
{
    let Definition::Function { return_ty, body, .. } = definition;
    match typeck_block(
        declarations,
        body,
        Safety::Safe,
        Option::Some(TyRef::Of(return_ty)),
        Option::Some(TyRef::Of(return_ty)),
    ) {
        Result::Ok(_) => Result::Ok(()),
        Result::Err(e) => Result::Err(e),
    }
}

/// Type-checks every definition of a program against its declarations; the
/// first fault wins.
#[verifier::loop_isolation(false)]
pub fn typeck_program(program: &Program) -> (r: Result<(), SemaError>)
    ensures
        r == spec_typeck_defs(program.declarations@, program.definitions@, 0),
{
    let n: usize = program.definitions.len();
    let mut i: usize = 0;
    while i < n
        invariant
            0 <= i <= n,
            n == program.definitions.len(),
            spec_typeck_defs(program.declarations@, program.definitions@, 0)
                == spec_typeck_defs(program.declarations@, program.definitions@, i as int),
        decreases n - i,
    {
        match typeck_definition(&program.declarations, &program.definitions[i]) {
            Result::Ok(_) => {}
            Result::Err(e) => {
                return Result::Err(e);
            }
        }
        i += 1;
    }
    Result::Ok(())
}

} // verus!
