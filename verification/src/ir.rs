//! The typed IR data model: paths, scopes, members, types, constant values,
//! stack-machine instructions, blocks, and the file-level container.
//!
//! Each recursive data type has a mathematical mirror (`Spec...`) reached
//! through `deep_view`; the validator's contracts are stated over these
//! mirrors so that two structurally equal values are equal in specifications
//! even when they were built by different clones.

use vstd::prelude::*;

verus! {

// ---------------------------------------------------------------------------
// Paths
// ---------------------------------------------------------------------------

/// One component of a global symbol path: the root marker, a plain text
/// segment, or a reserved segment.
#[derive(Clone, Debug, Hash, PartialEq, Eq)]
pub enum PathComponent {
    Root,
    Text(String),
    SpecialComponent(String),
}

/// An ordered sequence of components identifying a global symbol.
#[derive(Clone, Debug, Hash, PartialEq, Eq)]
pub struct Path {
    pub components: Vec<PathComponent>,
}

pub enum SpecPathComponent {
    Root,
    Text(Seq<char>),
    SpecialComponent(Seq<char>),
}

pub type SpecPath = Seq<SpecPathComponent>;

impl DeepView for PathComponent {
    type V = SpecPathComponent;

    open spec fn deep_view(&self) -> SpecPathComponent {
        match self {
            PathComponent::Root => SpecPathComponent::Root,
            PathComponent::Text(s) => SpecPathComponent::Text(s.deep_view()),
            PathComponent::SpecialComponent(s) => SpecPathComponent::SpecialComponent(
                s.deep_view(),
            ),
        }
    }
}

impl DeepView for Path {
    type V = SpecPath;

    open spec fn deep_view(&self) -> SpecPath {
        self.components.deep_view()
    }
}

impl PathComponent {
    /// Structural equality of two path components.
    pub fn eq_deep(&self, other: &PathComponent) -> (r: bool)
        ensures
            r == (self.deep_view() == other.deep_view()),
    {
        match (self, other) {
            (PathComponent::Root, PathComponent::Root) => true,
            (PathComponent::Text(a), PathComponent::Text(b)) => *a == *b,
            (PathComponent::SpecialComponent(a), PathComponent::SpecialComponent(b)) => (
                *a == *b
            ),
            _ => false,
        }
    }

    /// A structural copy.
    pub fn clone_deep(&self) -> (r: PathComponent)
        ensures
            r.deep_view() == self.deep_view(),
    {
        match self {
            PathComponent::Root => PathComponent::Root,
            PathComponent::Text(s) => PathComponent::Text(s.clone()),
            PathComponent::SpecialComponent(s) => PathComponent::SpecialComponent(s.clone()),
        }
    }
}

impl Path {
    /// Structural equality of two paths.
    pub fn eq_deep(&self, other: &Path) -> (r: bool)
        ensures
            r == (self.deep_view() == other.deep_view()),
    {
        if self.components.len() != other.components.len() {
            assert(self.deep_view().len() != other.deep_view().len());
            return false;
        }
        let n: usize = self.components.len();
        let mut i: usize = 0;
        while i < n
            invariant
                0 <= i <= n,
                n == self.components.len(),
                n == other.components.len(),
                forall|j: int| 0 <= j < i ==> self.deep_view()[j] == other.deep_view()[j],
            decreases n - i,
        {
            if !self.components[i].eq_deep(&other.components[i]) {
                assert(self.deep_view()[i as int] != other.deep_view()[i as int]);
                return false;
            }
            i += 1;
        }
        assert(self.deep_view() =~= other.deep_view());
        true
    }

    /// A structural copy.
    pub fn clone_deep(&self) -> (r: Path)
        ensures
            r.deep_view() == self.deep_view(),
    {
        let mut components: Vec<PathComponent> = Vec::new();
        let n: usize = self.components.len();
        let mut i: usize = 0;
        while i < n
            invariant
                0 <= i <= n,
                n == self.components.len(),
                components.len() == i,
                forall|j: int| 0 <= j < i ==> components.deep_view()[j] == self.deep_view()[j],
            decreases n - i,
        {
            components.push(self.components[i].clone_deep());
            i += 1;
        }
        let r = Path { components };
        assert(r.deep_view() =~= self.deep_view());
        r
    }
}

// ---------------------------------------------------------------------------
// Annotations
// ---------------------------------------------------------------------------

/// One item of an annotation: either a nested annotation or a path.
#[derive(Debug)]
pub enum AnnotationItem {
    Meta(Box<Annotation>),
    Identifier(Path),
}

/// A structured annotation attached to declarations and aggregate types.
#[derive(Debug)]
pub struct Annotation {
    pub items: Vec<AnnotationItem>,
}

/// The annotations carried by an annotatable element.
#[derive(Debug)]
pub struct AnnotatedElement {
    pub annotations: Vec<Annotation>,
}

#[verifier::ext_equal]
pub enum SpecAnnotationItem {
    Meta(SpecAnnotation),
    Identifier(SpecPath),
}

#[verifier::ext_equal]
pub struct SpecAnnotation {
    pub items: Seq<SpecAnnotationItem>,
}

pub open spec fn view_annotation_item(a: AnnotationItem) -> SpecAnnotationItem
    decreases a,
{
    match a {
        AnnotationItem::Meta(b) => SpecAnnotationItem::Meta(view_annotation(*b)),
        AnnotationItem::Identifier(p) => SpecAnnotationItem::Identifier(p.deep_view()),
    }
}

pub open spec fn view_annotation_items(v: Seq<AnnotationItem>) -> Seq<SpecAnnotationItem>
    decreases v,
{
    if v.len() == 0 {
        Seq::empty()
    } else {
        view_annotation_items(v.subrange(0, v.len() - 1)).push(
            view_annotation_item(v[v.len() - 1]),
        )
    }
}

/// The mirror of an annotation sequence is the sequence of the mirrors.
pub broadcast proof fn lemma_view_annotation_items(v: Seq<AnnotationItem>)
    ensures
        (#[trigger] view_annotation_items(v)).len() == v.len(),
        forall|i: int| 0 <= i < v.len()
            ==> view_annotation_items(v)[i] == view_annotation_item(v[i]),
    decreases v.len(),
{
    if v.len() > 0 {
        lemma_view_annotation_items(v.subrange(0, v.len() - 1));
    }
}

pub open spec fn view_annotation(a: Annotation) -> SpecAnnotation
    decreases a,
{
    SpecAnnotation { items: view_annotation_items(a.items@) }
}

impl DeepView for AnnotationItem {
    type V = SpecAnnotationItem;

    open spec fn deep_view(&self) -> SpecAnnotationItem {
        view_annotation_item(*self)
    }
}

impl DeepView for Annotation {
    type V = SpecAnnotation;

    open spec fn deep_view(&self) -> SpecAnnotation {
        view_annotation(*self)
    }
}

impl DeepView for AnnotatedElement {
    type V = Seq<SpecAnnotation>;

    open spec fn deep_view(&self) -> Seq<SpecAnnotation> {
        Seq::new(self.annotations@.len(), |i: int| view_annotation(self.annotations@[i]))
    }
}

// ---------------------------------------------------------------------------
// Scalar types
// ---------------------------------------------------------------------------

/// Validity restrictions a scalar type may assert about its values.
#[derive(Clone, Copy, Debug, Default, Hash, PartialEq, Eq, Structural)]
pub struct ScalarValidity {
    pub nonzero: bool,
    pub finite: bool,
    pub nonnan: bool,
}

/// The header shared by all scalar types: bit width, vector width, and
/// validity restrictions.
#[derive(Clone, Copy, Debug, Default, Hash, PartialEq, Eq, Structural)]
pub struct ScalarTypeHeader {
    pub bitsize: u16,
    pub vectorsize: u16,
    pub validity: ScalarValidity,
}

/// Properties of a character scalar type.
#[derive(Clone, Copy, Debug, Default, Hash, PartialEq, Eq, Structural)]
pub struct CharFlags {
    pub signed: bool,
    pub unicode: bool,
}

/// The kind of a scalar type together with its kind-specific properties.
#[derive(Clone, Copy, Debug, Hash, PartialEq, Eq)]
pub enum ScalarTypeKind {
    Empty,
    Integer { signed: bool, min: Option<i128>, max: Option<i128> },
    Float { decimal: bool },
    Fixed { fractbits: u16 },
    Char { flags: CharFlags },
    LongFloat,
}

/// A scalar type: header plus kind.
#[derive(Clone, Copy, Debug, Hash, PartialEq, Eq)]
pub struct ScalarType {
    pub header: ScalarTypeHeader,
    pub kind: ScalarTypeKind,
}

impl Default for ScalarTypeKind {
    /// The default scalar kind carries no information.
    fn default() -> (r: Self)
        ensures
            r == ScalarTypeKind::Empty,
    {
        Self::Empty
    }
}

// ---------------------------------------------------------------------------
// Types
// ---------------------------------------------------------------------------

/// How a pointer may alias other pointers.
#[derive(Clone, Copy, Debug, Default, Hash, PartialEq, Eq, Structural)]
pub enum PointerAliasingRule {
    #[default]
    Empty,
    Unique,
    ReadOnly,
    ReadShallow,
    Invalid,
    Nonnull,
    Volatile,
    VolatileWrite,
    NullOrInvalid,
}

/// The range of addresses a pointer promises to keep valid.
#[derive(Clone, Copy, Debug, Default, Hash, PartialEq, Eq, Structural)]
pub enum ValidRangeType {
    #[default]
    Empty,
    Dereference,
    DereferenceWrite,
    WriteOnly,
    NullOrDereference,
    NullOrDereferenceWrite,
    NullOrWriteOnly,
}

/// A calling-convention tag.
#[derive(Clone, Copy, Debug, Hash, PartialEq, Eq, Structural)]
pub enum Abi {
    C,
    Cdecl,
    Fastcall,
    Stdcall,
    Vectorcall,
    Thiscall,
    SysV,
}

/// Whether an aggregate lays its fields out side by side or overlapped.
#[derive(Clone, Copy, Debug, Hash, PartialEq, Eq, Structural)]
pub enum AggregateKind {
    Struct,
    Union,
}

/// A valid-range annotation: the range kind and its extent in bytes.
#[derive(Clone, Copy, Debug, Default, Hash, PartialEq, Eq, Structural)]
pub struct ValidRange {
    pub kind: ValidRangeType,
    pub extent: u64,
}

/// A pointer type: aliasing rule, valid-range annotation, and pointee.
#[derive(Debug)]
pub struct PointerType {
    pub alias: PointerAliasingRule,
    pub valid_range: ValidRange,
    pub inner: Box<Type>,
}

/// A function type: return type, ordered parameters, calling convention, and
/// the variadic flag.
#[derive(Debug)]
pub struct FnType {
    pub ret: Type,
    pub params: Vec<Type>,
    pub tag: Abi,
    pub variadic: bool,
}

/// An inline aggregate definition: ordered name/type fields plus kind and
/// annotations.
#[derive(Debug)]
pub struct AggregateDefinition {
    pub annotations: AnnotatedElement,
    pub kind: AggregateKind,
    pub fields: Vec<(String, Type)>,
}

/// An array type: element type and a length given as a constant value.
#[derive(Debug)]
pub struct ArrayType {
    pub ty: Type,
    pub len: Value,
}

/// A type of the IR.
#[derive(Debug)]
pub enum Type {
    /// The unknown/wildcard placeholder; unifies with anything.
    Null,
    Scalar(ScalarType),
    Void,
    FnType(Box<FnType>),
    Pointer(PointerType),
    /// A non-owning reference into the global type table.
    Named(Path),
    Aggregate(AggregateDefinition),
    /// An anonymous tuple of types.
    Product(Vec<Type>),
    Array(Box<ArrayType>),
    /// A transparent wrapper carrying a tag; structurally equal to its inner
    /// type for unification purposes.
    TaggedType(u16, Box<Type>),
    /// A transparent wrapper carrying an alignment value.
    Aligned(Box<Value>, Box<Type>),
}

/// A constant operand.
#[derive(Debug)]
pub enum Value {
    Invalid(Type),
    Uninitialized(Type),
    GenericParameter(u32),
    Integer { ty: ScalarType, val: u128 },
    /// The type is lazily filled from the global type table when left `Null`.
    GlobalAddress { ty: Type, item: Path },
    ByteString { content: Vec<u8> },
    String { encoding: u16, utf8: String, ty: Type },
    LabelAddress(u32),
}

#[verifier::ext_equal]
pub struct SpecPointerType {
    pub alias: PointerAliasingRule,
    pub valid_range: ValidRange,
    pub inner: Box<SpecType>,
}

#[verifier::ext_equal]
pub struct SpecFnType {
    pub ret: Box<SpecType>,
    pub params: Seq<SpecType>,
    pub tag: Abi,
    pub variadic: bool,
}

#[verifier::ext_equal]
pub struct SpecAggregateDefinition {
    pub annotations: Seq<SpecAnnotation>,
    pub kind: AggregateKind,
    pub fields: Seq<(Seq<char>, SpecType)>,
}

#[verifier::ext_equal]
pub struct SpecArrayType {
    pub ty: Box<SpecType>,
    pub len: Box<SpecValue>,
}

#[verifier::ext_equal]
pub enum SpecType {
    Null,
    Scalar(ScalarType),
    Void,
    FnType(SpecFnType),
    Pointer(SpecPointerType),
    Named(SpecPath),
    Aggregate(SpecAggregateDefinition),
    Product(Seq<SpecType>),
    Array(SpecArrayType),
    TaggedType(u16, Box<SpecType>),
    Aligned(Box<SpecValue>, Box<SpecType>),
}

#[verifier::ext_equal]
pub enum SpecValue {
    Invalid(Box<SpecType>),
    Uninitialized(Box<SpecType>),
    GenericParameter(u32),
    Integer { ty: ScalarType, val: u128 },
    GlobalAddress { ty: Box<SpecType>, item: SpecPath },
    ByteString { content: Seq<u8> },
    String { encoding: u16, utf8: Seq<char>, ty: Box<SpecType> },
    LabelAddress(u32),
}

pub open spec fn view_pointer_type(p: PointerType) -> SpecPointerType
    decreases p,
{
    SpecPointerType {
        alias: p.alias,
        valid_range: p.valid_range,
        inner: Box::new(view_type(*p.inner)),
    }
}

pub open spec fn view_fn_type(f: FnType) -> SpecFnType
    decreases f,
{
    SpecFnType {
        ret: Box::new(view_type(f.ret)),
        params: view_types(f.params@),
        tag: f.tag,
        variadic: f.variadic,
    }
}

pub open spec fn view_aggregate_definition(a: AggregateDefinition) -> SpecAggregateDefinition
    decreases a,
{
    SpecAggregateDefinition {
        annotations: a.annotations.deep_view(),
        kind: a.kind,
        fields: view_fields(a.fields@),
    }
}

pub open spec fn view_types(v: Seq<Type>) -> Seq<SpecType>
    decreases v,
{
    if v.len() == 0 {
        Seq::empty()
    } else {
        view_types(v.subrange(0, v.len() - 1)).push(view_type(v[v.len() - 1]))
    }
}

/// The mirror of a type sequence is the sequence of the mirrors.
pub broadcast proof fn lemma_view_types(v: Seq<Type>)
    ensures
        (#[trigger] view_types(v)).len() == v.len(),
        forall|i: int| 0 <= i < v.len() ==> view_types(v)[i] == view_type(v[i]),
    decreases v.len(),
{
    if v.len() > 0 {
        lemma_view_types(v.subrange(0, v.len() - 1));
    }
}

pub open spec fn view_fields(v: Seq<(String, Type)>) -> Seq<(Seq<char>, SpecType)>
    decreases v,
{
    if v.len() == 0 {
        Seq::empty()
    } else {
        view_fields(v.subrange(0, v.len() - 1)).push(
            (v[v.len() - 1].0.deep_view(), view_type(v[v.len() - 1].1)),
        )
    }
}

/// The mirror of a field list is the list of the mirrored fields.
pub broadcast proof fn lemma_view_fields(v: Seq<(String, Type)>)
    ensures
        (#[trigger] view_fields(v)).len() == v.len(),
        forall|i: int| 0 <= i < v.len()
            ==> view_fields(v)[i] == (v[i].0.deep_view(), view_type(v[i].1)),
    decreases v.len(),
{
    if v.len() > 0 {
        lemma_view_fields(v.subrange(0, v.len() - 1));
    }
}

pub open spec fn view_type(t: Type) -> SpecType
    decreases t,
{
    match t {
        Type::Null => SpecType::Null,
        Type::Scalar(s) => SpecType::Scalar(s),
        Type::Void => SpecType::Void,
        Type::FnType(f) => SpecType::FnType(view_fn_type(*f)),
        Type::Pointer(p) => SpecType::Pointer(view_pointer_type(p)),
        Type::Named(p) => SpecType::Named(p.deep_view()),
        Type::Aggregate(a) => SpecType::Aggregate(view_aggregate_definition(a)),
        Type::Product(v) => SpecType::Product(view_types(v@)),
        Type::Array(a) => SpecType::Array(
            SpecArrayType {
                ty: Box::new(view_type((*a).ty)),
                len: Box::new(view_value((*a).len)),
            },
        ),
        Type::TaggedType(tag, inner) => SpecType::TaggedType(tag, Box::new(view_type(*inner))),
        Type::Aligned(v, inner) => SpecType::Aligned(
            Box::new(view_value(*v)),
            Box::new(view_type(*inner)),
        ),
    }
}

pub open spec fn view_value(v: Value) -> SpecValue
    decreases v,
{
    match v {
        Value::Invalid(t) => SpecValue::Invalid(Box::new(view_type(t))),
        Value::Uninitialized(t) => SpecValue::Uninitialized(Box::new(view_type(t))),
        Value::GenericParameter(n) => SpecValue::GenericParameter(n),
        Value::Integer { ty, val } => SpecValue::Integer { ty, val },
        Value::GlobalAddress { ty, item } => SpecValue::GlobalAddress {
            ty: Box::new(view_type(ty)),
            item: item.deep_view(),
        },
        Value::ByteString { content } => SpecValue::ByteString { content: content.deep_view() },
        Value::String { encoding, utf8, ty } => SpecValue::String {
            encoding,
            utf8: utf8.deep_view(),
            ty: Box::new(view_type(ty)),
        },
        Value::LabelAddress(n) => SpecValue::LabelAddress(n),
    }
}

impl DeepView for PointerType {
    type V = SpecPointerType;

    open spec fn deep_view(&self) -> SpecPointerType {
        view_pointer_type(*self)
    }
}

impl DeepView for FnType {
    type V = SpecFnType;

    open spec fn deep_view(&self) -> SpecFnType {
        view_fn_type(*self)
    }
}

impl DeepView for AggregateDefinition {
    type V = SpecAggregateDefinition;

    open spec fn deep_view(&self) -> SpecAggregateDefinition {
        view_aggregate_definition(*self)
    }
}

impl DeepView for ArrayType {
    type V = SpecArrayType;

    open spec fn deep_view(&self) -> SpecArrayType {
        SpecArrayType {
            ty: Box::new(view_type(self.ty)),
            len: Box::new(view_value(self.len)),
        }
    }
}

impl DeepView for Type {
    type V = SpecType;

    open spec fn deep_view(&self) -> SpecType {
        view_type(*self)
    }
}

impl DeepView for Value {
    type V = SpecValue;

    open spec fn deep_view(&self) -> SpecValue {
        view_value(*self)
    }
}

// ---------------------------------------------------------------------------
// Structural equality and structural copies
// ---------------------------------------------------------------------------

impl AnnotationItem {
    /// Structural equality of two annotation items.
    pub fn eq_deep(&self, other: &AnnotationItem) -> (r: bool)
        ensures
            r == (self.deep_view() == other.deep_view()),
        decreases *self,
    {
        match (self, other) {
            (AnnotationItem::Meta(a), AnnotationItem::Meta(b)) => a.eq_deep(b),
            (AnnotationItem::Identifier(a), AnnotationItem::Identifier(b)) => a.eq_deep(b),
            _ => false,
        }
    }

    /// A structural copy.
    pub fn clone_deep(&self) -> (r: AnnotationItem)
        ensures
            r.deep_view() == self.deep_view(),
        decreases *self,
    {
        match self {
            AnnotationItem::Meta(a) => AnnotationItem::Meta(Box::new(a.clone_deep())),
            AnnotationItem::Identifier(p) => AnnotationItem::Identifier(p.clone_deep()),
        }
    }
}

impl Annotation {
    /// Structural equality of two annotations.
    #[verifier::loop_isolation(false)]
    pub fn eq_deep(&self, other: &Annotation) -> (r: bool)
        ensures
            r == (self.deep_view() == other.deep_view()),
        decreases *self,
    {
        proof {
            lemma_view_annotation_items(self.items@);
            lemma_view_annotation_items(other.items@);
        }
        if self.items.len() != other.items.len() {
            return false;
        }
        let n: usize = self.items.len();
        let mut i: usize = 0;
        while i < n
            invariant
                0 <= i <= n,
                n == self.items.len(),
                n == other.items.len(),
                forall|j: int| 0 <= j < i
                    ==> view_annotation_item(self.items@[j]) == view_annotation_item(
                        other.items@[j],
                    ),
            decreases n - i,
        {
            if !self.items[i].eq_deep(&other.items[i]) {
                proof {
                    lemma_view_annotation_items(self.items@);
                    lemma_view_annotation_items(other.items@);
                    assert(view_annotation_items(self.items@)[i as int] != view_annotation_items(
                        other.items@,
                    )[i as int]);
                }
                return false;
            }
            i += 1;
        }
        proof {
            lemma_view_annotation_items(self.items@);
            lemma_view_annotation_items(other.items@);
            assert(self.deep_view().items =~= other.deep_view().items);
        }
        true
    }

    /// A structural copy.
    pub fn clone_deep(&self) -> (r: Annotation)
        ensures
            r.deep_view() == self.deep_view(),
        decreases *self,
    {
        let mut items: Vec<AnnotationItem> = Vec::new();
        let n: usize = self.items.len();
        let mut i: usize = 0;
        while i < n
            invariant
                0 <= i <= n,
                n == self.items.len(),
                items.len() == i,
                forall|j: int| 0 <= j < i
                    ==> view_annotation_item(items@[j]) == view_annotation_item(self.items@[j]),
            decreases n - i,
        {
            items.push(self.items[i].clone_deep());
            i += 1;
        }
        let r = Annotation { items };
        proof {
            lemma_view_annotation_items(r.items@);
            lemma_view_annotation_items(self.items@);
            assert(r.deep_view().items =~= self.deep_view().items);
        }
        r
    }
}

impl AnnotatedElement {
    /// Structural equality of two annotation lists.
    pub fn eq_deep(&self, other: &AnnotatedElement) -> (r: bool)
        ensures
            r == (self.deep_view() == other.deep_view()),
    {
        if self.annotations.len() != other.annotations.len() {
            return false;
        }
        let n: usize = self.annotations.len();
        let mut i: usize = 0;
        while i < n
            invariant
                0 <= i <= n,
                n == self.annotations.len(),
                n == other.annotations.len(),
                forall|j: int| 0 <= j < i ==> self.deep_view()[j] == other.deep_view()[j],
            decreases n - i,
        {
            if !self.annotations[i].eq_deep(&other.annotations[i]) {
                assert(self.deep_view()[i as int] != other.deep_view()[i as int]);
                return false;
            }
            i += 1;
        }
        assert(self.deep_view() =~= other.deep_view());
        true
    }

    /// A structural copy.
    pub fn clone_deep(&self) -> (r: AnnotatedElement)
        ensures
            r.deep_view() == self.deep_view(),
    {
        let mut annotations: Vec<Annotation> = Vec::new();
        let n: usize = self.annotations.len();
        let mut i: usize = 0;
        while i < n
            invariant
                0 <= i <= n,
                n == self.annotations.len(),
                annotations.len() == i,
                forall|j: int| 0 <= j < i
                    ==> annotations.deep_view()[j] == self.deep_view()[j],
            decreases n - i,
        {
            annotations.push(self.annotations[i].clone_deep());
            i += 1;
        }
        let r = AnnotatedElement { annotations };
        assert(r.deep_view() =~= self.deep_view());
        r
    }
}

impl Type {
    /// A structural copy.
    #[verifier::loop_isolation(false)]
    pub fn clone_deep(&self) -> (r: Type)
        ensures
            r.deep_view() == self.deep_view(),
        decreases *self,
    {
        match self {
            Type::Null => Type::Null,
            Type::Scalar(s) => Type::Scalar(*s),
            Type::Void => Type::Void,
            Type::FnType(f) => Type::FnType(Box::new(f.clone_deep())),
            Type::Pointer(p) => Type::Pointer(p.clone_deep()),
            Type::Named(p) => Type::Named(p.clone_deep()),
            Type::Aggregate(a) => Type::Aggregate(a.clone_deep()),
            Type::Product(v) => {
                let mut out: Vec<Type> = Vec::new();
                let n: usize = v.len();
                let mut i: usize = 0;
                while i < n
                    invariant
                        0 <= i <= n,
                        n == v.len(),
                        out.len() == i,
                        forall|j: int| 0 <= j < i
                            ==> view_type(out@[j]) == view_type(v@[j]),
                    decreases n - i,
                {
                    out.push(v[i].clone_deep());
                    i += 1;
                }
                proof {
                    lemma_view_types(out@);
                    lemma_view_types(v@);
                    assert(view_types(out@) =~= view_types(v@));
                }
                Type::Product(out)
            }
            Type::Array(a) => Type::Array(
                Box::new(ArrayType { ty: a.ty.clone_deep(), len: a.len.clone_deep() }),
            ),
            Type::TaggedType(tag, inner) => Type::TaggedType(*tag, Box::new(inner.clone_deep())),
            Type::Aligned(v, inner) => Type::Aligned(
                Box::new(v.clone_deep()),
                Box::new(inner.clone_deep()),
            ),
        }
    }
}

impl FnType {
    /// A structural copy.
    pub fn clone_deep(&self) -> (r: FnType)
        ensures
            r.deep_view() == self.deep_view(),
        decreases *self,
    {
        let mut params: Vec<Type> = Vec::new();
        let n: usize = self.params.len();
        let mut i: usize = 0;
        while i < n
            invariant
                0 <= i <= n,
                n == self.params.len(),
                params.len() == i,
                forall|j: int| 0 <= j < i
                    ==> view_type(params@[j]) == view_type(self.params@[j]),
            decreases n - i,
        {
            params.push(self.params[i].clone_deep());
            i += 1;
        }
        let r = FnType {
            ret: self.ret.clone_deep(),
            params,
            tag: self.tag,
            variadic: self.variadic,
        };
        proof {
            lemma_view_types(r.params@);
            lemma_view_types(self.params@);
            assert(view_types(r.params@) =~= view_types(self.params@));
        }
        r
    }
}

impl PointerType {
    /// A structural copy.
    pub fn clone_deep(&self) -> (r: PointerType)
        ensures
            r.deep_view() == self.deep_view(),
        decreases *self,
    {
        PointerType {
            alias: self.alias,
            valid_range: self.valid_range,
            inner: Box::new(self.inner.clone_deep()),
        }
    }
}

impl AggregateDefinition {
    /// A structural copy.
    pub fn clone_deep(&self) -> (r: AggregateDefinition)
        ensures
            r.deep_view() == self.deep_view(),
        decreases *self,
    {
        let mut fields: Vec<(String, Type)> = Vec::new();
        let n: usize = self.fields.len();
        let mut i: usize = 0;
        while i < n
            invariant
                0 <= i <= n,
                n == self.fields.len(),
                fields.len() == i,
                forall|j: int| 0 <= j < i
                    ==> fields@[j].0@ == self.fields@[j].0@ && view_type(fields@[j].1)
                        == view_type(self.fields@[j].1),
            decreases n - i,
        {
            let name = self.fields[i].0.clone();
            let ty = self.fields[i].1.clone_deep();
            fields.push((name, ty));
            i += 1;
        }
        let r = AggregateDefinition {
            annotations: self.annotations.clone_deep(),
            kind: self.kind,
            fields,
        };
        proof {
            lemma_view_fields(r.fields@);
            lemma_view_fields(self.fields@);
            assert(view_fields(r.fields@) =~= view_fields(self.fields@));
        }
        r
    }
}

impl Value {
    /// A structural copy.
    pub fn clone_deep(&self) -> (r: Value)
        ensures
            r.deep_view() == self.deep_view(),
        decreases *self,
    {
        match self {
            Value::Invalid(t) => Value::Invalid(t.clone_deep()),
            Value::Uninitialized(t) => Value::Uninitialized(t.clone_deep()),
            Value::GenericParameter(n) => Value::GenericParameter(*n),
            Value::Integer { ty, val } => Value::Integer { ty: *ty, val: *val },
            Value::GlobalAddress { ty, item } => Value::GlobalAddress {
                ty: ty.clone_deep(),
                item: item.clone_deep(),
            },
            Value::ByteString { content } => {
                let mut out: Vec<u8> = Vec::new();
                let n: usize = content.len();
                let mut i: usize = 0;
                while i < n
                    invariant
                        0 <= i <= n,
                        n == content.len(),
                        out.len() == i,
                        forall|j: int| 0 <= j < i ==> out@[j] == content@[j],
                    decreases n - i,
                {
                    out.push(content[i]);
                    i += 1;
                }
                proof {
                    assert(out.deep_view() =~= content.deep_view());
                }
                Value::ByteString { content: out }
            }
            Value::String { encoding, utf8, ty } => Value::String {
                encoding: *encoding,
                utf8: utf8.clone(),
                ty: ty.clone_deep(),
            },
            Value::LabelAddress(n) => Value::LabelAddress(*n),
        }
    }
}

// ---------------------------------------------------------------------------
// Stack items and instructions
// ---------------------------------------------------------------------------

/// Whether a stack item is an addressable storage location or a transient
/// computed value.
#[derive(Clone, Copy, Debug, Hash, PartialEq, Eq, Structural)]
pub enum StackValueKind {
    LValue,
    RValue,
}

/// One item of the simulated operand stack: a type tagged as l-value or
/// r-value.
#[derive(Debug)]
pub struct StackItem {
    pub ty: Type,
    pub kind: StackValueKind,
}

#[verifier::ext_equal]
pub struct SpecStackItem {
    pub ty: SpecType,
    pub kind: StackValueKind,
}

impl DeepView for StackItem {
    type V = SpecStackItem;

    open spec fn deep_view(&self) -> SpecStackItem {
        SpecStackItem { ty: view_type(self.ty), kind: self.kind }
    }
}

impl StackItem {
    /// A structural copy.
    pub fn clone_deep(&self) -> (r: StackItem)
        ensures
            r.deep_view() == self.deep_view(),
    {
        StackItem { ty: self.ty.clone_deep(), kind: self.kind }
    }
}

pub open spec fn view_stack(v: Seq<StackItem>) -> Seq<SpecStackItem>
    decreases v,
{
    if v.len() == 0 {
        Seq::empty()
    } else {
        view_stack(v.subrange(0, v.len() - 1)).push(v[v.len() - 1].deep_view())
    }
}

/// The mirror of a stack is the sequence of the mirrored items.
pub broadcast proof fn lemma_view_stack(v: Seq<StackItem>)
    ensures
        (#[trigger] view_stack(v)).len() == v.len(),
        forall|i: int| 0 <= i < v.len() ==> view_stack(v)[i] == v[i].deep_view(),
    decreases v.len(),
{
    if v.len() > 0 {
        lemma_view_stack(v.subrange(0, v.len() - 1));
    }
}

/// Mirroring a stack distributes over appending one item.
pub broadcast proof fn lemma_view_stack_push(v: Seq<StackItem>, x: StackItem)
    ensures
        #[trigger] view_stack(v.push(x)) == view_stack(v).push(x.deep_view()),
{
    lemma_view_stack(v.push(x));
    lemma_view_stack(v);
    assert(view_stack(v.push(x)) =~= view_stack(v).push(x.deep_view()));
}

/// Mirroring a stack distributes over concatenation.
pub broadcast proof fn lemma_view_stack_concat(a: Seq<StackItem>, b: Seq<StackItem>)
    ensures
        #[trigger] view_stack(a + b) == view_stack(a) + view_stack(b),
{
    lemma_view_stack(a + b);
    lemma_view_stack(a);
    lemma_view_stack(b);
    assert(view_stack(a + b) =~= view_stack(a) + view_stack(b));
}

/// Appends structural copies of `src` to `dst`.
#[verifier::loop_isolation(false)]
pub fn extend_stack_clone(dst: &mut Vec<StackItem>, src: &Vec<StackItem>)
    ensures
        final(dst)@.len() == old(dst)@.len() + src@.len(),
        view_stack(final(dst)@) == view_stack(old(dst)@) + view_stack(src@),
{
    let base: usize = dst.len();
    let n: usize = src.len();
    let mut i: usize = 0;
    while i < n
        invariant
            0 <= i <= n,
            dst@.len() == base + i,
            forall|j: int| 0 <= j < base ==> dst@[j].deep_view() == old(dst)@[j].deep_view(),
            forall|j: int| 0 <= j < i ==> dst@[base + j].deep_view() == src@[j].deep_view(),
        decreases n - i,
    {
        dst.push(src[i].clone_deep());
        i += 1;
    }
    proof {
        lemma_view_stack(dst@);
        lemma_view_stack(old(dst)@);
        lemma_view_stack(src@);
        assert(view_stack(dst@) =~= view_stack(old(dst)@) + view_stack(src@));
    }
}

/// A binary operator.
#[derive(Clone, Copy, Debug, Hash, PartialEq, Eq, Structural)]
pub enum BinaryOp {
    Add,
    Sub,
    Mul,
    Div,
    Mod,
    BitAnd,
    BitOr,
    BitXor,
    Rsh,
    Lsh,
    Cmp,
    CmpInt,
    CmpLt,
    CmpGt,
    CmpEq,
    CmpNe,
    CmpGe,
    CmpLe,
}

/// A unary operator.
#[derive(Clone, Copy, Debug, Hash, PartialEq, Eq, Structural)]
pub enum UnaryOp {
    Minus,
    BitNot,
    LogicNot,
}

/// What an arithmetic instruction does when the exact result does not fit.
#[derive(Clone, Copy, Debug, Hash, PartialEq, Eq, Structural)]
pub enum OverflowBehaviour {
    Wrap,
    Trap,
    Checked,
    Unchecked,
    Saturate,
}

/// The condition of a conditional branch.
#[derive(Clone, Copy, Debug, Hash, PartialEq, Eq, Structural)]
pub enum BranchCondition {
    Always,
    Never,
    Equal,
    NotEqual,
    Less,
    Greater,
    LessEqual,
    GreaterEqual,
}

/// The memory-access class of an instruction; the validator does not
/// interpret it.
#[derive(Clone, Copy, Debug, Hash, PartialEq, Eq, Structural)]
pub enum AccessClass {
    Normal,
    AtomicRelaxed,
    AtomicAcquire,
    AtomicRelease,
    AtomicAcqRel,
    AtomicSeqCst,
}

/// An operation on one or more l-values.
#[derive(Clone, Copy, Debug, Hash, PartialEq, Eq, Structural)]
pub enum LValueOp {
    Xchg,
    Cmpxchg,
    Wcmpxchg,
    PreDec,
    PreInc,
    PostDec,
    PostInc,
}

/// How a conversion is allowed to reinterpret its operand.
#[derive(Clone, Copy, Debug, Hash, PartialEq, Eq, Structural)]
pub enum ConversionStrength {
    Strong,
    Weak,
    Reinterpret,
}

/// An aggregate construction: the aggregate type and the field names whose
/// values are taken from the stack.
#[derive(Debug)]
pub struct AggregateCtor {
    pub ty: Type,
    pub fields: Vec<String>,
}

/// A hash-dispatch switch: case values paired with target labels.
#[derive(Debug)]
pub struct HashSwitch {
    pub cases: Vec<(Value, u32)>,
}

/// A linear-range-dispatch switch.
#[derive(Debug)]
pub struct LinearSwitch {
    pub ty: ScalarType,
    pub min: u128,
    pub scale: u32,
    pub default: u32,
    pub cases: Vec<u32>,
}

/// A switch instruction.
#[derive(Debug)]
pub enum Switch {
    Hash(HashSwitch),
    Linear(LinearSwitch),
}

/// A stack-machine instruction.
#[derive(Debug)]
pub enum Expr {
    /// No stack effect.
    Null,
    /// Pushes an r-value of the constant's static type.
    Const(Value),
    /// Pops the top `values` items and records or checks the exit-stack shape
    /// of block `blk`.
    ExitBlock { blk: u32, values: u16 },
    BinaryOp(BinaryOp, OverflowBehaviour),
    UnaryOp(UnaryOp, OverflowBehaviour),
    Tailcall(Box<FnType>),
    CallFunction(Box<FnType>),
    Branch { cond: BranchCondition, target: u32 },
    BranchIndirect,
    Convert(ConversionStrength, Box<Type>),
    /// Refines the pointer produced by the inner expression.
    Derive(PointerType, Box<Expr>),
    /// Pushes an l-value of the indexed local's declared type.
    Local(u32),
    Pop(u32),
    Dup(u32),
    Pivot(u32, u32),
    Aggregate(AggregateCtor),
    Member(String),
    MemberIndirect(String),
    /// A nested block; its ordinal must equal the current nesting depth.
    Block { n: u32, block: Block },
    Assign(AccessClass),
    AsRValue(AccessClass),
    CompoundAssign(BinaryOp, OverflowBehaviour, AccessClass),
    LValueOp(LValueOp, OverflowBehaviour, AccessClass),
    Indirect,
    AddrOf,
    Sequence(AccessClass),
    Fence(AccessClass),
    Switch(Switch),
}

/// One item of a block: an instruction, or a target label declaring the exact
/// stack shape required at that point.
#[derive(Debug)]
pub enum BlockItem {
    Expr(Expr),
    Target { num: u32, stack: Vec<StackItem> },
}

/// An ordered sequence of block items.
#[derive(Debug)]
pub struct Block {
    pub items: Vec<BlockItem>,
}

// ---------------------------------------------------------------------------
// Scopes, members, and the file container
// ---------------------------------------------------------------------------

/// Who may refer to a member.
#[derive(Clone, Copy, Debug, Hash, PartialEq, Eq, Structural)]
pub enum Visibility {
    Public,
    Origin,
    Module,
    Private,
    Hidden,
}

impl Default for Visibility {
    /// Members are public unless marked otherwise.
    fn default() -> (r: Self)
        ensures
            r == Visibility::Public,
    {
        Self::Public
    }
}

/// A static member: its declared type and initializer.
#[derive(Debug)]
pub struct StaticDefinition {
    pub ty: Type,
    pub init: Value,
}

/// The body of a function: declared local types and the root block.
#[derive(Debug)]
pub struct FunctionBody {
    pub locals: Vec<Type>,
    pub block: Block,
}

/// A function member: signature plus optional body; absence of a body is an
/// external declaration.
#[derive(Debug)]
pub struct FunctionDeclaration {
    pub ty: FnType,
    pub body: Option<FunctionBody>,
}

/// The declaration a scope member carries.
#[derive(Debug)]
pub enum MemberDeclaration {
    Empty,
    Scope(Scope),
    Function(FunctionDeclaration),
    Static(StaticDefinition),
    AggregateDefinition(AggregateDefinition),
    OpaqueAggregate(AggregateKind),
}

impl Default for MemberDeclaration {
    /// The default member declares nothing.
    fn default() -> (r: Self)
        ensures
            r matches MemberDeclaration::Empty,
    {
        Self::Empty
    }
}

/// One member of a scope.
#[derive(Debug)]
pub struct ScopeMember {
    pub annotations: AnnotatedElement,
    pub vis: Visibility,
    pub member_decl: MemberDeclaration,
}

/// A scope: the ordered mapping from paths to members.
#[derive(Debug)]
pub struct Scope {
    pub annotations: AnnotatedElement,
    pub members: Vec<(Path, ScopeMember)>,
}

/// A whole program: a target descriptor and the root scope.
#[derive(Debug)]
pub struct File {
    pub target: String,
    pub root: Scope,
}

} // verus!
