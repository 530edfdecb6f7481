//! The syntax-tree model: the immutable entity types that the parsers produce.
//!
//! Every node is owned by its parent; identifier text may be shared through a
//! reference-counted string. Each entity carries a spec-level view over plain
//! mathematical values (`Seq<char>` for names, sequences for lists) that the
//! parser contracts speak of.

use std::rc::Rc;
use vstd::prelude::*;
use vstd::string::StringExecFns;

verus! {

/// A name token. Matches `[A-Za-z_][A-Za-z0-9_]*`; immutable once created.
/// The text may be a static constant or a shared, reference-counted string.
#[derive(Debug)]
pub enum Ident {
    Static(&'static str),
    Owned(Rc<String>),
}

impl View for Ident {
    type V = Seq<char>;

    open spec fn view(&self) -> Seq<char> {
        match self {
            Ident::Static(s) => s@,
            Ident::Owned(r) => r@,
        }
    }
}

/// Relies on `Rc::clone`: the returned pointer shares the same string value.
#[verifier::external_body]
fn rc_clone_string(r: &Rc<String>) -> (res: Rc<String>)
    ensures
        res == *r,
{
    Rc::clone(r)
}

impl Ident {
    pub fn new(str: String) -> (r: Ident)
        ensures
            r@ == str@,
    {
        Ident::Owned(Rc::new(str))
    }

    pub fn to_owned(&self) -> (r: Rc<String>)
        ensures
            r@ == self@,
    {
        match self {
            Ident::Static(s) => Rc::new(String::from_str(s)),
            Ident::Owned(rc) => rc_clone_string(rc),
        }
    }
}

/// One of the 13 built-in primitive types. Fixed closed set.
#[derive(Debug, Clone, Copy, PartialEq, Eq, Structural)]
pub enum ScalarType {
    Void,
    Variant,
    Bool,
    I32,
    I64,
    U32,
    U64,
    F32,
    F64,
    String,
    CName,
    Resource,
    TweakDBID,
}

/// One of the 4 generic wrapper kinds. Always takes exactly one type argument.
#[derive(Debug, Clone, Copy, PartialEq, Eq, Structural)]
pub enum ContainerType {
    Array,
    Ref,
    WeakRef,
    ScriptRef,
}

/// Discriminated union over the three type shapes; exactly one variant active.
#[derive(Debug)]
pub enum VariableType {
    Scalar(ScalarType),
    Compound(Ident),
    Container(ContainerType),
}

/// A (possibly nested) type expression. `subtype` is present iff `type_` is a
/// container; nesting depth is unbounded.
#[derive(Debug)]
pub struct TypeDeclaration {
    pub type_: VariableType,
    pub subtype: Option<Box<TypeDeclaration>>,
}

/// One node of a type expression as the contracts see it: the chain of
/// containers from the outside in, ending with a scalar or compound leaf.
pub enum TypeNodeV {
    Scalar(ScalarType),
    Compound(Seq<char>),
    Container(ContainerType),
}

/// The view of a type declaration: its nodes from the outermost container
/// down to the leaf.
pub open spec fn type_decl_view(t: TypeDeclaration) -> Seq<TypeNodeV>
    decreases t,
{
    let head = match t.type_ {
        VariableType::Scalar(s) => TypeNodeV::Scalar(s),
        VariableType::Compound(id) => TypeNodeV::Compound(id@),
        VariableType::Container(c) => TypeNodeV::Container(c),
    };
    match t.subtype {
        Option::None => seq![head],
        Option::Some(sub) => seq![head] + type_decl_view(*sub),
    }
}

impl View for TypeDeclaration {
    type V = Seq<TypeNodeV>;

    open spec fn view(&self) -> Seq<TypeNodeV> {
        type_decl_view(*self)
    }
}

/// A well-formed chain of type nodes: at least the leaf, every node above the
/// last a container, and the last a leaf.
pub open spec fn wf_type_chain(c: Seq<TypeNodeV>) -> bool {
    &&& c.len() >= 1
    &&& forall|i: int| 0 <= i < c.len() - 1 ==> c[i] is Container
    &&& !(c[c.len() - 1] is Container)
}

impl TypeDeclaration {
    /// A leaf type: a scalar or compound with no argument.
    pub fn leaf(type_: VariableType) -> (r: Self)
        ensures
            r == (TypeDeclaration { type_, subtype: Option::<Box<TypeDeclaration>>::None }),
    {
        TypeDeclaration { type_, subtype: None }
    }

    /// A container node wrapping its single type argument.
    pub fn node(type_: VariableType, subtype: TypeDeclaration) -> (r: Self)
        ensures
            r.type_ == type_,
            r.subtype matches Option::Some(s) && *s == subtype,
    {
        TypeDeclaration { type_, subtype: Some(Box::new(subtype)) }
    }
}

/// A modding directive attached to a field or function. The four recognized
/// shapes carry a type-name argument (or none); anything else is preserved
/// verbatim as `Unsupported`, never rejected.
#[derive(Debug)]
pub enum Annotation {
    ReplaceGlobal,
    ReplaceMethod(Ident),
    AddMethod(Ident),
    AddField(Ident),
    Unsupported(Ident, Rc<String>),
}

/// The view of an annotation over plain character sequences.
pub enum AnnotationV {
    ReplaceGlobal,
    ReplaceMethod(Seq<char>),
    AddMethod(Seq<char>),
    AddField(Seq<char>),
    Unsupported(Seq<char>, Seq<char>),
}

impl View for Annotation {
    type V = AnnotationV;

    open spec fn view(&self) -> AnnotationV {
        match self {
            Annotation::ReplaceGlobal => AnnotationV::ReplaceGlobal,
            Annotation::ReplaceMethod(t) => AnnotationV::ReplaceMethod(t@),
            Annotation::AddMethod(t) => AnnotationV::AddMethod(t@),
            Annotation::AddField(t) => AnnotationV::AddField(t@),
            Annotation::Unsupported(id, raw) => AnnotationV::Unsupported(id@, raw@),
        }
    }
}

/// Object visibility shared by classes and members.
#[derive(Debug, Clone, Copy, PartialEq, Eq, Structural)]
pub enum Visibility {
    Public,
    Protected,
    Private,
}

#[derive(Debug, Clone, Copy, PartialEq, Eq, Structural)]
pub enum ClassQualifier {
    Abstract,
    Struct,
    Native,
}

#[derive(Debug, Clone, Copy, PartialEq, Eq, Structural)]
pub enum FuncQualifier {
    Abstract,
    Callback,
    Const,
    Exec,
    Final,
    Native,
    Static,
}

#[derive(Debug, Clone, Copy, PartialEq, Eq, Structural)]
pub enum ParamQualifier {
    Out,
    Optional,
}

/// Field qualifier tags. The grammar maps both the `native` and the
/// `persistent` keyword to the `Native` tag, collapsing the two modifiers;
/// the `Persistent` tag exists but is never produced by the parser. This
/// mirrors the grammar's historical behaviour and is deliberate.
#[derive(Debug, Clone, Copy, PartialEq, Eq, PartialOrd, Ord, Structural)]
pub enum FieldQualifier {
    Const,
    Edit,
    Final,
    Native,
    Persistent,
    Static,
}

/// Extracted documentation text: the lines in source order, each one
/// right-trimmed.
#[derive(Debug)]
pub struct CommentDefinition {
    pub lines: Vec<Rc<String>>,
}

/// A sequence of shared strings as the character sequences they hold.
pub open spec fn lines_view(ls: Seq<Rc<String>>) -> Seq<Seq<char>> {
    ls.map(|i: int, l: Rc<String>| l@)
}

/// The view of a comment: its lines as character sequences, in order.
pub open spec fn comment_view(c: CommentDefinition) -> Seq<Seq<char>> {
    lines_view(c.lines@)
}

impl View for CommentDefinition {
    type V = Seq<Seq<char>>;

    open spec fn view(&self) -> Seq<Seq<char>> {
        comment_view(*self)
    }
}

/// A sequence of annotations as their views.
pub open spec fn annos_view(a: Seq<Annotation>) -> Seq<AnnotationV> {
    a.map(|i: int, x: Annotation| x@)
}

/// The view of an optional comment block.
pub open spec fn opt_comment_view(c: Option<CommentDefinition>) -> Option<Seq<Seq<char>>> {
    match c {
        Option::Some(cd) => Option::Some(comment_view(cd)),
        Option::None => Option::None,
    }
}

/// The view of a parameter declaration.
pub struct ParamV {
    pub qualifiers: Seq<ParamQualifier>,
    pub name: Seq<char>,
    pub type_: Seq<TypeNodeV>,
}

/// The view of a field declaration.
pub struct FieldV {
    pub comments: Option<Seq<Seq<char>>>,
    pub annotations: Seq<AnnotationV>,
    pub visibility: Visibility,
    pub qualifiers: Seq<FieldQualifier>,
    pub name: Seq<char>,
    pub type_: Seq<TypeNodeV>,
}

/// The view of a function declaration.
pub struct FuncV {
    pub comments: Option<Seq<Seq<char>>>,
    pub annotations: Seq<AnnotationV>,
    pub visibility: Visibility,
    pub qualifiers: Seq<FuncQualifier>,
    pub name: Seq<char>,
    pub params: Seq<ParamV>,
    pub returns: Seq<TypeNodeV>,
}

#[derive(Debug)]
pub struct EnumValDefinition {
    pub comments: Option<CommentDefinition>,
    pub name: Ident,
    pub value: i64,
}

#[derive(Debug)]
pub struct EnumDefinition {
    pub comments: Option<CommentDefinition>,
    pub name: Ident,
    pub values: Vec<EnumValDefinition>,
}

#[derive(Debug)]
pub struct ParamDefinition {
    pub qualifiers: Vec<ParamQualifier>,
    pub name: Ident,
    pub type_: TypeDeclaration,
}

impl View for ParamDefinition {
    type V = ParamV;

    open spec fn view(&self) -> ParamV {
        ParamV { qualifiers: self.qualifiers@, name: self.name@, type_: self.type_@ }
    }
}

/// A sequence of parameter declarations as their views.
pub open spec fn params_view(p: Seq<ParamDefinition>) -> Seq<ParamV> {
    p.map(|i: int, x: ParamDefinition| x@)
}

#[derive(Debug)]
pub struct FuncDefinition {
    pub comments: Option<CommentDefinition>,
    pub annotations: Vec<Annotation>,
    pub visibility: Visibility,
    pub qualifiers: Vec<FuncQualifier>,
    pub name: Ident,
    pub params: Vec<ParamDefinition>,
    pub returns: TypeDeclaration,
}

#[derive(Debug)]
pub struct FieldDefinition {
    pub comments: Option<CommentDefinition>,
    pub annotations: Vec<Annotation>,
    pub visibility: Visibility,
    pub qualifiers: Vec<FieldQualifier>,
    pub name: Ident,
    pub type_: TypeDeclaration,
}

impl View for FuncDefinition {
    type V = FuncV;

    open spec fn view(&self) -> FuncV {
        FuncV {
            comments: opt_comment_view(self.comments),
            annotations: annos_view(self.annotations@),
            visibility: self.visibility,
            qualifiers: self.qualifiers@,
            name: self.name@,
            params: params_view(self.params@),
            returns: self.returns@,
        }
    }
}

impl View for FieldDefinition {
    type V = FieldV;

    open spec fn view(&self) -> FieldV {
        FieldV {
            comments: opt_comment_view(self.comments),
            annotations: annos_view(self.annotations@),
            visibility: self.visibility,
            qualifiers: self.qualifiers@,
            name: self.name@,
            type_: self.type_@,
        }
    }
}

/// A member of a class body.
#[derive(Debug)]
pub enum MemberDefinition {
    Field(FieldDefinition),
    Function(FuncDefinition),
}

#[derive(Debug)]
pub struct ClassDefinition {
    pub comments: Option<CommentDefinition>,
    pub visibility: Visibility,
    pub qualifiers: Vec<ClassQualifier>,
    pub name: Ident,
    pub base: Option<Ident>,
    pub members: Vec<MemberDefinition>,
}

/// Closed variant over all declaration kinds, for file-level aggregation.
#[derive(Debug)]
pub enum AnyDefinition {
    Comments(CommentDefinition),
    Enum(EnumDefinition),
    EnumVal(EnumValDefinition),
    Class(ClassDefinition),
    Func(FuncDefinition),
    Param(ParamDefinition),
    Field(FieldDefinition),
    File(FileDefinition),
}

#[derive(Debug)]
pub struct FileDefinition {
    pub name: Ident,
    pub defs: Vec<AnyDefinition>,
}

} // verus!
