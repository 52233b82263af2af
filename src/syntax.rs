use vstd::prelude::*;

verus! {

/// A source range, carried through to diagnostics.
#[derive(Debug, Clone, Copy, PartialEq, Eq, Structural)]
pub struct Span {
    pub start: u32,
    pub end: u32,
}

/// A type as written in the source.
pub enum TsType {
    Void,
    Boolean,
    Number,
    String,
    Null,
    /// `T[]`
    Array(Box<TsType>),
    /// `Name` or `Name<args>`; `symbol` is the declaration the name is bound
    /// to, `None` where it is bound to nothing in the unit.
    Reference { name: String, symbol: Option<u32>, args: Option<Vec<TsType>> },
    /// A reference through a namespace, `A.B`.
    Qualified,
    /// `A | B | ...`
    Union(Vec<TsType>),
    /// `{ ... }`
    Literal,
    /// `(..) => ..`
    Function,
    /// Any other form.
    Other,
}

/// The key of a member: a plain identifier, or anything else.
pub enum Key {
    Static(String),
    Other,
}

pub struct ParamSyntax {
    /// The bound identifier, when the parameter is one.
    pub name: Option<String>,
    pub optional: bool,
    pub decorated: bool,
    pub type_annotation: Option<TsType>,
    pub span: Span,
}

pub enum MemberSyntax {
    Method {
        key: Key,
        computed: bool,
        optional: bool,
        params: Vec<ParamSyntax>,
        return_type: Option<TsType>,
        span: Span,
    },
    Property { key: Key, optional: bool, type_annotation: Option<TsType>, span: Span },
    /// Call, construct and index signatures.
    Other { span: Span },
}

/// An entry of an `extends` clause.
pub enum Heritage {
    /// `Name`, with the symbol it is bound to.
    Ident(Option<u32>),
    /// `ns.Name`, with the symbol `ns` is bound to.
    Member { object: Option<u32>, property: String },
    Other,
}

pub struct InterfaceDecl {
    pub name: String,
    pub symbol: u32,
    pub declare: bool,
    pub extends: Vec<Heritage>,
    pub members: Vec<MemberSyntax>,
    pub span: Span,
}

pub enum AliasBody {
    Literal(Vec<MemberSyntax>),
    Union(Vec<TsType>),
    Other,
}

pub struct AliasDecl {
    pub name: String,
    pub symbol: u32,
    pub declare: bool,
    pub type_param_count: usize,
    pub body: AliasBody,
    pub span: Span,
}

pub enum Initializer {
    /// A numeric literal: its value, and whether it was written with a point.
    Number { value: usize, fractional: bool },
    Str(String),
    Other,
}

pub struct EnumMemberSyntax {
    pub name: String,
    pub initializer: Option<Initializer>,
}

pub struct EnumDecl {
    pub name: String,
    pub symbol: u32,
    pub declare: bool,
    pub members: Vec<EnumMemberSyntax>,
    pub span: Span,
}

pub enum Callee {
    /// `x.p(..)`: the symbol `x` is bound to, and `p`.
    Member { object: Option<u32>, property: String, property_span: Span },
    /// `x.y.p(..)` or deeper: the symbol the first identifier is bound to, and `p`.
    NestedMember { root: Option<u32>, property: String },
    Other,
}

pub enum Argument {
    Str { value: String, span: Span },
    Other,
}

pub struct CallSyntax {
    pub callee: Callee,
    pub type_args: Option<Vec<TsType>>,
    pub first_arg: Option<Argument>,
    pub span: Span,
}

pub enum ImportSpec {
    /// `{ imported as local }`, with the symbol of `local`.
    Named { imported: String, local: Option<u32> },
    /// `* as local`
    Namespace { binding: u32 },
    Default,
}

pub struct ImportDecl {
    pub source: String,
    pub specifiers: Option<Vec<ImportSpec>>,
}

/// One construct of a source unit, in source order.
pub enum Item {
    Import(ImportDecl),
    Interface(InterfaceDecl),
    Alias(AliasDecl),
    Enum(EnumDecl),
    Call(CallSyntax),
}

} // verus!
