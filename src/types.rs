use vstd::prelude::*;

verus! {

/// The closed set of type shapes that a specification may use.
pub enum TypeAnnotation {
    Void,
    Boolean,
    Number,
    String,
    ArrayBuffer,
    Array(Box<TypeAnnotation>),
    Object(ObjectTypeAnnotation),
    Enum(EnumTypeAnnotation),
    Promise(Box<TypeAnnotation>),
    Nullable(Box<TypeAnnotation>),
    /// A named reference, present only before resolution.
    Ref(RefTypeAnnotation),
}

pub struct ObjectTypeAnnotation {
    pub name: String,
    pub props: Vec<Prop>,
}

pub struct Prop {
    pub name: String,
    pub type_annotation: TypeAnnotation,
}

pub struct EnumTypeAnnotation {
    pub name: String,
    pub members: Vec<EnumMember>,
}

pub struct EnumMember {
    pub name: String,
    pub value: EnumMemberValue,
}

pub enum EnumMemberValue {
    String(String),
    Number(usize),
}

/// A reference by name; `symbol` is the declaration the name is bound to, if any.
pub struct RefTypeAnnotation {
    pub symbol: Option<u32>,
    pub name: String,
}

pub struct Method {
    pub name: String,
    pub params: Vec<Param>,
    pub ret_type: TypeAnnotation,
}

pub struct Param {
    pub name: String,
    pub type_annotation: TypeAnnotation,
}

pub struct Signal {
    pub name: String,
    pub payload_type: Option<TypeAnnotation>,
}

/// A module specification as collected, before its references are resolved.
pub struct Spec {
    pub name: String,
    pub methods: Vec<Method>,
    pub signals: Vec<Signal>,
}

/// The normalized, fully resolved description of one module.
pub struct Schema {
    pub module_name: String,
    pub methods: Vec<Method>,
    pub signals: Vec<Signal>,
    pub aliases: Vec<TypeAnnotation>,
    pub enums: Vec<TypeAnnotation>,
}

/// No reference is left anywhere in `t`, and no nullable directly wraps another.
pub open spec fn resolved(t: TypeAnnotation) -> bool
    decreases t,
{
    match t {
        TypeAnnotation::Ref(_) => false,
        TypeAnnotation::Array(e) => resolved(*e),
        TypeAnnotation::Promise(e) => resolved(*e),
        TypeAnnotation::Nullable(e) => !(*e is Nullable) && resolved(*e),
        TypeAnnotation::Object(o) => forall|i: int|
            0 <= i < o.props@.len() ==> resolved(#[trigger] o.props@[i].type_annotation),
        _ => true,
    }
}

/// No reference is left in the method's types, and a promise stands only as
/// its outermost return type.
pub open spec fn method_resolved(m: Method) -> bool {
    &&& resolved(m.ret_type)
    &&& return_shape(m.ret_type)
    &&& forall|i: int| 0 <= i < m.params@.len() ==> resolved(#[trigger] m.params@[i].type_annotation)
        && promise_free(m.params@[i].type_annotation)
}

/// No reference and no promise is in the signal's payload type.
pub open spec fn signal_resolved(s: Signal) -> bool {
    match s.payload_type {
        Some(t) => resolved(t) && promise_free(t),
        None => true,
    }
}

/// No promise occurs anywhere in `t`.
pub open spec fn promise_free(t: TypeAnnotation) -> bool
    decreases t,
{
    match t {
        TypeAnnotation::Promise(_) => false,
        TypeAnnotation::Array(e) => promise_free(*e),
        TypeAnnotation::Nullable(e) => promise_free(*e),
        TypeAnnotation::Object(o) => forall|i: int|
            0 <= i < o.props@.len() ==> promise_free(#[trigger] o.props@[i].type_annotation),
        _ => true,
    }
}

/// A method's return type: a promise only as the outermost type.
pub open spec fn return_shape(t: TypeAnnotation) -> bool {
    match t {
        TypeAnnotation::Promise(e) => promise_free(*e),
        _ => promise_free(t),
    }
}

impl TypeAnnotation {
    pub fn as_object(&self) -> (r: Option<&ObjectTypeAnnotation>)
        ensures
            r == (match self {
                TypeAnnotation::Object(o) => Some(o),
                _ => None::<&ObjectTypeAnnotation>,
            }),
    {
        match self {
            TypeAnnotation::Object(o) => Some(o),
            _ => None,
        }
    }

    pub fn as_enum(&self) -> (r: Option<&EnumTypeAnnotation>)
        ensures
            r == (match self {
                TypeAnnotation::Enum(e) => Some(e),
                _ => None::<&EnumTypeAnnotation>,
            }),
    {
        match self {
            TypeAnnotation::Enum(e) => Some(e),
            _ => None,
        }
    }

    pub fn is_nullable(&self) -> (r: bool)
        ensures
            r == (*self is Nullable),
    {
        match self {
            TypeAnnotation::Nullable(_) => true,
            _ => false,
        }
    }
}

} // verus!
