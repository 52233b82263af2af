use vstd::prelude::*;
use vstd::string::StringExecFns;

use crate::types::TypeAnnotation;

verus! {

/// Why a type has no projection on a target.
#[derive(Debug, PartialEq, Eq, Structural)]
pub enum ProjectionError {
    /// An array whose element is itself an array.
    NestedArray,
    /// A shape that the target cannot hold in this position.
    Unsupported,
    /// A reference that was never resolved.
    Unresolved,
}

pub struct RsType(pub String);

pub struct RsBridgeType(pub String);

pub struct RsImplType(pub String);

/// The name a wrapper of a nullable value is built from: the element's own name.
pub open spec fn nullable_base_name(t: TypeAnnotation) -> Option<Seq<char>> {
    match t {
        TypeAnnotation::Boolean => Some("Boolean"@),
        TypeAnnotation::Number => Some("Number"@),
        TypeAnnotation::String => Some("String"@),
        TypeAnnotation::ArrayBuffer => Some("ArrayBuffer"@),
        TypeAnnotation::Object(o) => Some(o.name@),
        TypeAnnotation::Enum(e) => Some(e.name@),
        TypeAnnotation::Ref(r) => Some(r.name@),
        TypeAnnotation::Array(e) => match *e {
            TypeAnnotation::Boolean => Some("BooleanArray"@),
            TypeAnnotation::Number => Some("NumberArray"@),
            TypeAnnotation::String => Some("StringArray"@),
            TypeAnnotation::Object(o) => Some(o.name@ + "Array"@),
            TypeAnnotation::Enum(en) => Some(en.name@ + "Array"@),
            TypeAnnotation::Ref(r) => Some(r.name@ + "Array"@),
            _ => None,
        },
        _ => None,
    }
}

/// The Rust type a value of type `t` is held in.
pub open spec fn rs_type(t: TypeAnnotation) -> Result<Seq<char>, ProjectionError>
    decreases t,
{
    match t {
        TypeAnnotation::Void => Ok("()"@),
        TypeAnnotation::Boolean => Ok("bool"@),
        TypeAnnotation::Number => Ok("f64"@),
        TypeAnnotation::String => Ok("String"@),
        TypeAnnotation::ArrayBuffer => Ok("Vec<u8>"@),
        TypeAnnotation::Array(e) => if *e is Array {
            Err(ProjectionError::NestedArray)
        } else {
            match rs_type(*e) {
                Ok(s) => Ok("Vec<"@ + s + ">"@),
                Err(err) => Err(err),
            }
        },
        TypeAnnotation::Object(o) => Ok(o.name@),
        TypeAnnotation::Enum(e) => Ok(e.name@),
        TypeAnnotation::Promise(e) => match rs_type(*e) {
            Ok(s) => Ok("Result<"@ + s + ", anyhow::Error>"@),
            Err(err) => Err(err),
        },
        TypeAnnotation::Nullable(e) => match nullable_base_name(*e) {
            Some(s) => Ok("Nullable"@ + s),
            None => Err(ProjectionError::Unsupported),
        },
        TypeAnnotation::Ref(_) => Err(ProjectionError::Unresolved),
    }
}

/// The type of `t` in the foreign-function bridge declarations.
pub open spec fn rs_bridge_type(t: TypeAnnotation) -> Result<Seq<char>, ProjectionError> {
    match t {
        TypeAnnotation::Promise(e) => match rs_type(*e) {
            Ok(s) => Ok("Result<"@ + s + ">"@),
            Err(err) => Err(err),
        },
        _ => rs_type(t),
    }
}

/// The type of `t` as the module's implementor writes it.
pub open spec fn rs_impl_type(t: TypeAnnotation) -> Result<Seq<char>, ProjectionError>
    decreases t,
{
    match t {
        TypeAnnotation::Void => Ok("Void"@),
        TypeAnnotation::Boolean => Ok("Boolean"@),
        TypeAnnotation::Number => Ok("Number"@),
        TypeAnnotation::String => Ok("String"@),
        TypeAnnotation::ArrayBuffer => Ok("ArrayBuffer"@),
        TypeAnnotation::Array(e) => if *e is Array {
            Err(ProjectionError::NestedArray)
        } else {
            match rs_impl_type(*e) {
                Ok(s) => Ok("Array<"@ + s + ">"@),
                Err(err) => Err(err),
            }
        },
        TypeAnnotation::Object(o) => Ok(o.name@),
        TypeAnnotation::Enum(e) => Ok(e.name@),
        TypeAnnotation::Promise(e) => match rs_impl_type(*e) {
            Ok(s) => Ok("Promise<"@ + s + ">"@),
            Err(err) => Err(err),
        },
        TypeAnnotation::Nullable(e) => match rs_impl_type(*e) {
            Ok(s) => Ok("Nullable<"@ + s + ">"@),
            Err(err) => Err(err),
        },
        TypeAnnotation::Ref(_) => Err(ProjectionError::Unresolved),
    }
}

/// The Rust expression for the default value of `t`.
pub open spec fn rs_default_val(t: TypeAnnotation) -> Result<Seq<char>, ProjectionError> {
    match t {
        TypeAnnotation::Boolean => Ok("false"@),
        TypeAnnotation::Number => Ok("0.0"@),
        TypeAnnotation::String => Ok("String::default()"@),
        TypeAnnotation::ArrayBuffer => Ok("Vec::default()"@),
        TypeAnnotation::Array(_) => Ok("Vec::default()"@),
        TypeAnnotation::Enum(e) => Ok(e.name@ + "::default()"@),
        TypeAnnotation::Object(o) => Ok(o.name@ + "::default()"@),
        TypeAnnotation::Nullable(_) => match rs_type(t) {
            Ok(s) => Ok(s + "::default()"@),
            Err(err) => Err(err),
        },
        _ => Err(ProjectionError::Unsupported),
    }
}

fn text(s: &str) -> (r: String)
    ensures
        r@ == s@,
{
    String::from_str(s)
}

fn join3(a: &str, b: &String, c: &str) -> (r: String)
    ensures
        r@ == a@ + b@ + c@,
{
    text(a).concat(b.as_str()).concat(c)
}

fn nullable_base(t: &TypeAnnotation) -> (r: Option<String>)
    ensures
        match nullable_base_name(*t) {
            Some(s) => r is Some && r->0@ == s,
            None => r is None,
        },
{
    match t {
        TypeAnnotation::Boolean => Some(text("Boolean")),
        TypeAnnotation::Number => Some(text("Number")),
        TypeAnnotation::String => Some(text("String")),
        TypeAnnotation::ArrayBuffer => Some(text("ArrayBuffer")),
        TypeAnnotation::Object(o) => Some(o.name.clone()),
        TypeAnnotation::Enum(e) => Some(e.name.clone()),
        TypeAnnotation::Ref(r) => Some(r.name.clone()),
        TypeAnnotation::Array(e) => match &**e {
            TypeAnnotation::Boolean => Some(text("BooleanArray")),
            TypeAnnotation::Number => Some(text("NumberArray")),
            TypeAnnotation::String => Some(text("StringArray")),
            TypeAnnotation::Object(o) => Some(o.name.clone().concat("Array")),
            TypeAnnotation::Enum(en) => Some(en.name.clone().concat("Array")),
            TypeAnnotation::Ref(r) => Some(r.name.clone().concat("Array")),
            _ => None,
        },
        _ => None,
    }
}

impl TypeAnnotation {
    /// The Rust type of this type: `bool`, `f64`, `Vec<f64>`, `NullableNumber`,
    /// `Result<f64, anyhow::Error>`, or the record's or enum's own name.
    pub fn as_rs_type(&self) -> (r: Result<RsType, ProjectionError>)
        ensures
            match rs_type(*self) {
                Ok(s) => r is Ok && r->Ok_0.0@ == s,
                Err(e) => r is Err && r->Err_0 == e,
            },
        decreases self,
    {
        match self {
            TypeAnnotation::Void => Ok(RsType(text("()"))),
            TypeAnnotation::Boolean => Ok(RsType(text("bool"))),
            TypeAnnotation::Number => Ok(RsType(text("f64"))),
            TypeAnnotation::String => Ok(RsType(text("String"))),
            TypeAnnotation::ArrayBuffer => Ok(RsType(text("Vec<u8>"))),
            TypeAnnotation::Array(e) => {
                if let TypeAnnotation::Array(_) = &**e {
                    return Err(ProjectionError::NestedArray);
                }
                let inner = e.as_rs_type()?;
                Ok(RsType(join3("Vec<", &inner.0, ">")))
            },
            TypeAnnotation::Object(o) => Ok(RsType(o.name.clone())),
            TypeAnnotation::Enum(e) => Ok(RsType(e.name.clone())),
            TypeAnnotation::Promise(e) => {
                let inner = e.as_rs_type()?;
                Ok(RsType(join3("Result<", &inner.0, ", anyhow::Error>")))
            },
            TypeAnnotation::Nullable(e) => match nullable_base(e) {
                Some(base) => Ok(RsType(text("Nullable").concat(base.as_str()))),
                None => Err(ProjectionError::Unsupported),
            },
            TypeAnnotation::Ref(_) => Err(ProjectionError::Unresolved),
        }
    }

    /// The type used in bridge declarations: as `as_rs_type`, but a promise
    /// becomes the bridge's short `Result<T>`.
    pub fn as_rs_bridge_type(&self) -> (r: Result<RsBridgeType, ProjectionError>)
        ensures
            match rs_bridge_type(*self) {
                Ok(s) => r is Ok && r->Ok_0.0@ == s,
                Err(e) => r is Err && r->Err_0 == e,
            },
    {
        match self {
            TypeAnnotation::Promise(e) => {
                let inner = e.as_rs_type()?;
                Ok(RsBridgeType(join3("Result<", &inner.0, ">")))
            },
            _ => {
                let t = self.as_rs_type()?;
                Ok(RsBridgeType(t.0))
            },
        }
    }

    /// The type as the implementor writes it: `Number`, `Array<Number>`,
    /// `Promise<Number>`, `Nullable<Number>`, or the declared name.
    pub fn as_rs_impl_type(&self) -> (r: Result<RsImplType, ProjectionError>)
        ensures
            match rs_impl_type(*self) {
                Ok(s) => r is Ok && r->Ok_0.0@ == s,
                Err(e) => r is Err && r->Err_0 == e,
            },
        decreases self,
    {
        match self {
            TypeAnnotation::Void => Ok(RsImplType(text("Void"))),
            TypeAnnotation::Boolean => Ok(RsImplType(text("Boolean"))),
            TypeAnnotation::Number => Ok(RsImplType(text("Number"))),
            TypeAnnotation::String => Ok(RsImplType(text("String"))),
            TypeAnnotation::ArrayBuffer => Ok(RsImplType(text("ArrayBuffer"))),
            TypeAnnotation::Array(e) => {
                if let TypeAnnotation::Array(_) = &**e {
                    return Err(ProjectionError::NestedArray);
                }
                let inner = e.as_rs_impl_type()?;
                Ok(RsImplType(join3("Array<", &inner.0, ">")))
            },
            TypeAnnotation::Object(o) => Ok(RsImplType(o.name.clone())),
            TypeAnnotation::Enum(e) => Ok(RsImplType(e.name.clone())),
            TypeAnnotation::Promise(e) => {
                let inner = e.as_rs_impl_type()?;
                Ok(RsImplType(join3("Promise<", &inner.0, ">")))
            },
            TypeAnnotation::Nullable(e) => {
                let inner = e.as_rs_impl_type()?;
                Ok(RsImplType(join3("Nullable<", &inner.0, ">")))
            },
            TypeAnnotation::Ref(_) => Err(ProjectionError::Unresolved),
        }
    }

    /// The Rust expression of this type's default value.
    pub fn as_rs_default_val(&self) -> (r: Result<String, ProjectionError>)
        ensures
            match rs_default_val(*self) {
                Ok(s) => r is Ok && r->Ok_0@ == s,
                Err(e) => r is Err && r->Err_0 == e,
            },
    {
        match self {
            TypeAnnotation::Boolean => Ok(text("false")),
            TypeAnnotation::Number => Ok(text("0.0")),
            TypeAnnotation::String => Ok(text("String::default()")),
            TypeAnnotation::ArrayBuffer => Ok(text("Vec::default()")),
            TypeAnnotation::Array(_) => Ok(text("Vec::default()")),
            TypeAnnotation::Enum(e) => Ok(e.name.clone().concat("::default()")),
            TypeAnnotation::Object(o) => Ok(o.name.clone().concat("::default()")),
            TypeAnnotation::Nullable(_) => {
                let t = self.as_rs_type()?;
                Ok(t.0.concat("::default()"))
            },
            _ => Err(ProjectionError::Unsupported),
        }
    }
}

/// The Rust declarations of a nullable wrapper: a struct with a null flag and
/// a value, and its conversions from and to the implementor's `Nullable`.
pub struct RsNullableStruct {
    pub definition: String,
    pub implementation: String,
}

pub open spec fn rs_nullable_definition(st: Seq<char>, base: Seq<char>) -> Seq<char> {
    "#[derive(Clone)]\nstruct "@ + st + " {\n    null: bool,\n    val: "@ + base + ",\n}"@
}

pub open spec fn rs_nullable_implementation(st: Seq<char>, it: Seq<char>, dv: Seq<char>) -> Seq<char> {
    "impl Default for "@ + st + " {\n    fn default() -> Self {\n        "@ + st + " {\n            null: true,\n            val: "@
        + dv + ",\n        }\n    }\n}\n\nimpl From<"@ + st + "> for Nullable<"@ + it + "> {\n    fn from(val: "@ + st
        + ") -> Self {\n        Nullable::new(if val.null { None } else { Some(val.val) })\n    }\n}\n\nimpl From<Nullable<"@
        + it + ">> for "@ + st + " {\n    fn from(val: Nullable<"@ + it
        + ">) -> Self {\n        let val = val.into_value();\n        let null = val.is_none();\n        "@ + st
        + " {\n            val: val.unwrap_or("@ + dv + "),\n            null,\n        }\n    }\n}"@
}

impl RsNullableStruct {
    /// The wrapper declarations of a nullable type; any other type has none.
    pub fn try_from(nullable_type: &TypeAnnotation) -> (r: Result<RsNullableStruct, ProjectionError>)
        ensures
            !(*nullable_type is Nullable) ==> r == Err::<RsNullableStruct, ProjectionError>(ProjectionError::Unsupported),
            *nullable_type is Nullable ==> match (
                rs_bridge_type(*nullable_type),
                rs_type(*nullable_type->Nullable_0),
                rs_impl_type(*nullable_type->Nullable_0),
                rs_default_val(*nullable_type->Nullable_0),
            ) {
                (Ok(st), Ok(base), Ok(it), Ok(dv)) => r is Ok
                    && r->Ok_0.definition@ == rs_nullable_definition(st, base)
                    && r->Ok_0.implementation@ == rs_nullable_implementation(st, it, dv),
                _ => r is Err,
            },
    {
        match nullable_type {
            TypeAnnotation::Nullable(inner) => {
                let st = nullable_type.as_rs_bridge_type()?.0;
                let base = inner.as_rs_type()?.0;
                let it = inner.as_rs_impl_type()?.0;
                let dv = inner.as_rs_default_val()?;
                let definition = text("#[derive(Clone)]\nstruct ").concat(st.as_str()).concat(
                    " {\n    null: bool,\n    val: ",
                ).concat(base.as_str()).concat(",\n}");
                let implementation = text("impl Default for ").concat(st.as_str()).concat(
                    " {\n    fn default() -> Self {\n        ",
                ).concat(st.as_str()).concat(" {\n            null: true,\n            val: ").concat(dv.as_str()).concat(
                    ",\n        }\n    }\n}\n\nimpl From<",
                ).concat(st.as_str()).concat("> for Nullable<").concat(it.as_str()).concat("> {\n    fn from(val: ").concat(
                    st.as_str(),
                ).concat(") -> Self {\n        Nullable::new(if val.null { None } else { Some(val.val) })\n    }\n}\n\nimpl From<Nullable<").concat(
                    it.as_str(),
                ).concat(">> for ").concat(st.as_str()).concat(" {\n    fn from(val: Nullable<").concat(it.as_str()).concat(
                    ">) -> Self {\n        let val = val.into_value();\n        let null = val.is_none();\n        ",
                ).concat(st.as_str()).concat(" {\n            val: val.unwrap_or(").concat(dv.as_str()).concat(
                    "),\n            null,\n        }\n    }\n}",
                );
                Ok(RsNullableStruct { definition, implementation })
            },
            _ => Err(ProjectionError::Unsupported),
        }
    }
}

} // verus!
