use vstd::prelude::*;
use vstd::string::StringExecFns;

use crate::rust_types::{ProjectionError, nullable_base_name};
use crate::text::{decimal, decimal_text};
use crate::types::{EnumMemberValue, EnumTypeAnnotation, ObjectTypeAnnotation, Prop, TypeAnnotation};
use crate::utils::{indent_str, indented};

verus! {

/// The C++ namespace of a module's generated code, e.g. `craby::mymodule`.
pub struct CxxNamespace(pub String);

/// A C++ expression that converts a JavaScript value into the native type.
pub struct CxxFromJs {
    pub expr: String,
}

/// A C++ expression that converts a native value into a JavaScript value.
pub struct CxxToJs {
    pub expr: String,
}

/// The C++ type a value of type `t` is held in; records, enums and nullable
/// wrappers live in the module's `bridging` namespace.
pub open spec fn cxx_type(t: TypeAnnotation, ns: Seq<char>) -> Result<Seq<char>, ProjectionError>
    decreases t,
{
    match t {
        TypeAnnotation::Void => Ok("void"@),
        TypeAnnotation::Boolean => Ok("bool"@),
        TypeAnnotation::Number => Ok("double"@),
        TypeAnnotation::String => Ok("rust::String"@),
        TypeAnnotation::ArrayBuffer => Ok("rust::Vec<uint8_t>"@),
        TypeAnnotation::Array(e) => if *e is Array {
            Err(ProjectionError::NestedArray)
        } else {
            match cxx_type(*e, ns) {
                Ok(s) => Ok("rust::Vec<"@ + s + ">"@),
                Err(err) => Err(err),
            }
        },
        TypeAnnotation::Enum(e) => Ok(ns + "::bridging::"@ + e.name@),
        TypeAnnotation::Object(o) => Ok(ns + "::bridging::"@ + o.name@),
        TypeAnnotation::Nullable(e) => match nullable_base_name(*e) {
            Some(s) => Ok(ns + "::bridging::Nullable"@ + s),
            None => Err(ProjectionError::Unsupported),
        },
        TypeAnnotation::Promise(_) => Err(ProjectionError::Unsupported),
        TypeAnnotation::Ref(_) => Err(ProjectionError::Unresolved),
    }
}

/// The C++ expression of the default value of `t`; a nullable wrapper, laid
/// out as `{null, val}`, is null with its value at the wrapped type's default.
pub open spec fn cxx_default_val(t: TypeAnnotation, ns: Seq<char>) -> Result<Seq<char>, ProjectionError>
    decreases t,
{
    match t {
        TypeAnnotation::Boolean => Ok("false"@),
        TypeAnnotation::Number => Ok("0.0"@),
        TypeAnnotation::String => Ok("rust::String()"@),
        TypeAnnotation::ArrayBuffer => Ok("rust::Vec<uint8_t>()"@),
        TypeAnnotation::Array(_) => match cxx_type(t, ns) {
            Ok(s) => Ok(s + "()"@),
            Err(err) => Err(err),
        },
        TypeAnnotation::Enum(e) => if e.members@.len() == 0 {
            Err(ProjectionError::Unsupported)
        } else {
            match cxx_type(t, ns) {
                Ok(s) => Ok(s + "::"@ + e.members@[0].name@),
                Err(err) => Err(err),
            }
        },
        TypeAnnotation::Object(_) => match cxx_type(t, ns) {
            Ok(s) => Ok(s + "{}"@),
            Err(err) => Err(err),
        },
        TypeAnnotation::Nullable(e) => match (cxx_type(t, ns), cxx_default_val(*e, ns)) {
            (Ok(s), Ok(d)) => Ok(s + "{true, "@ + d + "}"@),
            (Err(err), _) => Err(err),
            (_, Err(err)) => Err(err),
        },
        _ => Err(ProjectionError::Unsupported),
    }
}

/// The shapes a JavaScript value can be converted from.
pub open spec fn js_convertible(t: TypeAnnotation) -> bool {
    t is Boolean || t is Number || t is String || t is ArrayBuffer || t is Array || t is Enum || t is Object
        || t is Nullable
}

fn text(s: &str) -> (r: String)
    ensures
        r@ == s@,
{
    String::from_str(s)
}

impl TypeAnnotation {
    /// The C++ type of this type.
    pub fn as_cxx_type(&self, cxx_ns: &CxxNamespace) -> (r: Result<String, ProjectionError>)
        ensures
            match cxx_type(*self, cxx_ns.0@) {
                Ok(s) => r is Ok && r->Ok_0@ == s,
                Err(e) => r is Err && r->Err_0 == e,
            },
        decreases self,
    {
        match self {
            TypeAnnotation::Void => Ok(text("void")),
            TypeAnnotation::Boolean => Ok(text("bool")),
            TypeAnnotation::Number => Ok(text("double")),
            TypeAnnotation::String => Ok(text("rust::String")),
            TypeAnnotation::ArrayBuffer => Ok(text("rust::Vec<uint8_t>")),
            TypeAnnotation::Array(e) => {
                if let TypeAnnotation::Array(_) = &**e {
                    return Err(ProjectionError::NestedArray);
                }
                let inner = e.as_cxx_type(cxx_ns)?;
                Ok(text("rust::Vec<").concat(inner.as_str()).concat(">"))
            },
            TypeAnnotation::Enum(e) => Ok(cxx_ns.0.clone().concat("::bridging::").concat(e.name.as_str())),
            TypeAnnotation::Object(o) => Ok(cxx_ns.0.clone().concat("::bridging::").concat(o.name.as_str())),
            TypeAnnotation::Nullable(e) => {
                let base = match &**e {
                    TypeAnnotation::Boolean => text("Boolean"),
                    TypeAnnotation::Number => text("Number"),
                    TypeAnnotation::String => text("String"),
                    TypeAnnotation::ArrayBuffer => text("ArrayBuffer"),
                    TypeAnnotation::Object(o) => o.name.clone(),
                    TypeAnnotation::Enum(en) => en.name.clone(),
                    TypeAnnotation::Ref(r) => r.name.clone(),
                    TypeAnnotation::Array(el) => match &**el {
                        TypeAnnotation::Boolean => text("BooleanArray"),
                        TypeAnnotation::Number => text("NumberArray"),
                        TypeAnnotation::String => text("StringArray"),
                        TypeAnnotation::Object(o) => o.name.clone().concat("Array"),
                        TypeAnnotation::Enum(en) => en.name.clone().concat("Array"),
                        TypeAnnotation::Ref(r) => r.name.clone().concat("Array"),
                        _ => {
                            return Err(ProjectionError::Unsupported);
                        },
                    },
                    _ => {
                        return Err(ProjectionError::Unsupported);
                    },
                };
                Ok(cxx_ns.0.clone().concat("::bridging::Nullable").concat(base.as_str()))
            },
            TypeAnnotation::Promise(_) => Err(ProjectionError::Unsupported),
            TypeAnnotation::Ref(_) => Err(ProjectionError::Unresolved),
        }
    }

    /// The C++ expression of this type's default value.
    pub fn as_cxx_default_val(&self, cxx_ns: &CxxNamespace) -> (r: Result<String, ProjectionError>)
        ensures
            match cxx_default_val(*self, cxx_ns.0@) {
                Ok(s) => r is Ok && r->Ok_0@ == s,
                Err(e) => r is Err && r->Err_0 == e,
            },
        decreases self,
    {
        match self {
            TypeAnnotation::Boolean => Ok(text("false")),
            TypeAnnotation::Number => Ok(text("0.0")),
            TypeAnnotation::String => Ok(text("rust::String()")),
            TypeAnnotation::ArrayBuffer => Ok(text("rust::Vec<uint8_t>()")),
            TypeAnnotation::Array(_) => {
                let s = self.as_cxx_type(cxx_ns)?;
                Ok(s.concat("()"))
            },
            TypeAnnotation::Enum(e) => {
                if e.members.len() == 0 {
                    return Err(ProjectionError::Unsupported);
                }
                let s = self.as_cxx_type(cxx_ns)?;
                Ok(s.concat("::").concat(e.members[0].name.as_str()))
            },
            TypeAnnotation::Object(_) => {
                let s = self.as_cxx_type(cxx_ns)?;
                Ok(s.concat("{}"))
            },
            TypeAnnotation::Nullable(e) => {
                let s = self.as_cxx_type(cxx_ns)?;
                let d = e.as_cxx_default_val(cxx_ns)?;
                Ok(s.concat("{true, ").concat(d.as_str()).concat("}"))
            },
            _ => Err(ProjectionError::Unsupported),
        }
    }

    /// The expression that converts the JavaScript value `ident` into this type.
    pub fn as_cxx_from_js(&self, cxx_ns: &CxxNamespace, ident: &str) -> (r: Result<CxxFromJs, ProjectionError>)
        ensures
            js_convertible(*self) ==> match cxx_type(*self, cxx_ns.0@) {
                Ok(s) => r is Ok && r->Ok_0.expr@ == "react::bridging::fromJs<"@ + s + ">(rt, "@ + ident@ + ", callInvoker)"@,
                Err(e) => r is Err && r->Err_0 == e,
            },
            !js_convertible(*self) ==> r == Err::<CxxFromJs, ProjectionError>(ProjectionError::Unsupported),
    {
        match self {
            TypeAnnotation::Boolean | TypeAnnotation::Number | TypeAnnotation::String | TypeAnnotation::ArrayBuffer
            | TypeAnnotation::Array(_) | TypeAnnotation::Enum(_) | TypeAnnotation::Object(_) | TypeAnnotation::Nullable(_) => {
                let t = self.as_cxx_type(cxx_ns)?;
                let expr = text("react::bridging::fromJs<").concat(t.as_str()).concat(">(rt, ").concat(ident).concat(
                    ", callInvoker)",
                );
                Ok(CxxFromJs { expr })
            },
            _ => Err(ProjectionError::Unsupported),
        }
    }

    /// The expression that converts the native value `ident` of this type into
    /// a JavaScript value; `void` becomes `undefined`.
    pub fn as_cxx_to_js(&self, ident: &str) -> (r: Result<CxxToJs, ProjectionError>)
        ensures
            (js_convertible(*self) || *self is Promise) ==> r is Ok && r->Ok_0.expr@ == "react::bridging::toJs(rt, "@ + ident@ + ")"@,
            *self is Void ==> r is Ok && r->Ok_0.expr@ == "jsi::Value::undefined()"@,
            *self is Ref ==> r == Err::<CxxToJs, ProjectionError>(ProjectionError::Unsupported),
    {
        match self {
            TypeAnnotation::Void => Ok(CxxToJs { expr: text("jsi::Value::undefined()") }),
            TypeAnnotation::Ref(_) => Err(ProjectionError::Unsupported),
            _ => Ok(CxxToJs { expr: text("react::bridging::toJs(rt, ").concat(ident).concat(")") }),
        }
    }
}

/// The C++ expression of the `idx`-th argument: `args[idx]`.
pub fn cxx_arg_ref(idx: usize) -> (r: String)
    ensures
        r@ == "args["@ + decimal(idx as nat) + "]"@,
{
    text("args[").concat(decimal_text(idx).as_str()).concat("]")
}

/// The C++ variable holding the `idx`-th argument: `arg{idx}`.
pub fn cxx_arg_var(idx: usize) -> (r: String)
    ensures
        r@ == "arg"@ + decimal(idx as nat),
{
    text("arg").concat(decimal_text(idx).as_str())
}

/// The conversions of a generated bridging type between JavaScript and C++.
pub struct CxxBridgingTemplate {
    pub namespace: String,
    pub from_js: String,
    pub to_js: String,
}

pub open spec fn nullable_from_js(ns: Seq<char>, origin: Seq<char>, default_val: Seq<char>) -> Seq<char> {
    "if (value.isNull()) {\n  return "@ + ns + "{true, "@ + default_val + "};\n}\n\nauto val = react::bridging::fromJs<"@
        + origin + ">(rt, value, callInvoker);\nauto ret = "@ + ns + "{false, val};\n\nreturn ret;"@
}

pub open spec fn nullable_to_js() -> Seq<char> {
    "if (value.null) {\n  return jsi::Value::null();\n}\n\nreturn react::bridging::toJs(rt, value.val);"@
}

impl CxxBridgingTemplate {
    /// The bridging of the nullable wrapper of `type_annotation`: null maps to
    /// a wrapper whose flag is set and whose value is the default.
    pub fn try_into_nullable_template(
        cxx_ns: &CxxNamespace,
        nullable_type_annotation: &TypeAnnotation,
        type_annotation: &TypeAnnotation,
    ) -> (r: Result<CxxBridgingTemplate, ProjectionError>)
        ensures
            match (cxx_type(*type_annotation, cxx_ns.0@), cxx_default_val(*type_annotation, cxx_ns.0@), cxx_type(*nullable_type_annotation, cxx_ns.0@)) {
                (Ok(origin), Ok(d), Ok(ns)) => r is Ok && r->Ok_0.namespace@ == ns
                    && r->Ok_0.from_js@ == nullable_from_js(ns, origin, d)
                    && r->Ok_0.to_js@ == nullable_to_js(),
                _ => r is Err,
            },
    {
        let origin = type_annotation.as_cxx_type(cxx_ns)?;
        let default_value = type_annotation.as_cxx_default_val(cxx_ns)?;
        let ns = nullable_type_annotation.as_cxx_type(cxx_ns)?;
        let from_js = text("if (value.isNull()) {\n  return ").concat(ns.as_str()).concat("{true, ").concat(
            default_value.as_str(),
        ).concat("};\n}\n\nauto val = react::bridging::fromJs<").concat(origin.as_str()).concat(
            ">(rt, value, callInvoker);\nauto ret = ",
        ).concat(ns.as_str()).concat("{false, val};\n\nreturn ret;");
        let to_js = text("if (value.null) {\n  return jsi::Value::null();\n}\n\nreturn react::bridging::toJs(rt, value.val);");
        Ok(CxxBridgingTemplate { namespace: ns, from_js, to_js })
    }
}

/// The JSI bridging specialization of a generated type, with both
/// conversions indented into their functions.
pub open spec fn bridging_code(ns: Seq<char>, from_js: Seq<char>, to_js: Seq<char>) -> Seq<char> {
    "template <>\nstruct Bridging<"@ + ns + "> {\n  static "@ + ns
        + " fromJs(jsi::Runtime &rt, const jsi::Value& value, std::shared_ptr<CallInvoker> callInvoker) {\n"@
        + indented(from_js, 4) + "\n  }\n\n  static jsi::Value toJs(jsi::Runtime &rt, "@ + ns + " value) {\n"@
        + indented(to_js, 4) + "\n  }\n};"@
}

impl CxxBridgingTemplate {
    /// The C++ code of this bridging.
    pub fn into_code(&self) -> (r: String)
        ensures
            r@ == bridging_code(self.namespace@, self.from_js@, self.to_js@),
    {
        let from_js = indent_str(self.from_js.clone(), 4);
        let to_js = indent_str(self.to_js.clone(), 4);
        text("template <>\nstruct Bridging<").concat(self.namespace.as_str()).concat("> {\n  static ").concat(
            self.namespace.as_str(),
        ).concat(" fromJs(jsi::Runtime &rt, const jsi::Value& value, std::shared_ptr<CallInvoker> callInvoker) {\n").concat(
            from_js.as_str(),
        ).concat("\n  }\n\n  static jsi::Value toJs(jsi::Runtime &rt, ").concat(self.namespace.as_str()).concat(
            " value) {\n",
        ).concat(to_js.as_str()).concat("\n  }\n};")
    }
}

/// The raw value of an enum member as a C++ literal: the quoted string or
/// the decimal digits.
pub open spec fn raw_member(v: EnumMemberValue) -> Seq<char> {
    match v {
        EnumMemberValue::String(x) => "\""@ + x@ + "\""@,
        EnumMemberValue::Number(n) => decimal(n as nat),
    }
}

pub open spec fn enum_namespace(ns: Seq<char>, e: EnumTypeAnnotation) -> Seq<char> {
    ns + "::bridging::"@ + e.name@
}

/// The tests of the raw value against the first `n` members, in order.
pub open spec fn enum_from_conds(ns: Seq<char>, e: EnumTypeAnnotation, n: int) -> Seq<char>
    decreases n,
{
    if n <= 0 {
        Seq::empty()
    } else {
        enum_from_conds(ns, e, n - 1) + (if n == 1 { "if (raw == "@ } else { " else if (raw == "@ })
            + raw_member(e.members@[n - 1].value) + ") {\n  return "@ + enum_namespace(ns, e) + "::"@
            + e.members@[n - 1].name@ + ";\n}"@
    }
}

/// The cases of the switch over the first `n` members, in order.
pub open spec fn enum_to_cases(ns: Seq<char>, e: EnumTypeAnnotation, n: int) -> Seq<char>
    decreases n,
{
    if n <= 0 {
        Seq::empty()
    } else {
        enum_to_cases(ns, e, n - 1) + "  case "@ + enum_namespace(ns, e) + "::"@ + e.members@[n - 1].name@
            + ":\n    return react::bridging::toJs(rt, "@ + raw_member(e.members@[n - 1].value) + ");\n"@
    }
}

pub open spec fn enum_error(e: EnumTypeAnnotation) -> Seq<char> {
    "throw jsi::JSError(rt, \"Invalid enum value ("@ + e.name@ + ")\");"@
}

/// Reads the raw value (a string, or a number if the members are numeric)
/// and returns the member with that value; any other value is an error.
pub open spec fn enum_from_js(ns: Seq<char>, e: EnumTypeAnnotation) -> Seq<char> {
    "auto raw = "@ + (if e.members@[0].value is String { "value.asString(rt).utf8(rt)"@ } else { "value.asNumber()"@ })
        + ";\n"@ + enum_from_conds(ns, e, e.members@.len() as int) + " else {\n  "@ + enum_error(e) + "\n}"@
}

/// Maps each member back to its raw value; any other value is an error.
pub open spec fn enum_to_js(ns: Seq<char>, e: EnumTypeAnnotation) -> Seq<char> {
    "switch (value) {\n"@ + enum_to_cases(ns, e, e.members@.len() as int) + "  default:\n    "@ + enum_error(e) + "\n}"@
}

fn raw_member_text(v: &EnumMemberValue) -> (r: String)
    ensures
        r@ == raw_member(*v),
{
    match v {
        EnumMemberValue::String(x) => text("\"").concat(x.as_str()).concat("\""),
        EnumMemberValue::Number(n) => decimal_text(*n),
    }
}

impl CxxBridgingTemplate {
    /// The bridging of an enum: a two-way conversion between its raw values
    /// and its members. An enum without members has none.
    pub fn try_into_enum_template(cxx_ns: &CxxNamespace, enum_spec: &EnumTypeAnnotation) -> (r: Result<
        CxxBridgingTemplate,
        ProjectionError,
    >)
        ensures
            enum_spec.members@.len() == 0 <==> r is Err,
            r is Ok ==> r->Ok_0.namespace@ == enum_namespace(cxx_ns.0@, *enum_spec)
                && r->Ok_0.from_js@ == enum_from_js(cxx_ns.0@, *enum_spec)
                && r->Ok_0.to_js@ == enum_to_js(cxx_ns.0@, *enum_spec),
    {
        if enum_spec.members.len() == 0 {
            return Err(ProjectionError::Unsupported);
        }
        let ghost ns = cxx_ns.0@;
        let ghost e = *enum_spec;
        let namespace = cxx_ns.0.clone().concat("::bridging::").concat(enum_spec.name.as_str());
        let mut conds = String::new();
        let mut cases = String::new();
        let mut k: usize = 0;
        while k < enum_spec.members.len()
            invariant
                k <= e.members@.len(),
                e == *enum_spec,
                ns == cxx_ns.0@,
                namespace@ == enum_namespace(ns, e),
                conds@ == enum_from_conds(ns, e, k as int),
                cases@ == enum_to_cases(ns, e, k as int),
            decreases e.members@.len() - k,
        {
            let m = &enum_spec.members[k];
            let raw = raw_member_text(&m.value);
            if k == 0 {
                conds.append("if (raw == ");
            } else {
                conds.append(" else if (raw == ");
            }
            conds.append(raw.as_str());
            conds.append(") {\n  return ");
            conds.append(namespace.as_str());
            conds.append("::");
            conds.append(m.name.as_str());
            conds.append(";\n}");
            cases.append("  case ");
            cases.append(namespace.as_str());
            cases.append("::");
            cases.append(m.name.as_str());
            cases.append(":\n    return react::bridging::toJs(rt, ");
            cases.append(raw.as_str());
            cases.append(");\n");
            proof {
                assert(conds@ =~= enum_from_conds(ns, e, k as int + 1));
                assert(cases@ =~= enum_to_cases(ns, e, k as int + 1));
            }
            k += 1;
        }
        let error = text("throw jsi::JSError(rt, \"Invalid enum value (").concat(enum_spec.name.as_str()).concat(")\");");
        let as_raw = match &enum_spec.members[0].value {
            EnumMemberValue::String(_) => "value.asString(rt).utf8(rt)",
            EnumMemberValue::Number(_) => "value.asNumber()",
        };
        let from_js = text("auto raw = ").concat(as_raw).concat(";\n").concat(conds.as_str()).concat(" else {\n  ").concat(
            error.as_str(),
        ).concat("\n}");
        let to_js = text("switch (value) {\n").concat(cases.as_str()).concat("  default:\n    ").concat(error.as_str()).concat(
            "\n}",
        );
        Ok(CxxBridgingTemplate { namespace, from_js, to_js })
    }
}

/// `items` joined by `sep`, the first `n` of them.
pub open spec fn join_items(items: Seq<Seq<char>>, sep: Seq<char>, n: int) -> Seq<char>
    decreases n,
{
    if n <= 0 {
        Seq::empty()
    } else if n == 1 {
        items[0]
    } else {
        join_items(items, sep, n - 1) + sep + items[n - 1]
    }
}

pub open spec fn prop_get(p: Prop) -> Seq<char> {
    "auto obj$"@ + p.name@ + " = obj.getProperty(rt, \""@ + p.name@ + "\");"@
}

pub open spec fn prop_from(p: Prop, ns: Seq<char>) -> Seq<char> {
    "auto _obj$"@ + p.name@ + " = "@ + ("react::bridging::fromJs<"@ + cxx_type(p.type_annotation, ns)->Ok_0 + ">(rt, "@
        + ("obj$"@ + p.name@) + ", callInvoker)"@) + ";"@
}

pub open spec fn prop_ident(p: Prop) -> Seq<char> {
    "  _obj$"@ + p.name@
}

pub open spec fn prop_to(p: Prop) -> Seq<char> {
    "auto _obj$"@ + p.name@ + " = "@ + ("react::bridging::toJs(rt, "@ + ("value."@ + p.name@) + ")"@) + ";"@
}

pub open spec fn prop_set(p: Prop) -> Seq<char> {
    "obj.setProperty(rt, \""@ + p.name@ + "\", _obj$"@ + p.name@ + ");"@
}

/// Every field converts from and to a JavaScript value.
pub open spec fn props_convertible(o: ObjectTypeAnnotation, ns: Seq<char>) -> bool {
    forall|i: int| 0 <= i < o.props@.len() ==> js_convertible(#[trigger] o.props@[i].type_annotation)
        && cxx_type(o.props@[i].type_annotation, ns) is Ok
}

/// Reads every field of the JavaScript object and builds the record.
pub open spec fn struct_from_js(ns: Seq<char>, o: ObjectTypeAnnotation) -> Seq<char> {
    let ps = o.props@;
    let n = ps.len() as int;
    "auto obj = value.asObject(rt);\n"@ + join_items(ps.map_values(|p: Prop| prop_get(p)), "\n"@, n) + "\n\n"@
        + join_items(ps.map_values(|p: Prop| prop_from(p, ns)), "\n"@, n) + "\n\n"@ + ns + "::bridging::"@ + o.name@
        + " ret = {\n"@ + join_items(ps.map_values(|p: Prop| prop_ident(p)), ",\n"@, n) + "\n};\n\nreturn ret;"@
}

/// Converts every field and sets it on a new JavaScript object.
pub open spec fn struct_to_js(o: ObjectTypeAnnotation) -> Seq<char> {
    let ps = o.props@;
    let n = ps.len() as int;
    "jsi::Object obj = jsi::Object(rt);\n"@ + join_items(ps.map_values(|p: Prop| prop_to(p)), "\n"@, n) + "\n\n"@
        + join_items(ps.map_values(|p: Prop| prop_set(p)), "\n"@, n) + "\n\nreturn jsi::Value(rt, obj);"@
}

fn join_step(acc: &mut String, sep: &str, item: &String, Ghost(items): Ghost<Seq<Seq<char>>>, k: usize)
    requires
        k < items.len(),
        item@ == items[k as int],
        old(acc)@ == join_items(items, sep@, k as int),
    ensures
        final(acc)@ == join_items(items, sep@, k as int + 1),
{
    if k > 0 {
        acc.append(sep);
    }
    acc.append(item.as_str());
}

impl CxxBridgingTemplate {
    /// The bridging of a record: each field is read from, or set on, the
    /// JavaScript object under its declared name. Fails when a field has no
    /// conversion.
    pub fn try_into_struct_template(cxx_ns: &CxxNamespace, obj: &ObjectTypeAnnotation) -> (r: Result<
        CxxBridgingTemplate,
        ProjectionError,
    >)
        ensures
            r is Ok <==> props_convertible(*obj, cxx_ns.0@),
            r is Ok ==> r->Ok_0.namespace@ == cxx_ns.0@ + "::bridging::"@ + obj.name@
                && r->Ok_0.from_js@ == struct_from_js(cxx_ns.0@, *obj)
                && r->Ok_0.to_js@ == struct_to_js(*obj),
    {
        let ghost ns = cxx_ns.0@;
        let ghost ps = obj.props@;
        let ghost gets = ps.map_values(|p: Prop| prop_get(p));
        let ghost froms = ps.map_values(|p: Prop| prop_from(p, ns));
        let ghost idents = ps.map_values(|p: Prop| prop_ident(p));
        let ghost tos = ps.map_values(|p: Prop| prop_to(p));
        let ghost sets = ps.map_values(|p: Prop| prop_set(p));
        let namespace = cxx_ns.0.clone().concat("::bridging::").concat(obj.name.as_str());
        let mut get_s = String::new();
        let mut from_s = String::new();
        let mut ident_s = String::new();
        let mut to_s = String::new();
        let mut set_s = String::new();
        let mut k: usize = 0;
        while k < obj.props.len()
            invariant
                k <= ps.len(),
                ps == obj.props@,
                ns == cxx_ns.0@,
                gets == ps.map_values(|p: Prop| prop_get(p)),
                froms == ps.map_values(|p: Prop| prop_from(p, ns)),
                idents == ps.map_values(|p: Prop| prop_ident(p)),
                tos == ps.map_values(|p: Prop| prop_to(p)),
                sets == ps.map_values(|p: Prop| prop_set(p)),
                forall|i: int| 0 <= i < k ==> js_convertible(#[trigger] ps[i].type_annotation)
                    && cxx_type(ps[i].type_annotation, ns) is Ok,
                get_s@ == join_items(gets, "\n"@, k as int),
                from_s@ == join_items(froms, "\n"@, k as int),
                ident_s@ == join_items(idents, ",\n"@, k as int),
                to_s@ == join_items(tos, "\n"@, k as int),
                set_s@ == join_items(sets, "\n"@, k as int),
            decreases ps.len() - k,
        {
            let p = &obj.props[k];
            let ident = text("obj$").concat(p.name.as_str());
            let from = match p.type_annotation.as_cxx_from_js(cxx_ns, ident.as_str()) {
                Ok(f) => f,
                Err(e) => {
                    proof {
                        assert(!(js_convertible(ps[k as int].type_annotation) && cxx_type(ps[k as int].type_annotation, ns) is Ok));
                    }
                    return Err(e);
                },
            };
            let field = text("value.").concat(p.name.as_str());
            let to = match p.type_annotation.as_cxx_to_js(field.as_str()) {
                Ok(t) => t,
                Err(e) => {
                    return Err(e);
                },
            };
            let get = text("auto obj$").concat(p.name.as_str()).concat(" = obj.getProperty(rt, \"").concat(p.name.as_str()).concat(
                "\");",
            );
            let from_line = text("auto _obj$").concat(p.name.as_str()).concat(" = ").concat(from.expr.as_str()).concat(";");
            let ident_line = text("  _obj$").concat(p.name.as_str());
            let to_line = text("auto _obj$").concat(p.name.as_str()).concat(" = ").concat(to.expr.as_str()).concat(";");
            let set = text("obj.setProperty(rt, \"").concat(p.name.as_str()).concat("\", _obj$").concat(p.name.as_str()).concat(
                ");",
            );
            proof {
                assert(*p == ps[k as int]);
                assert(js_convertible(p.type_annotation));
                assert(cxx_type(p.type_annotation, ns) is Ok);
                assert(from.expr@ == "react::bridging::fromJs<"@ + cxx_type(p.type_annotation, ns)->Ok_0 + ">(rt, "@ + ident@ + ", callInvoker)"@);
                assert(to.expr@ == "react::bridging::toJs(rt, "@ + field@ + ")"@);
                assert(froms[k as int] == prop_from(ps[k as int], ns));
                assert(tos[k as int] == prop_to(ps[k as int]));
                assert(from_line@ =~= froms[k as int]);
                assert(to_line@ =~= tos[k as int]);
                assert(get@ =~= gets[k as int]);
                assert(ident_line@ =~= idents[k as int]);
                assert(set@ =~= sets[k as int]);
            }
            join_step(&mut get_s, "\n", &get, Ghost(gets), k);
            join_step(&mut from_s, "\n", &from_line, Ghost(froms), k);
            join_step(&mut ident_s, ",\n", &ident_line, Ghost(idents), k);
            join_step(&mut to_s, "\n", &to_line, Ghost(tos), k);
            join_step(&mut set_s, "\n", &set, Ghost(sets), k);
            k += 1;
        }
        let from_js = text("auto obj = value.asObject(rt);\n").concat(get_s.as_str()).concat("\n\n").concat(from_s.as_str()).concat(
            "\n\n",
        ).concat(namespace.as_str()).concat(" ret = {\n").concat(ident_s.as_str()).concat("\n};\n\nreturn ret;");
        let to_js = text("jsi::Object obj = jsi::Object(rt);\n").concat(to_s.as_str()).concat("\n\n").concat(set_s.as_str()).concat(
            "\n\nreturn jsi::Value(rt, obj);",
        );
        Ok(CxxBridgingTemplate { namespace, from_js, to_js })
    }
}

} // verus!
