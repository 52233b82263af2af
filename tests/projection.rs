use craby_codegen::artifacts::Artifacts;
use craby_codegen::cxx_types::{cxx_arg_ref, cxx_arg_var, CxxBridgingTemplate, CxxNamespace};
use craby_codegen::deps::{calc_deps_order, OrderError};
use craby_codegen::rust_types::{ProjectionError, RsNullableStruct};
use craby_codegen::types::{
    Method, Param,
    EnumMember, EnumMemberValue, EnumTypeAnnotation, ObjectTypeAnnotation, Prop, RefTypeAnnotation,
    Schema, TypeAnnotation,
};

fn s(v: &str) -> String {
    v.to_string()
}

fn obj(name: &str, props: Vec<(&str, TypeAnnotation)>) -> TypeAnnotation {
    TypeAnnotation::Object(ObjectTypeAnnotation {
        name: s(name),
        props: props.into_iter().map(|(n, t)| Prop { name: s(n), type_annotation: t }).collect(),
    })
}

fn color() -> TypeAnnotation {
    TypeAnnotation::Enum(EnumTypeAnnotation {
        name: s("Color"),
        members: vec![EnumMember { name: s("Red"), value: EnumMemberValue::String(s("red")) }],
    })
}

fn nullable(t: TypeAnnotation) -> TypeAnnotation {
    TypeAnnotation::Nullable(Box::new(t))
}

fn array(t: TypeAnnotation) -> TypeAnnotation {
    TypeAnnotation::Array(Box::new(t))
}

fn schema(aliases: Vec<TypeAnnotation>) -> Schema {
    Schema { module_name: s("M"), methods: vec![], signals: vec![], aliases, enums: vec![] }
}

fn pos(order: &[String], name: &str) -> usize {
    order.iter().position(|n| n == name).expect("listed")
}

#[test]
fn rs_type_names() {
    assert_eq!(TypeAnnotation::Number.as_rs_type().ok().unwrap().0, "f64");
    assert_eq!(array(TypeAnnotation::String).as_rs_type().ok().unwrap().0, "Vec<String>");
    assert_eq!(nullable(TypeAnnotation::Number).as_rs_type().ok().unwrap().0, "NullableNumber");
    assert_eq!(nullable(array(TypeAnnotation::Number)).as_rs_type().ok().unwrap().0, "NullableNumberArray");
    assert_eq!(nullable(color()).as_rs_type().ok().unwrap().0, "NullableColor");
    assert_eq!(
        TypeAnnotation::Promise(Box::new(TypeAnnotation::Number)).as_rs_type().ok().unwrap().0,
        "Result<f64, anyhow::Error>"
    );
    assert!(matches!(array(array(TypeAnnotation::Number)).as_rs_type(), Err(ProjectionError::NestedArray)));
    assert!(matches!(nullable(TypeAnnotation::Void).as_rs_type(), Err(ProjectionError::Unsupported)));
    let r = TypeAnnotation::Ref(RefTypeAnnotation { symbol: None, name: s("X") });
    assert!(matches!(r.as_rs_type(), Err(ProjectionError::Unresolved)));
}

#[test]
fn rs_bridge_and_impl_types() {
    let p = TypeAnnotation::Promise(Box::new(TypeAnnotation::Number));
    assert_eq!(p.as_rs_bridge_type().ok().unwrap().0, "Result<f64>");
    assert_eq!(p.as_rs_impl_type().ok().unwrap().0, "Promise<Number>");
    assert_eq!(nullable(array(TypeAnnotation::Boolean)).as_rs_impl_type().ok().unwrap().0, "Nullable<Array<Boolean>>");
    assert_eq!(TypeAnnotation::ArrayBuffer.as_rs_bridge_type().ok().unwrap().0, "Vec<u8>");
}

#[test]
fn rs_default_values() {
    assert_eq!(TypeAnnotation::Boolean.as_rs_default_val().ok().unwrap(), "false");
    assert_eq!(TypeAnnotation::Number.as_rs_default_val().ok().unwrap(), "0.0");
    assert_eq!(color().as_rs_default_val().ok().unwrap(), "Color::default()");
    assert_eq!(nullable(TypeAnnotation::String).as_rs_default_val().ok().unwrap(), "NullableString::default()");
    assert!(matches!(TypeAnnotation::Void.as_rs_default_val(), Err(ProjectionError::Unsupported)));
}

#[test]
fn cxx_types_and_defaults() {
    let ns = CxxNamespace(s("craby::mymodule"));
    assert_eq!(TypeAnnotation::Number.as_cxx_type(&ns).ok().unwrap(), "double");
    assert_eq!(array(TypeAnnotation::Number).as_cxx_type(&ns).ok().unwrap(), "rust::Vec<double>");
    assert_eq!(color().as_cxx_type(&ns).ok().unwrap(), "craby::mymodule::bridging::Color");
    assert_eq!(nullable(TypeAnnotation::Number).as_cxx_type(&ns).ok().unwrap(), "craby::mymodule::bridging::NullableNumber");
    assert_eq!(color().as_cxx_default_val(&ns).ok().unwrap(), "craby::mymodule::bridging::Color::Red");
    assert_eq!(obj("S", vec![]).as_cxx_default_val(&ns).ok().unwrap(), "craby::mymodule::bridging::S{}");
    assert_eq!(
        nullable(TypeAnnotation::Number).as_cxx_default_val(&ns).ok().unwrap(),
        "craby::mymodule::bridging::NullableNumber{true, 0.0}"
    );
}

#[test]
fn cxx_conversions() {
    let ns = CxxNamespace(s("craby::m"));
    assert_eq!(
        TypeAnnotation::Boolean.as_cxx_from_js(&ns, "args[0]").ok().unwrap().expr,
        "react::bridging::fromJs<bool>(rt, args[0], callInvoker)"
    );
    assert_eq!(TypeAnnotation::Number.as_cxx_to_js("ret").ok().unwrap().expr, "react::bridging::toJs(rt, ret)");
    assert_eq!(TypeAnnotation::Void.as_cxx_to_js("ret").ok().unwrap().expr, "jsi::Value::undefined()");
    assert!(matches!(TypeAnnotation::Void.as_cxx_from_js(&ns, "x"), Err(ProjectionError::Unsupported)));
    assert_eq!(cxx_arg_ref(12), "args[12]");
    assert_eq!(cxx_arg_var(0), "arg0");
}

#[test]
fn deps_order_puts_dependencies_first() {
    let b = obj("B", vec![("x", TypeAnnotation::Number), ("c", color())]);
    let a = obj("A", vec![("b", b_ref()), ("maybe", nullable(obj("B", vec![])))]);
    let order = calc_deps_order(&schema(vec![a, b])).ok().unwrap();
    assert_eq!(order.len(), 4);
    assert!(pos(&order, "B") < pos(&order, "A"));
    assert!(pos(&order, "Color") < pos(&order, "B"));
    assert!(pos(&order, "NullableB") < pos(&order, "A"));
    assert!(pos(&order, "B") < pos(&order, "NullableB"));
}

fn b_ref() -> TypeAnnotation {
    obj("B", vec![])
}

#[test]
fn mutual_references_are_a_cycle() {
    let a = obj("A", vec![("b", obj("B", vec![]))]);
    let b = obj("B", vec![("a", obj("A", vec![]))]);
    match calc_deps_order(&schema(vec![a, b])) {
        Err(OrderError::Cycle(n)) => assert!(n == "A" || n == "B"),
        _ => panic!("expected a cycle"),
    }
}

#[test]
fn mutual_references_through_nullable_are_a_cycle() {
    let a = obj("A", vec![("b", nullable(obj("B", vec![])))]);
    let b = obj("B", vec![("a", obj("A", vec![]))]);
    match calc_deps_order(&schema(vec![a, b])) {
        Err(OrderError::Cycle(n)) => assert!(n == "A" || n == "B" || n == "NullableB"),
        _ => panic!("expected a cycle"),
    }
}

#[test]
fn unprojectable_nullable_field_is_an_error() {
    let a = obj("A", vec![("v", nullable(TypeAnnotation::Void))]);
    assert!(matches!(calc_deps_order(&schema(vec![a])), Err(OrderError::Projection(ProjectionError::Unsupported))));
}

#[test]
fn artifacts_are_classified_by_extension() {
    let bridge = vec![s("out/lib.rs.cc"), s("out/lib.rs.h"), s("out/readme.md"), s("out/x.c"), s("out/.h")];
    let headers_dir = vec![s("inc/cxx.h"), s("inc/a.hh"), s("inc/b.hpp")];
    let a = Artifacts::get_artifacts(&bridge, &headers_dir, s("target/libm.a"));
    assert_eq!(a.srcs, vec![s("out/lib.rs.cc"), s("out/x.c")]);
    assert_eq!(a.headers, vec![s("out/lib.rs.h"), s("inc/cxx.h"), s("inc/a.hh")]);
    assert_eq!(a.libs, vec![s("target/libm.a")]);
}

#[test]
fn rust_nullable_wrapper() {
    let w = RsNullableStruct::try_from(&nullable(TypeAnnotation::Number)).ok().unwrap();
    assert_eq!(w.definition, "#[derive(Clone)]\nstruct NullableNumber {\n    null: bool,\n    val: f64,\n}");
    assert!(w.implementation.starts_with("impl Default for NullableNumber {\n    fn default() -> Self {\n        NullableNumber {\n            null: true,\n            val: 0.0,\n"));
    assert!(w.implementation.contains("impl From<NullableNumber> for Nullable<Number> {"));
    assert!(w.implementation.contains("val: val.unwrap_or(0.0),"));
    assert!(matches!(RsNullableStruct::try_from(&TypeAnnotation::Number), Err(ProjectionError::Unsupported)));
}

#[test]
fn cxx_nullable_bridging() {
    let ns = CxxNamespace(s("craby::m"));
    let t = CxxBridgingTemplate::try_into_nullable_template(&ns, &nullable(TypeAnnotation::Boolean), &TypeAnnotation::Boolean)
        .ok()
        .unwrap();
    assert_eq!(t.namespace, "craby::m::bridging::NullableBoolean");
    assert_eq!(
        t.from_js,
        "if (value.isNull()) {\n  return craby::m::bridging::NullableBoolean{true, false};\n}\n\nauto val = react::bridging::fromJs<bool>(rt, value, callInvoker);\nauto ret = craby::m::bridging::NullableBoolean{false, val};\n\nreturn ret;"
    );
    assert_eq!(t.to_js, "if (value.null) {\n  return jsi::Value::null();\n}\n\nreturn react::bridging::toJs(rt, value.val);");
}

#[test]
fn nullable_bridgings_collected_once_and_sorted() {
    let ns = CxxNamespace(s("craby::m"));
    let sc = Schema {
        module_name: s("M"),
        methods: vec![Method {
            name: s("f"),
            params: vec![Param { name: s("x"), type_annotation: nullable(TypeAnnotation::Number) }],
            ret_type: nullable(TypeAnnotation::Number),
        }],
        signals: vec![],
        aliases: vec![obj("Rec", vec![("flag", nullable(TypeAnnotation::Boolean))])],
        enums: vec![],
    };
    let entries = sc.collect_nullable_types(&ns).ok().unwrap();
    let keys: Vec<&str> = entries.iter().map(|e| e.0.as_str()).collect();
    assert_eq!(keys, vec!["craby::m::bridging::NullableBoolean", "craby::m::bridging::NullableNumber"]);
    assert!(entries[0].1.starts_with(
        "template <>\nstruct Bridging<craby::m::bridging::NullableBoolean> {\n  static craby::m::bridging::NullableBoolean fromJs("
    ));
    assert!(entries[0].1.contains("\n    if (value.isNull()) {\n      return craby::m::bridging::NullableBoolean{true, false};\n    }\n"));
    assert!(entries[0].1.ends_with("\n    return react::bridging::toJs(rt, value.val);\n  }\n};"));
}

fn enum_of(name: &str, members: Vec<(&str, EnumMemberValue)>) -> EnumTypeAnnotation {
    EnumTypeAnnotation {
        name: s(name),
        members: members.into_iter().map(|(n, v)| EnumMember { name: s(n), value: v }).collect(),
    }
}

#[test]
fn cxx_string_enum_bridging() {
    let ns = CxxNamespace(s("craby::m"));
    let e = enum_of("Color", vec![("Red", EnumMemberValue::String(s("red"))), ("Blue", EnumMemberValue::String(s("blue")))]);
    let t = CxxBridgingTemplate::try_into_enum_template(&ns, &e).ok().unwrap();
    assert_eq!(t.namespace, "craby::m::bridging::Color");
    assert_eq!(
        t.from_js,
        "auto raw = value.asString(rt).utf8(rt);\nif (raw == \"red\") {\n  return craby::m::bridging::Color::Red;\n} else if (raw == \"blue\") {\n  return craby::m::bridging::Color::Blue;\n} else {\n  throw jsi::JSError(rt, \"Invalid enum value (Color)\");\n}"
    );
    assert_eq!(
        t.to_js,
        "switch (value) {\n  case craby::m::bridging::Color::Red:\n    return react::bridging::toJs(rt, \"red\");\n  case craby::m::bridging::Color::Blue:\n    return react::bridging::toJs(rt, \"blue\");\n  default:\n    throw jsi::JSError(rt, \"Invalid enum value (Color)\");\n}"
    );
}

#[test]
fn cxx_numeric_enum_bridging() {
    let ns = CxxNamespace(s("craby::m"));
    let e = enum_of("Switch", vec![("Off", EnumMemberValue::Number(0)), ("On", EnumMemberValue::Number(10))]);
    let t = CxxBridgingTemplate::try_into_enum_template(&ns, &e).ok().unwrap();
    assert!(t.from_js.starts_with("auto raw = value.asNumber();\nif (raw == 0) {"));
    assert!(t.from_js.contains("} else if (raw == 10) {\n  return craby::m::bridging::Switch::On;\n}"));
    assert!(t.to_js.contains("    return react::bridging::toJs(rt, 10);\n"));
    assert!(CxxBridgingTemplate::try_into_enum_template(&ns, &enum_of("Empty", vec![])).is_err());
}

#[test]
fn cxx_record_bridging() {
    let ns = CxxNamespace(s("craby::m"));
    let o = ObjectTypeAnnotation {
        name: s("User"),
        props: vec![Prop { name: s("name"), type_annotation: TypeAnnotation::String }],
    };
    let t = CxxBridgingTemplate::try_into_struct_template(&ns, &o).ok().unwrap();
    assert_eq!(t.namespace, "craby::m::bridging::User");
    assert_eq!(
        t.from_js,
        "auto obj = value.asObject(rt);\nauto obj$name = obj.getProperty(rt, \"name\");\n\nauto _obj$name = react::bridging::fromJs<rust::String>(rt, obj$name, callInvoker);\n\ncraby::m::bridging::User ret = {\n  _obj$name\n};\n\nreturn ret;"
    );
    assert_eq!(
        t.to_js,
        "jsi::Object obj = jsi::Object(rt);\nauto _obj$name = react::bridging::toJs(rt, value.name);\n\nobj.setProperty(rt, \"name\", _obj$name);\n\nreturn jsi::Value(rt, obj);"
    );
    let bad = ObjectTypeAnnotation { name: s("Bad"), props: vec![Prop { name: s("v"), type_annotation: TypeAnnotation::Void }] };
    assert!(CxxBridgingTemplate::try_into_struct_template(&ns, &bad).is_err());
}

#[test]
fn cxx_bridgings_follow_dependency_order() {
    let ns = CxxNamespace(s("craby::m"));
    let b = obj("B", vec![("x", TypeAnnotation::Number)]);
    let a = obj("A", vec![("b", obj("B", vec![("x", TypeAnnotation::Number)])), ("c", color())]);
    let sc = Schema { module_name: s("M"), methods: vec![], signals: vec![], aliases: vec![a, b], enums: vec![color()] };
    let codes = sc.as_cxx_bridging_templates(&ns).ok().unwrap();
    assert_eq!(codes.len(), 3);
    assert!(codes[0].starts_with("template <>\nstruct Bridging<craby::m::bridging::Color> {"));
    assert!(codes[1].starts_with("template <>\nstruct Bridging<craby::m::bridging::B> {"));
    assert!(codes[2].starts_with("template <>\nstruct Bridging<craby::m::bridging::A> {"));
    let cyclic = Schema {
        module_name: s("M"),
        methods: vec![],
        signals: vec![],
        aliases: vec![obj("A", vec![("b", obj("B", vec![]))]), obj("B", vec![("a", obj("A", vec![]))])],
        enums: vec![],
    };
    assert!(matches!(cyclic.as_cxx_bridging_templates(&ns), Err(OrderError::Cycle(_))));
}
