use craby_codegen::compile::{analyze, ParseError};
use craby_codegen::diagnostics::Violation;
use craby_codegen::schema::SchemaError;
use craby_codegen::syntax::{
    AliasBody, AliasDecl, Argument, CallSyntax, Callee, EnumDecl, EnumMemberSyntax, Heritage,
    ImportDecl, ImportSpec, Initializer, InterfaceDecl, Item, Key, MemberSyntax, ParamSyntax,
    Span, TsType,
};
use craby_codegen::types::{EnumMemberValue, Schema, TypeAnnotation};

const MODULE_SYM: u32 = 1;
const REGISTRY_SYM: u32 = 2;
const SIGNAL_SYM: u32 = 3;
const SPEC_SYM: u32 = 10;

fn sp() -> Span {
    Span { start: 0, end: 0 }
}

fn s(v: &str) -> String {
    v.to_string()
}

fn imports() -> Item {
    Item::Import(ImportDecl {
        source: s("craby-modules"),
        specifiers: Some(vec![
            ImportSpec::Named { imported: s("NativeModule"), local: Some(MODULE_SYM) },
            ImportSpec::Named { imported: s("NativeModuleRegistry"), local: Some(REGISTRY_SYM) },
            ImportSpec::Named { imported: s("Signal"), local: Some(SIGNAL_SYM) },
        ]),
    })
}

fn reference(name: &str, symbol: Option<u32>) -> TsType {
    TsType::Reference { name: s(name), symbol, args: None }
}

fn generic(name: &str, args: Vec<TsType>) -> TsType {
    TsType::Reference { name: s(name), symbol: None, args: Some(args) }
}

fn param(name: &str, t: TsType) -> ParamSyntax {
    ParamSyntax { name: Some(s(name)), optional: false, decorated: false, type_annotation: Some(t), span: sp() }
}

fn method(name: &str, params: Vec<ParamSyntax>, ret: TsType) -> MemberSyntax {
    MemberSyntax::Method {
        key: Key::Static(s(name)),
        computed: false,
        optional: false,
        params,
        return_type: Some(ret),
        span: sp(),
    }
}

fn prop(name: &str, t: TsType) -> MemberSyntax {
    MemberSyntax::Property { key: Key::Static(s(name)), optional: false, type_annotation: Some(t), span: sp() }
}

fn spec(members: Vec<MemberSyntax>) -> Item {
    Item::Interface(InterfaceDecl {
        name: s("Spec"),
        symbol: SPEC_SYM,
        declare: false,
        extends: vec![Heritage::Ident(Some(MODULE_SYM))],
        members,
        span: sp(),
    })
}

fn record(name: &str, symbol: u32, members: Vec<MemberSyntax>) -> Item {
    Item::Alias(AliasDecl {
        name: s(name),
        symbol,
        declare: false,
        type_param_count: 0,
        body: AliasBody::Literal(members),
        span: sp(),
    })
}

fn union_alias(name: &str, symbol: u32, arms: Vec<TsType>) -> Item {
    Item::Alias(AliasDecl {
        name: s(name),
        symbol,
        declare: false,
        type_param_count: 0,
        body: AliasBody::Union(arms),
        span: sp(),
    })
}

fn enum_decl(name: &str, symbol: u32, members: Vec<(&str, Option<Initializer>)>) -> Item {
    Item::Enum(EnumDecl {
        name: s(name),
        symbol,
        declare: false,
        members: members
            .into_iter()
            .map(|(n, i)| EnumMemberSyntax { name: s(n), initializer: i })
            .collect(),
        span: sp(),
    })
}

fn registry(module: &str) -> Item {
    Item::Call(CallSyntax {
        callee: Callee::Member { object: Some(REGISTRY_SYM), property: s("getEnforcing"), property_span: sp() },
        type_args: Some(vec![reference("Spec", Some(SPEC_SYM))]),
        first_arg: Some(Argument::Str { value: s(module), span: sp() }),
        span: sp(),
    })
}

fn one_schema(items: Vec<Item>) -> Schema {
    let mut v = analyze(&items).ok().expect("analysis succeeds");
    assert_eq!(v.len(), 1);
    v.remove(0)
}

fn violations(items: Vec<Item>) -> Vec<Violation> {
    match analyze(&items) {
        Err(ParseError::Diagnostics(d)) => d.into_iter().map(|d| d.violation).collect(),
        Err(ParseError::General(e)) => panic!("unexpected schema error {:?}", e),
        Ok(_) => panic!("analysis unexpectedly succeeded"),
    }
}

#[test]
fn scenario_calc_add_method() {
    let sc = one_schema(vec![
        imports(),
        spec(vec![method("add", vec![param("a", TsType::Number), param("b", TsType::Number)], TsType::Number)]),
        registry("Calc"),
    ]);
    assert_eq!(sc.module_name, "Calc");
    assert_eq!(sc.methods.len(), 1);
    assert_eq!(sc.methods[0].name, "add");
    assert_eq!(sc.methods[0].params.len(), 2);
    assert_eq!(sc.methods[0].params[0].name, "a");
    assert!(matches!(sc.methods[0].params[0].type_annotation, TypeAnnotation::Number));
    assert_eq!(sc.methods[0].params[1].name, "b");
    assert!(matches!(sc.methods[0].params[1].type_annotation, TypeAnnotation::Number));
    assert!(matches!(sc.methods[0].ret_type, TypeAnnotation::Number));
    assert!(sc.signals.is_empty());
    assert!(sc.aliases.is_empty());
    assert!(sc.enums.is_empty());
}

#[test]
fn scenario_signal_without_payload() {
    let sc = one_schema(vec![
        imports(),
        spec(vec![prop("onDone", reference("Signal", Some(SIGNAL_SYM)))]),
        registry("Done"),
    ]);
    assert_eq!(sc.signals.len(), 1);
    assert_eq!(sc.signals[0].name, "onDone");
    assert!(sc.signals[0].payload_type.is_none());
}

#[test]
fn signal_with_payload_type() {
    let sc = one_schema(vec![
        imports(),
        spec(vec![prop(
            "onValue",
            TsType::Reference { name: s("Signal"), symbol: Some(SIGNAL_SYM), args: Some(vec![TsType::Number]) },
        )]),
        registry("Values"),
    ]);
    assert!(matches!(sc.signals[0].payload_type, Some(TypeAnnotation::Number)));
}

#[test]
fn scenario_promise_of_record() {
    let sc = one_schema(vec![
        imports(),
        record("User", 20, vec![prop("name", TsType::String)]),
        spec(vec![method("getUser", vec![], generic("Promise", vec![reference("User", Some(20))]))]),
        registry("Users"),
    ]);
    match &sc.methods[0].ret_type {
        TypeAnnotation::Promise(inner) => match &**inner {
            TypeAnnotation::Object(o) => {
                assert_eq!(o.name, "User");
                assert_eq!(o.props.len(), 1);
                assert_eq!(o.props[0].name, "name");
                assert!(matches!(o.props[0].type_annotation, TypeAnnotation::String));
            }
            _ => panic!("expected a record"),
        },
        _ => panic!("expected a promise"),
    }
    assert_eq!(sc.aliases.len(), 1);
    assert!(matches!(&sc.aliases[0], TypeAnnotation::Object(o) if o.name == "User"));
}

#[test]
fn record_used_twice_is_collected_once() {
    let sc = one_schema(vec![
        imports(),
        record("User", 20, vec![prop("name", TsType::String)]),
        spec(vec![method("setUser", vec![param("u", reference("User", Some(20)))], reference("User", Some(20)))]),
        registry("Users"),
    ]);
    assert_eq!(sc.aliases.len(), 1);
}

#[test]
fn nested_record_is_collected() {
    let sc = one_schema(vec![
        imports(),
        record("Inner", 21, vec![prop("x", TsType::Number)]),
        record("Outer", 22, vec![prop("inner", TsType::Union(vec![reference("Inner", Some(21)), TsType::Null]))]),
        spec(vec![method("get", vec![], reference("Outer", Some(22)))]),
        registry("Nested"),
    ]);
    assert_eq!(sc.aliases.len(), 2);
    assert!(matches!(&sc.aliases[0], TypeAnnotation::Object(o) if o.name == "Inner"));
    assert!(matches!(&sc.aliases[1], TypeAnnotation::Object(o) if o.name == "Outer"));
}

#[test]
fn methods_sorted_case_insensitively() {
    let sc = one_schema(vec![
        imports(),
        spec(vec![
            method("zeta", vec![], TsType::Void),
            method("Banana", vec![], TsType::Void),
            method("apple", vec![], TsType::Void),
        ]),
        registry("Sorted"),
    ]);
    let names: Vec<&str> = sc.methods.iter().map(|m| m.name.as_str()).collect();
    assert_eq!(names, vec!["apple", "Banana", "zeta"]);
}

#[test]
fn duplicate_module_name_rejected() {
    let v = violations(vec![imports(), spec(vec![method("f", vec![], TsType::Void)]), registry("Same"), registry("Same")]);
    assert_eq!(v, vec![Violation::DuplicateModuleName]);
}

#[test]
fn mixed_enum_rejected() {
    let v = violations(vec![
        imports(),
        enum_decl("Mixed", 30, vec![("A", Some(Initializer::Str(s("a")))), ("B", Some(Initializer::Number { value: 1, fractional: false }))]),
    ]);
    assert_eq!(v, vec![Violation::MixedEnumMembers]);
}

#[test]
fn mixed_enum_with_unannotated_member_rejected() {
    let v = violations(vec![imports(), enum_decl("Mixed", 30, vec![("A", None), ("B", Some(Initializer::Str(s("b"))))])]);
    assert_eq!(v, vec![Violation::MixedEnumMembers]);
}

#[test]
fn enum_unannotated_member_follows_explicit_value() {
    let sc = one_schema(vec![
        imports(),
        enum_decl("Level", 30, vec![
            ("Low", None),
            ("Mid", Some(Initializer::Number { value: 5, fractional: false })),
            ("High", None),
            ("Top", Some(Initializer::Number { value: 1, fractional: false })),
            ("Next", None),
        ]),
        spec(vec![method("level", vec![], reference("Level", Some(30)))]),
        registry("Levels"),
    ]);
    assert_eq!(sc.enums.len(), 1);
    match &sc.enums[0] {
        TypeAnnotation::Enum(e) => {
            let values: Vec<usize> = e
                .members
                .iter()
                .map(|m| match m.value {
                    EnumMemberValue::Number(n) => n,
                    _ => panic!("numeric enum"),
                })
                .collect();
            assert_eq!(values, vec![0, 5, 6, 1, 2]);
        }
        _ => panic!("expected an enum"),
    }
}

#[test]
fn string_enum_keeps_values() {
    let sc = one_schema(vec![
        imports(),
        enum_decl("Color", 31, vec![("Red", Some(Initializer::Str(s("red")))), ("Blue", Some(Initializer::Str(s("blue"))))]),
        spec(vec![method("color", vec![], reference("Color", Some(31)))]),
        registry("Colors"),
    ]);
    match &sc.enums[0] {
        TypeAnnotation::Enum(e) => {
            assert!(matches!(&e.members[0].value, EnumMemberValue::String(v) if v == "red"));
            assert!(matches!(&e.members[1].value, EnumMemberValue::String(v) if v == "blue"));
        }
        _ => panic!("expected an enum"),
    }
}

#[test]
fn float_enum_member_rejected() {
    let v = violations(vec![imports(), enum_decl("F", 32, vec![("A", Some(Initializer::Number { value: 1, fractional: true }))])]);
    assert_eq!(v, vec![Violation::FloatEnumMember]);
}

#[test]
fn union_with_three_arms_rejected() {
    let v = violations(vec![
        imports(),
        spec(vec![method("f", vec![param("x", TsType::Union(vec![TsType::Number, TsType::String, TsType::Null]))], TsType::Void)]),
        registry("U"),
    ]);
    assert_eq!(v, vec![Violation::UnionType]);
}

#[test]
fn union_without_null_rejected() {
    let v = violations(vec![
        imports(),
        spec(vec![method("f", vec![param("x", TsType::Union(vec![TsType::Number, TsType::String]))], TsType::Void)]),
        registry("U"),
    ]);
    assert_eq!(v, vec![Violation::UnionType]);
}

#[test]
fn nullable_of_nullable_alias_collapses() {
    let sc = one_schema(vec![
        imports(),
        union_alias("MaybeNumber", 40, vec![TsType::Number, TsType::Null]),
        spec(vec![method("f", vec![param("x", TsType::Union(vec![reference("MaybeNumber", Some(40)), TsType::Null]))], TsType::Void)]),
        registry("N"),
    ]);
    match &sc.methods[0].params[0].type_annotation {
        TypeAnnotation::Nullable(inner) => assert!(matches!(&**inner, TypeAnnotation::Number)),
        _ => panic!("expected a nullable"),
    }
}

#[test]
fn nullable_promise_rejected() {
    let v = violations(vec![
        imports(),
        spec(vec![method("f", vec![], TsType::Union(vec![generic("Promise", vec![TsType::Number]), TsType::Null]))]),
        registry("P"),
    ]);
    assert_eq!(v, vec![Violation::NullablePromise]);
}

#[test]
fn reserved_names_rejected() {
    let v = violations(vec![
        imports(),
        spec(vec![method("emit", vec![], TsType::Void)]),
        spec(vec![method("f", vec![param("it_", TsType::Number)], TsType::Void)]),
        record("Promise", 50, vec![]),
        record("NullableThing", 51, vec![]),
        registry("R"),
    ]);
    assert_eq!(
        v,
        vec![Violation::ReservedMethodName, Violation::ReservedArgName, Violation::ReservedType, Violation::NullablePrefix]
    );
}

#[test]
fn optional_and_computed_members_rejected() {
    let optional_method = MemberSyntax::Method {
        key: Key::Static(s("f")),
        computed: false,
        optional: true,
        params: vec![],
        return_type: Some(TsType::Void),
        span: sp(),
    };
    let computed_method = MemberSyntax::Method {
        key: Key::Other,
        computed: true,
        optional: false,
        params: vec![],
        return_type: Some(TsType::Void),
        span: sp(),
    };
    let optional_param = ParamSyntax { name: Some(s("x")), optional: true, decorated: false, type_annotation: Some(TsType::Number), span: sp() };
    let optional_prop = MemberSyntax::Property { key: Key::Static(s("x")), optional: true, type_annotation: Some(TsType::Number), span: sp() };
    let v = violations(vec![
        imports(),
        spec(vec![optional_method]),
        spec(vec![computed_method]),
        spec(vec![method("g", vec![optional_param], TsType::Void)]),
        record("Rec", 52, vec![optional_prop]),
    ]);
    assert_eq!(
        v,
        vec![Violation::OptionalSignature, Violation::ComputedSignature, Violation::OptionalParameter, Violation::OptionalProperty]
    );
}

#[test]
fn unsupported_type_shapes_rejected() {
    let v = violations(vec![
        imports(),
        spec(vec![method("f", vec![param("cb", TsType::Function)], TsType::Void)]),
        spec(vec![method("g", vec![param("o", TsType::Literal)], TsType::Void)]),
        spec(vec![method("h", vec![], generic("Promise", vec![]))]),
        spec(vec![method("i", vec![param("q", TsType::Qualified)], TsType::Void)]),
        spec(vec![prop("notSignal", TsType::Number)]),
    ]);
    assert_eq!(
        v,
        vec![
            Violation::FunctionType,
            Violation::TypeLiteral,
            Violation::InvalidPromise,
            Violation::InvalidTypeReference,
            Violation::InvalidSpec,
        ]
    );
}

#[test]
fn generic_alias_rejected() {
    let v = violations(vec![
        imports(),
        Item::Alias(AliasDecl {
            name: s("Box"),
            symbol: 53,
            declare: false,
            type_param_count: 1,
            body: AliasBody::Literal(vec![]),
            span: sp(),
        }),
    ]);
    assert_eq!(v, vec![Violation::TypeParameters]);
}

#[test]
fn registry_call_errors_reported() {
    let call = |type_args: Option<Vec<TsType>>, first_arg: Option<Argument>, property: &str| {
        Item::Call(CallSyntax {
            callee: Callee::Member { object: Some(REGISTRY_SYM), property: s(property), property_span: sp() },
            type_args,
            first_arg,
            span: sp(),
        })
    };
    let name = || Some(Argument::Str { value: s("M"), span: sp() });
    let v = violations(vec![
        imports(),
        call(None, name(), "get"),
        call(Some(vec![]), name(), "get"),
        call(Some(vec![reference("Spec", Some(SPEC_SYM)), TsType::Number]), name(), "get"),
        call(Some(vec![TsType::Number]), name(), "get"),
        call(Some(vec![TsType::Qualified]), name(), "get"),
        call(Some(vec![reference("Spec", Some(SPEC_SYM))]), Some(Argument::Other), "get"),
        call(Some(vec![reference("Spec", Some(SPEC_SYM))]), None, "get"),
        call(Some(vec![reference("Spec", Some(SPEC_SYM))]), name(), "find"),
    ]);
    assert_eq!(
        v,
        vec![
            Violation::MissingSpecGeneric,
            Violation::MissingSpecGeneric,
            Violation::SpecGenericCount,
            Violation::SpecGenericNotReference,
            Violation::InvalidSpecReference,
            Violation::ModuleNameNotLiteral,
            Violation::ModuleNameMissing,
            Violation::InvalidRegistryMethod,
        ]
    );
}

#[test]
fn namespace_import_is_recognized() {
    let sc = one_schema(vec![
        Item::Import(ImportDecl { source: s("craby-modules"), specifiers: Some(vec![ImportSpec::Namespace { binding: 5 }]) }),
        Item::Interface(InterfaceDecl {
            name: s("Spec"),
            symbol: SPEC_SYM,
            declare: false,
            extends: vec![Heritage::Member { object: Some(5), property: s("NativeModule") }],
            members: vec![method("myMethod", vec![], TsType::Void)],
            span: sp(),
        }),
        Item::Call(CallSyntax {
            callee: Callee::NestedMember { root: Some(5), property: s("getEnforcing") },
            type_args: Some(vec![reference("Spec", Some(SPEC_SYM))]),
            first_arg: Some(Argument::Str { value: s("MyModule"), span: sp() }),
            span: sp(),
        }),
    ]);
    assert_eq!(sc.module_name, "MyModule");
    assert_eq!(sc.methods[0].name, "myMethod");
}

#[test]
fn interface_without_marker_is_a_record() {
    let v = analyze(&vec![imports(), Item::Interface(InterfaceDecl {
        name: s("Plain"),
        symbol: 60,
        declare: false,
        extends: vec![],
        members: vec![prop("x", TsType::Number)],
        span: sp(),
    })])
    .ok()
    .expect("a plain record is accepted");
    assert!(v.is_empty());
}

#[test]
fn unbound_specification_is_an_error() {
    match analyze(&vec![imports(), spec(vec![method("f", vec![], TsType::Void)])]) {
        Err(ParseError::General(SchemaError::ModuleNameNotFound(n))) => assert_eq!(n, "Spec"),
        _ => panic!("expected a missing module name"),
    }
}

#[test]
fn unresolved_reference_is_an_error() {
    match analyze(&vec![imports(), spec(vec![method("f", vec![], reference("Missing", None))]), registry("M")]) {
        Err(ParseError::General(SchemaError::Unresolved(n))) => assert_eq!(n, "Missing"),
        _ => panic!("expected an unresolved reference"),
    }
}

#[test]
fn self_referencing_record_is_an_error() {
    match analyze(&vec![
        imports(),
        record("Node", 70, vec![prop("next", reference("Node", Some(70)))]),
        spec(vec![method("f", vec![], reference("Node", Some(70)))]),
        registry("M"),
    ]) {
        Err(ParseError::General(SchemaError::CyclicReference(n))) => assert_eq!(n, "Node"),
        _ => panic!("expected a cyclic reference"),
    }
}

#[test]
fn array_buffer_is_recognized() {
    let sc = one_schema(vec![
        imports(),
        spec(vec![method("bytes", vec![param("b", reference("ArrayBuffer", None))], TsType::Array(Box::new(TsType::Number)))]),
        registry("B"),
    ]);
    assert!(matches!(sc.methods[0].params[0].type_annotation, TypeAnnotation::ArrayBuffer));
}

#[test]
fn hash_is_deterministic_and_sensitive() {
    let unit = |extra: bool| {
        let mut members = vec![method("foo", vec![], TsType::Void), method("bar", vec![], TsType::Void)];
        if extra {
            members.push(method("baz", vec![], TsType::Void));
        }
        vec![imports(), spec(members), registry("MyModule")]
    };
    let h1 = Schema::to_hash(&analyze(&unit(false)).ok().unwrap());
    let h2 = Schema::to_hash(&analyze(&unit(false)).ok().unwrap());
    let h3 = Schema::to_hash(&analyze(&unit(true)).ok().unwrap());
    assert_eq!(h1.len(), 16);
    assert_eq!(h1, h2);
    assert_ne!(h1, h3);
}

#[test]
fn hash_ignores_declaration_order() {
    let a = vec![imports(), spec(vec![method("foo", vec![], TsType::Void), method("bar", vec![], TsType::Void)]), registry("M")];
    let b = vec![imports(), spec(vec![method("bar", vec![], TsType::Void), method("foo", vec![], TsType::Void)]), registry("M")];
    assert_eq!(Schema::to_hash(&analyze(&a).ok().unwrap()), Schema::to_hash(&analyze(&b).ok().unwrap()));
}

#[test]
fn hash_of_no_schemas_is_fnv_offset() {
    assert_eq!(Schema::to_hash(&vec![]), "cbf29ce484222325");
}

#[test]
fn violation_messages() {
    assert_eq!(Violation::UnionType.message(), "Union types only allow nullable type (eg. `T | null`)");
    assert_eq!(Violation::ReservedMethodName.message(), "Reserved method name `emit` is not allowed");
    assert_eq!(Violation::DuplicateModuleName.message(), "Duplicate module name");
}

#[test]
fn promise_outside_return_rejected() {
    let v = violations(vec![
        imports(),
        spec(vec![method("f", vec![param("p", generic("Promise", vec![TsType::Number]))], TsType::Void)]),
        spec(vec![method("g", vec![], TsType::Array(Box::new(generic("Promise", vec![TsType::Number]))))]),
        spec(vec![method("h", vec![], generic("Promise", vec![generic("Promise", vec![TsType::Number])]))]),
        record("Rec", 80, vec![prop("p", generic("Promise", vec![TsType::Number]))]),
    ]);
    assert_eq!(
        v,
        vec![Violation::PromisePosition, Violation::PromisePosition, Violation::PromisePosition, Violation::PromisePosition]
    );
}

#[test]
fn reserved_enum_names_rejected() {
    let v = violations(vec![
        imports(),
        enum_decl("Promise", 81, vec![("A", None)]),
        enum_decl("NullableKind", 82, vec![("A", None)]),
    ]);
    assert_eq!(v, vec![Violation::ReservedType, Violation::NullablePrefix]);
}

#[test]
fn unused_declarations_stay_out_of_the_schema() {
    let sc = one_schema(vec![
        imports(),
        record("Unused", 90, vec![prop("x", TsType::Number)]),
        enum_decl("UnusedEnum", 91, vec![("A", None)]),
        spec(vec![method("add", vec![param("a", TsType::Number)], TsType::Number)]),
        registry("Calc"),
    ]);
    assert!(sc.aliases.is_empty());
    assert!(sc.enums.is_empty());
}

#[test]
fn equal_lowercase_names_keep_declaration_order() {
    let sc = one_schema(vec![
        imports(),
        spec(vec![method("foo", vec![], TsType::Void), method("bar", vec![], TsType::Void), method("Foo", vec![], TsType::Number)]),
        registry("Stable"),
    ]);
    let names: Vec<&str> = sc.methods.iter().map(|m| m.name.as_str()).collect();
    assert_eq!(names, vec!["bar", "foo", "Foo"]);
}
