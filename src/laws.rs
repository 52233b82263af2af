use vstd::prelude::*;

use crate::analyzer::{
    AnalyzerView, DeclView, bind_effect, lookup, call_effect, enum_scan, enum_step, is_get_name,
    item_effect, items_effect, spec_id_of,
};
use crate::compile::unit_view;
use crate::convert::{diag, union_of};
use crate::diagnostics::Violation;
use crate::syntax::{Argument, CallSyntax, Callee, EnumMemberSyntax, Initializer, Item, Span, TsType};
use crate::text::{enum_members_text, fnv, hex_digits, method_text, methods_text, props_text, schema_text, schemas_text, signal_text, signals_text, type_text};
use crate::types::{EnumMemberValue, EnumTypeAnnotation, ObjectTypeAnnotation, Schema, TypeAnnotation, resolved};
use crate::schema::resolves_to;

verus! {

/// A union is a nullable only with exactly two arms, one of them `null`;
/// every other union is rejected.
pub proof fn lemma_nullable_arity(arms: Seq<TsType>)
    ensures
        arms.len() != 2 ==> union_of(arms) == Err::<TypeAnnotation, Violation>(Violation::UnionType),
        arms.len() == 2 && !(arms[0] is Null) && !(arms[1] is Null) ==> union_of(arms) == Err::<
            TypeAnnotation,
            Violation,
        >(Violation::UnionType),
{
}

/// In a resolved type, a nullable never directly wraps another nullable.
pub proof fn lemma_no_double_nullable(t: TypeAnnotation)
    requires
        resolved(t),
        t is Nullable,
    ensures
        !(*t->Nullable_0 is Nullable),
{
}

proof fn lemma_imports_keep_diagnostics(v: AnalyzerView, sps: Seq<crate::syntax::ImportSpec>, n: int)
    ensures
        crate::analyzer::import_scan(v, sps, n).diagnostics == v.diagnostics,
    decreases n,
{
    if n > 0 {
        lemma_imports_keep_diagnostics(v, sps, n - 1);
    }
}

/// Visiting an item never drops a diagnostic.
proof fn lemma_item_keeps_diagnostics(v: AnalyzerView, it: Item)
    ensures
        item_effect(v, it).diagnostics.len() >= v.diagnostics.len(),
{
    match it {
        Item::Import(d) => {
            if d.specifiers is Some {
                lemma_imports_keep_diagnostics(v, d.specifiers->0@, d.specifiers->0@.len() as int);
            }
        },
        Item::Call(c) => {
            assert(bind_effect(v, c).diagnostics.len() >= v.diagnostics.len());
        },
        _ => {},
    }
}

proof fn lemma_items_keep_diagnostics(v: AnalyzerView, items: Seq<Item>, k: int, n: int)
    requires
        0 <= k <= n,
    ensures
        items_effect(v, items, n).diagnostics.len() >= items_effect(v, items, k).diagnostics.len(),
    decreases n - k,
{
    if k < n {
        lemma_items_keep_diagnostics(v, items, k, n - 1);
        lemma_item_keeps_diagnostics(items_effect(v, items, n - 1), items[n - 1]);
    }
}

/// The call binds a specification through the registry in state `v`.
pub open spec fn is_registry_binding(v: AnalyzerView, c: CallSyntax) -> bool {
    &&& match c.callee {
        Callee::Member { object, property, .. } => v.mod_reg is Some && object == v.mod_reg && is_get_name(property@),
        Callee::NestedMember { root, property } => v.mod_ns is Some && root == v.mod_ns && is_get_name(property@),
        Callee::Other => false,
    }
    &&& spec_id_of(c) matches Ok(Some(_))
}

/// A second registry call binding a module name already bound is reported.
pub proof fn lemma_duplicate_name_reported(v: AnalyzerView, c: CallSyntax, i: int)
    requires
        is_registry_binding(v, c),
        0 <= i < v.mods.len(),
        c.first_arg matches Some(Argument::Str { value, .. }) && v.mods[i].1@ == value@,
    ensures
        call_effect(v, c).diagnostics == v.diagnostics.push(diag(Violation::DuplicateModuleName, c.first_arg->0->span)),
        call_effect(v, c).mods == v.mods,
{
    assert(call_effect(v, c) == bind_effect(v, c));
}

/// A unit with two registry calls that bind the same module name is rejected:
/// its diagnostics are not empty, so no schema is built.
pub proof fn lemma_duplicate_names_reject_unit(items: Seq<Item>, k: int, i: int)
    requires
        0 <= k < items.len(),
        items[k] is Call,
        is_registry_binding(items_effect(crate::compile::initial_view(), items, k), items[k]->Call_0),
        0 <= i < items_effect(crate::compile::initial_view(), items, k).mods.len(),
        items[k]->Call_0.first_arg matches Some(Argument::Str { value, .. })
            && items_effect(crate::compile::initial_view(), items, k).mods[i].1@ == value@,
    ensures
        unit_view(items).diagnostics.len() > 0,
{
    let v = items_effect(crate::compile::initial_view(), items, k);
    lemma_duplicate_name_reported(v, items[k]->Call_0, i);
    assert(items_effect(crate::compile::initial_view(), items, k + 1) == item_effect(v, items[k]));
    lemma_items_keep_diagnostics(crate::compile::initial_view(), items, k + 1, items.len() as int);
}

/// The value kind of a member: numeric (explicit or implied), string, or neither.
pub open spec fn member_kind(m: EnumMemberSyntax) -> Option<bool> {
    match m.initializer {
        Some(Initializer::Number { .. }) => Some(true),
        None => Some(true),
        Some(Initializer::Str(_)) => Some(false),
        Some(Initializer::Other) => None,
    }
}

proof fn lemma_mixed_stays(ms: Seq<EnumMemberSyntax>, span: Span, k: int, n: int)
    requires
        0 <= k <= n,
        enum_scan(ms, span, k).mixed,
    ensures
        enum_scan(ms, span, n).mixed,
        enum_scan(ms, span, n).diagnostics.len() >= enum_scan(ms, span, k).diagnostics.len(),
    decreases n - k,
{
    if k < n {
        lemma_mixed_stays(ms, span, k, n - 1);
    }
}

proof fn lemma_mixed_has_diagnostic(ms: Seq<EnumMemberSyntax>, span: Span, n: int)
    requires
        0 <= n,
    ensures
        enum_scan(ms, span, n).mixed ==> enum_scan(ms, span, n).diagnostics.len() > 0,
    decreases n,
{
    if n > 0 {
        lemma_mixed_has_diagnostic(ms, span, n - 1);
    }
}

/// Once member `i` is scanned, the scan is mixed or keeps the kind of `i`
/// while every later member agrees with it.
proof fn lemma_kind_kept(ms: Seq<EnumMemberSyntax>, span: Span, i: int, n: int)
    requires
        0 <= i < n <= ms.len(),
        member_kind(ms[i]) is Some,
    ensures
        enum_scan(ms, span, n).mixed || (enum_scan(ms, span, n).numeric == member_kind(ms[i])
            && forall|q: int| i < q < n ==> member_kind(#[trigger] ms[q]) is None || member_kind(ms[q]) == member_kind(ms[i])),
    decreases n - i,
{
    assert(enum_scan(ms, span, n) == enum_step(enum_scan(ms, span, n - 1), ms[n - 1], span));
    if n > i + 1 {
        lemma_kind_kept(ms, span, i, n - 1);
    }
}

/// An enum with both a string member and a numeric member is rejected with a
/// diagnostic, and its declaration is dropped.
pub proof fn lemma_mixed_enum_rejected(ms: Seq<EnumMemberSyntax>, span: Span, i: int, j: int)
    requires
        0 <= i < j < ms.len(),
        member_kind(ms[i]) is Some,
        member_kind(ms[j]) is Some,
        member_kind(ms[i]) != member_kind(ms[j]),
    ensures
        enum_scan(ms, span, ms.len() as int).mixed,
        enum_scan(ms, span, ms.len() as int).diagnostics.len() > 0,
{
    lemma_kind_kept(ms, span, i, j + 1);
    assert(!(member_kind(ms[j]) is None || member_kind(ms[j]) == member_kind(ms[i])));
    lemma_mixed_stays(ms, span, j + 1, ms.len() as int);
    lemma_mixed_has_diagnostic(ms, span, ms.len() as int);
}

/// After a member with the explicit value `n`, an unannotated member takes `n + 1`.
pub proof fn lemma_enum_auto_increment(ms: Seq<EnumMemberSyntax>, span: Span, k: int, n: usize)
    requires
        0 <= k,
        k + 1 < ms.len(),
        ms[k].initializer == Some(Initializer::Number { value: n, fractional: false }),
        ms[k + 1].initializer is None,
        !enum_scan(ms, span, k + 2).mixed,
    ensures
        enum_scan(ms, span, k + 2).members.last().value == EnumMemberValue::Number((n + 1) as usize),
{
    if enum_scan(ms, span, k).mixed {
        lemma_mixed_stays(ms, span, k, k + 2);
    }
    if enum_scan(ms, span, k + 1).mixed {
        lemma_mixed_stays(ms, span, k + 1, k + 2);
    }
}

/// The content hash is a function of the schemas' canonical text: schemas
/// with the same text, such as those of the same source compiled twice or of
/// sources that differ only in formatting, get the same hash.
pub proof fn lemma_hash_follows_text(a: Seq<Schema>, b: Seq<Schema>)
    requires
        schemas_text(a, a.len() as int) == schemas_text(b, b.len() as int),
    ensures
        ({
            let ta = schemas_text(a, a.len() as int);
            let tb = schemas_text(b, b.len() as int);
            hex_digits(fnv(ta, ta.len() as int) as nat, 16) == hex_digits(fnv(tb, tb.len() as int) as nat, 16)
        }),
{
}

/// The analysis of a unit is a function of its items.
pub proof fn lemma_analysis_deterministic(a: Seq<Item>, b: Seq<Item>)
    requires
        a == b,
    ensures
        unit_view(a) == unit_view(b),
{
}

/// Adding a method to a schema changes its canonical text.
pub proof fn lemma_added_method_changes_text(s: Schema, t: Schema, m: crate::types::Method)
    requires
        t.module_name == s.module_name,
        t.methods@ == s.methods@.push(m),
        t.signals@ == s.signals@,
        t.aliases@ == s.aliases@,
        t.enums@ == s.enums@,
    ensures
        schema_text(t) != schema_text(s),
{
    let n = s.methods@.len() as int;
    assert(methods_text(t.methods@, n) == methods_text(s.methods@, n)) by {
        lemma_methods_text_prefix(s.methods@, t.methods@, n);
    }
    assert(methods_text(t.methods@, n + 1) == methods_text(s.methods@, n) + method_text(m));
    reveal_strlit("method ");
    assert(method_text(m).len() > 0);
    assert(methods_text(t.methods@, t.methods@.len() as int).len() > methods_text(s.methods@, s.methods@.len() as int).len());
    assert(schema_text(t).len() > schema_text(s).len());
}

proof fn lemma_methods_text_prefix(a: Seq<crate::types::Method>, b: Seq<crate::types::Method>, k: int)
    requires
        0 <= k <= a.len(),
        k <= b.len(),
        forall|i: int| 0 <= i < k ==> a[i] == b[i],
    ensures
        methods_text(a, k) == methods_text(b, k),
    decreases k,
{
    if k > 0 {
        lemma_methods_text_prefix(a, b, k - 1);
    }
}

/// A type that is not a nullable has a text that no nullable's text equals.
proof fn lemma_text_marks_nullable(x: TypeAnnotation, y: TypeAnnotation)
    requires
        !(x is Nullable),
        y is Nullable,
    ensures
        type_text(x) != type_text(y),
{
    reveal_strlit("nullable<");
    reveal_strlit("void");
    reveal_strlit("boolean");
    reveal_strlit("number");
    reveal_strlit("string");
    reveal_strlit("arraybuffer");
    reveal_strlit("array<");
    reveal_strlit("promise<");
    reveal_strlit("object ");
    reveal_strlit("enum ");
    reveal_strlit("ref ");
    let ty = type_text(y);
    assert(ty[0] == 'n' && ty[1] == 'u' && ty[2] == 'l');
    let tx = type_text(x);
    if x is Number {
        assert(tx[2] == 'm');
    } else {
        assert(tx[0] != 'n');
    }
}

/// Resolution is deterministic: two resolutions of one type against the
/// same declarations have the same canonical text.
pub proof fn lemma_resolution_deterministic(
    t: TypeAnnotation,
    r1: TypeAnnotation,
    r2: TypeAnnotation,
    dv: Seq<(u32, DeclView)>,
    fuel: nat,
)
    requires
        resolves_to(t, r1, dv, fuel),
        resolves_to(t, r2, dv, fuel),
    ensures
        type_text(r1) == type_text(r2),
    decreases fuel, t,
{
    match t {
        TypeAnnotation::Ref(rf) => {
            match lookup(dv, rf.symbol->0)->0 {
                DeclView::Record(n, ps) => {
                    let o1 = r1->Object_0;
                    let o2 = r2->Object_0;
                    assert forall|j: int| 0 <= j < o1.props@.len() implies (#[trigger] o1.props@[j]).name == o2.props@[j].name
                        && type_text(o1.props@[j].type_annotation) == type_text(o2.props@[j].type_annotation) by {
                        lemma_resolution_deterministic(ps[j].type_annotation, o1.props@[j].type_annotation, o2.props@[j].type_annotation, dv, (fuel - 1) as nat);
                    }
                    lemma_props_text_same(o1, o2, o1.props@.len() as int);
                },
                DeclView::Enumeration(n, ms) => {
                    lemma_enum_text_same(r1->Enum_0, r2->Enum_0, r1->Enum_0.members@.len() as int);
                },
                DeclView::Other(d) => {
                    lemma_resolution_deterministic(d, r1, r2, dv, (fuel - 1) as nat);
                },
            }
        },
        TypeAnnotation::Object(o) => {
            let o1 = r1->Object_0;
            let o2 = r2->Object_0;
            assert forall|j: int| 0 <= j < o1.props@.len() implies (#[trigger] o1.props@[j]).name == o2.props@[j].name
                && type_text(o1.props@[j].type_annotation) == type_text(o2.props@[j].type_annotation) by {
                assert(decreases_to!(t => o));
                assert(decreases_to!(o => o.props));
                assert(decreases_to!(o.props => o.props@));
                assert(decreases_to!(o.props@ => o.props@[j]));
                assert(decreases_to!(o.props@[j] => o.props@[j].type_annotation));
                lemma_resolution_deterministic(o.props@[j].type_annotation, o1.props@[j].type_annotation, o2.props@[j].type_annotation, dv, fuel);
            }
            lemma_props_text_same(o1, o2, o1.props@.len() as int);
        },
        TypeAnnotation::Enum(e) => {
            lemma_enum_text_same(r1->Enum_0, r2->Enum_0, r1->Enum_0.members@.len() as int);
        },
        TypeAnnotation::Array(e) => {
            lemma_resolution_deterministic(*e, *r1->Array_0, *r2->Array_0, dv, fuel);
        },
        TypeAnnotation::Promise(e) => {
            lemma_resolution_deterministic(*e, *r1->Promise_0, *r2->Promise_0, dv, fuel);
        },
        TypeAnnotation::Nullable(e) => {
            let a1 = resolves_to(*e, *r1->Nullable_0, dv, fuel) && !(*r1->Nullable_0 is Nullable);
            let a2 = resolves_to(*e, *r2->Nullable_0, dv, fuel) && !(*r2->Nullable_0 is Nullable);
            if a1 && a2 {
                lemma_resolution_deterministic(*e, *r1->Nullable_0, *r2->Nullable_0, dv, fuel);
            } else if !a1 && !a2 {
                lemma_resolution_deterministic(*e, r1, r2, dv, fuel);
            } else if a1 {
                lemma_resolution_deterministic(*e, *r1->Nullable_0, r2, dv, fuel);
                lemma_text_marks_nullable(*r1->Nullable_0, r2);
            } else {
                lemma_resolution_deterministic(*e, r1, *r2->Nullable_0, dv, fuel);
                lemma_text_marks_nullable(*r2->Nullable_0, r1);
            }
        },
        _ => {},
    }
}

proof fn lemma_props_text_same(a: ObjectTypeAnnotation, b: ObjectTypeAnnotation, n: int)
    requires
        a.props@.len() == b.props@.len(),
        0 <= n <= a.props@.len(),
        forall|j: int| 0 <= j < a.props@.len() ==> (#[trigger] a.props@[j]).name == b.props@[j].name
            && type_text(a.props@[j].type_annotation) == type_text(b.props@[j].type_annotation),
    ensures
        props_text(a, n) == props_text(b, n),
    decreases n,
{
    if n > 0 {
        lemma_props_text_same(a, b, n - 1);
        assert(a.props@[n - 1].name == b.props@[n - 1].name);
    }
}

proof fn lemma_enum_text_same(a: EnumTypeAnnotation, b: EnumTypeAnnotation, n: int)
    requires
        a.members@ == b.members@,
        0 <= n <= a.members@.len(),
    ensures
        enum_members_text(a, n) == enum_members_text(b, n),
    decreases n,
{
    if n > 0 {
        lemma_enum_text_same(a, b, n - 1);
    }
}

/// Adding a signal to a schema changes its canonical text.
pub proof fn lemma_added_signal_changes_text(s: Schema, t: Schema, x: crate::types::Signal)
    requires
        t.module_name == s.module_name,
        t.methods@ == s.methods@,
        t.signals@ == s.signals@.push(x),
        t.aliases@ == s.aliases@,
        t.enums@ == s.enums@,
    ensures
        schema_text(t) != schema_text(s),
{
    let n = s.signals@.len() as int;
    assert(signals_text(t.signals@, n) == signals_text(s.signals@, n)) by {
        lemma_signals_text_prefix(s.signals@, t.signals@, n);
    }
    assert(signals_text(t.signals@, n + 1) == signals_text(s.signals@, n) + signal_text(x));
    reveal_strlit("signal ");
    assert(signal_text(x).len() > 0);
    assert(signals_text(t.signals@, t.signals@.len() as int).len() > signals_text(s.signals@, s.signals@.len() as int).len());
    assert(schema_text(t).len() > schema_text(s).len());
}

proof fn lemma_signals_text_prefix(a: Seq<crate::types::Signal>, b: Seq<crate::types::Signal>, k: int)
    requires
        0 <= k <= a.len(),
        k <= b.len(),
        forall|i: int| 0 <= i < k ==> a[i] == b[i],
    ensures
        signals_text(a, k) == signals_text(b, k),
    decreases k,
{
    if k > 0 {
        lemma_signals_text_prefix(a, b, k - 1);
    }
}

/// A declared enum mixing a string member and a numeric member adds a
/// diagnostic and no declaration, so the unit yields no schema.
pub proof fn lemma_mixed_enum_effect(v: AnalyzerView, it: crate::syntax::EnumDecl, i: int, j: int)
    requires
        !it.declare,
        0 <= i < j < it.members@.len(),
        member_kind(it.members@[i]) is Some,
        member_kind(it.members@[j]) is Some,
        member_kind(it.members@[i]) != member_kind(it.members@[j]),
    ensures
        crate::analyzer::enum_effect(v, it).diagnostics.len() > v.diagnostics.len(),
        crate::analyzer::enum_effect(v, it).decls == v.decls,
{
    lemma_mixed_enum_rejected(it.members@, it.span, i, j);
}

} // verus!
