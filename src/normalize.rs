use vstd::prelude::*;

use crate::analyzer::{AnalyzerView, DeclView, NativeModuleAnalyzer, SpecView, lookup, method_triple, spec_view};
use crate::order::{lower_of, lowercase, sort_by_keys, sorted_by, stable_reorder};
use crate::schema::{SchemaError, resolvable, resolve_refs, resolve_return, resolves_to, ret_resolvable};
use crate::text::{props_text, props_used, to_type_text, type_text, used_types};
use crate::types::{
    EnumMember, EnumMemberValue, EnumTypeAnnotation, Method, ObjectTypeAnnotation, Param, Prop,
    RefTypeAnnotation, Schema, Signal, TypeAnnotation, method_resolved, promise_free, resolved,
    return_shape, signal_resolved,
};

verus! {

broadcast use vstd::seq_lib::group_to_multiset_ensures;

/// A copy of `t`: the same shape, so the same canonical text.
fn copy_type(t: &TypeAnnotation) -> (r: TypeAnnotation)
    ensures
        type_text(r) == type_text(*t),
        resolved(*t) ==> resolved(r),
        promise_free(*t) ==> promise_free(r),
        (r is Object) == (*t is Object),
        (r is Enum) == (*t is Enum),
        (r is Nullable) == (*t is Nullable),
        r is Object ==> r->Object_0.name == t->Object_0.name,
        r is Enum ==> r->Enum_0.name == t->Enum_0.name,
    decreases t,
{
    match t {
        TypeAnnotation::Void => TypeAnnotation::Void,
        TypeAnnotation::Boolean => TypeAnnotation::Boolean,
        TypeAnnotation::Number => TypeAnnotation::Number,
        TypeAnnotation::String => TypeAnnotation::String,
        TypeAnnotation::ArrayBuffer => TypeAnnotation::ArrayBuffer,
        TypeAnnotation::Array(e) => TypeAnnotation::Array(Box::new(copy_type(e))),
        TypeAnnotation::Promise(e) => TypeAnnotation::Promise(Box::new(copy_type(e))),
        TypeAnnotation::Nullable(e) => TypeAnnotation::Nullable(Box::new(copy_type(e))),
        TypeAnnotation::Ref(r) => TypeAnnotation::Ref(RefTypeAnnotation { symbol: r.symbol, name: r.name.clone() }),
        TypeAnnotation::Enum(e) => {
            let mut members: Vec<EnumMember> = Vec::new();
            let mut k: usize = 0;
            while k < e.members.len()
                invariant
                    k <= e.members@.len(),
                    members@ == e.members@.subrange(0, k as int),
                decreases e.members@.len() - k,
            {
                let m = &e.members[k];
                let value = match &m.value {
                    EnumMemberValue::String(s) => EnumMemberValue::String(s.clone()),
                    EnumMemberValue::Number(n) => EnumMemberValue::Number(*n),
                };
                members.push(EnumMember { name: m.name.clone(), value });
                proof {
                    assert(members@ =~= e.members@.subrange(0, k + 1));
                }
                k += 1;
            }
            proof {
                assert(members@ =~= e.members@);
            }
            let c = EnumTypeAnnotation { name: e.name.clone(), members };
            proof {
                lemma_enum_text_eq(c, *e, c.members@.len() as int);
            }
            TypeAnnotation::Enum(c)
        },
        TypeAnnotation::Object(o) => {
            let mut props: Vec<Prop> = Vec::new();
            let mut k: usize = 0;
            while k < o.props.len()
                invariant
                    k <= o.props@.len(),
                    *t == TypeAnnotation::Object(*o),
                    props@.len() == k,
                    forall|j: int| 0 <= j < k ==> (#[trigger] props@[j]).name == o.props@[j].name
                        && type_text(props@[j].type_annotation) == type_text(o.props@[j].type_annotation)
                        && (resolved(o.props@[j].type_annotation) ==> resolved(props@[j].type_annotation))
                        && (promise_free(o.props@[j].type_annotation) ==> promise_free(props@[j].type_annotation)),
                decreases o.props@.len() - k,
            {
                proof {
                    assert((*t)->Object_0 == *o);
                    assert(decreases_to!(*t => (*t)->Object_0));
                    assert(decreases_to!(*o => o.props));
                    assert(decreases_to!(o.props => o.props@));
                    assert(decreases_to!(o.props@ => o.props@[k as int]));
                    assert(decreases_to!(o.props@[k as int] => o.props@[k as int].type_annotation));
                }
                let x = copy_type(&o.props[k].type_annotation);
                props.push(Prop { name: o.props[k].name.clone(), type_annotation: x });
                k += 1;
            }
            let c = ObjectTypeAnnotation { name: o.name.clone(), props };
            proof {
                lemma_props_text_eq(c, *o, c.props@.len() as int);
            }
            TypeAnnotation::Object(c)
        },
    }
}

proof fn lemma_props_text_eq(a: ObjectTypeAnnotation, b: ObjectTypeAnnotation, n: int)
    requires
        a.props@.len() == b.props@.len(),
        0 <= n <= a.props@.len(),
        forall|j: int| 0 <= j < a.props@.len() ==> (#[trigger] a.props@[j]).name == b.props@[j].name
            && type_text(a.props@[j].type_annotation) == type_text(b.props@[j].type_annotation),
    ensures
        props_text(a, n) == props_text(b, n),
    decreases n,
{
    if n > 0 {
        lemma_props_text_eq(a, b, n - 1);
        assert(a.props@[n - 1].name == b.props@[n - 1].name);
    }
}

proof fn lemma_enum_text_eq(a: EnumTypeAnnotation, b: EnumTypeAnnotation, n: int)
    requires
        a.members@ == b.members@,
        0 <= n <= a.members@.len(),
    ensures
        crate::text::enum_members_text(a, n) == crate::text::enum_members_text(b, n),
    decreases n,
{
    if n > 0 {
        lemma_enum_text_eq(a, b, n - 1);
    }
}

/// The collected record and enum types: one of each canonical text, each
/// fully resolved, with its text alongside.
pub open spec fn collected_wf(ts: Seq<TypeAnnotation>, texts: Seq<String>, is_record: bool) -> bool {
    &&& ts.len() == texts.len()
    &&& forall|i: int| 0 <= i < ts.len() ==> (if is_record { ts[i] is Object } else { ts[i] is Enum })
        && resolved(#[trigger] ts[i]) && promise_free(ts[i]) && texts[i]@ == type_text(ts[i])
    &&& forall|i: int, j: int| 0 <= i < j < ts.len() ==> (#[trigger] texts[i])@ != (#[trigger] texts[j])@
}

pub open spec fn text_set(texts: Seq<String>) -> Set<Seq<char>> {
    Set::new(|x: Seq<char>| exists|i: int| 0 <= i < texts.len() && (#[trigger] texts[i])@ == x)
}

/// Adds a copy of `t` unless a type of the same text is there already.
fn add_unique(t: &TypeAnnotation, ts: &mut Vec<TypeAnnotation>, texts: &mut Vec<String>, Ghost(is_record): Ghost<bool>)
    requires
        collected_wf(old(ts)@, old(texts)@, is_record),
        resolved(*t),
        promise_free(*t),
        if is_record { *t is Object } else { *t is Enum },
    ensures
        collected_wf(final(ts)@, final(texts)@, is_record),
        old(ts)@.len() <= final(ts)@.len(),
        final(ts)@.subrange(0, old(ts)@.len() as int) == old(ts)@,
        exists|i: int| 0 <= i < final(texts)@.len() && (#[trigger] final(texts)@[i])@ == type_text(*t),
        text_set(old(texts)@).insert(type_text(*t)) =~= text_set(final(texts)@),
{
    let text = to_type_text(t);
    let mut k: usize = 0;
    while k < texts.len()
        invariant
            k <= texts@.len(),
            texts@ == old(texts)@,
            ts@ == old(ts)@,
            collected_wf(ts@, texts@, is_record),
            text@ == type_text(*t),
            forall|j: int| 0 <= j < k ==> (#[trigger] texts@[j])@ != text@,
        decreases texts@.len() - k,
    {
        if texts[k] == text {
            proof {
                assert(ts@.subrange(0, ts@.len() as int) =~= ts@);
                assert(collected_wf(ts@, texts@, is_record));
                assert(texts@[k as int]@ == type_text(*t));
                assert(text_set(texts@).contains(type_text(*t)));
            }
            return;
        }
        k += 1;
    }
    let ghost t0 = ts@;
    let ghost x0 = texts@;
    ts.push(copy_type(t));
    texts.push(text);
    proof {
        assert(ts@.subrange(0, t0.len() as int) =~= t0);
        assert(texts@[texts@.len() - 1]@ == type_text(*t));
        assert forall|x: Seq<char>| text_set(x0).insert(type_text(*t)).contains(x) <==> text_set(texts@).contains(x) by {
            if text_set(x0).contains(x) {
                let i = choose|i: int| 0 <= i < x0.len() && (#[trigger] x0[i])@ == x;
                assert(texts@[i] == x0[i]);
            }
            if text_set(texts@).contains(x) {
                let i = choose|i: int| 0 <= i < texts@.len() && (#[trigger] texts@[i])@ == x;
                if i < x0.len() {
                    assert(texts@[i] == x0[i]);
                }
            }
        }
    }
}

/// Collects the record and enum types used in `t`, through fields,
/// nullables, arrays and promises.
fn collect_types(
    t: &TypeAnnotation,
    types: &mut Vec<TypeAnnotation>,
    type_texts: &mut Vec<String>,
    enums: &mut Vec<TypeAnnotation>,
    enum_texts: &mut Vec<String>,
)
    requires
        resolved(*t),
        return_shape(*t),
        collected_wf(old(types)@, old(type_texts)@, true),
        collected_wf(old(enums)@, old(enum_texts)@, false),
    ensures
        collected_wf(final(types)@, final(type_texts)@, true),
        collected_wf(final(enums)@, final(enum_texts)@, false),
        old(types)@.len() <= final(types)@.len(),
        old(enums)@.len() <= final(enums)@.len(),
        final(types)@.subrange(0, old(types)@.len() as int) == old(types)@,
        final(enums)@.subrange(0, old(enums)@.len() as int) == old(enums)@,
        text_set(old(type_texts)@).union(used_types(*t, true)) =~= text_set(final(type_texts)@),
        text_set(old(enum_texts)@).union(used_types(*t, false)) =~= text_set(final(enum_texts)@),
    decreases t,
{
    match t {
        TypeAnnotation::Object(o) => {
            add_unique(t, types, type_texts, Ghost(true));
            proof {
                assert(props_used(*o, true, 0) =~= Set::empty());
                assert(props_used(*o, false, 0) =~= Set::empty());
                assert(text_set(type_texts@) =~= text_set(old(type_texts)@).insert(type_text(*t)).union(props_used(*o, true, 0)));
                assert(text_set(enum_texts@) =~= text_set(old(enum_texts)@).union(props_used(*o, false, 0)));
            }
            let mut k: usize = 0;
            while k < o.props.len()
                invariant
                    k <= o.props@.len(),
                    *t == TypeAnnotation::Object(*o),
                    resolved(*t),
                    promise_free(*t),
                    collected_wf(types@, type_texts@, true),
                    collected_wf(enums@, enum_texts@, false),
                    types@.subrange(0, old(types)@.len() as int) == old(types)@,
                    enums@.subrange(0, old(enums)@.len() as int) == old(enums)@,
                    old(types)@.len() <= types@.len(),
                    old(enums)@.len() <= enums@.len(),
                    text_set(type_texts@) =~= text_set(old(type_texts)@).insert(type_text(*t)).union(props_used(*o, true, k as int)),
                    text_set(enum_texts@) =~= text_set(old(enum_texts)@).union(props_used(*o, false, k as int)),
                decreases o.props@.len() - k,
            {
                proof {
                    assert((*t)->Object_0 == *o);
                    assert(decreases_to!(*t => (*t)->Object_0));
                    assert(decreases_to!(*o => o.props));
                    assert(decreases_to!(o.props => o.props@));
                    assert(decreases_to!(o.props@ => o.props@[k as int]));
                    assert(decreases_to!(o.props@[k as int] => o.props@[k as int].type_annotation));
                    assert(resolved(o.props@[k as int].type_annotation));
                    assert(promise_free(o.props@[k as int].type_annotation));
                }
                let ghost ty0 = types@;
                let ghost en0 = enums@;
                let ghost tt0 = text_set(type_texts@);
                let ghost et0 = text_set(enum_texts@);
                collect_types(&o.props[k].type_annotation, types, type_texts, enums, enum_texts);
                proof {
                    assert(props_used(*o, true, k as int + 1) == props_used(*o, true, k as int).union(used_types(o.props@[k as int].type_annotation, true)));
                    assert(props_used(*o, false, k as int + 1) == props_used(*o, false, k as int).union(used_types(o.props@[k as int].type_annotation, false)));
                    assert(text_set(type_texts@) =~= text_set(old(type_texts)@).insert(type_text(*t)).union(props_used(*o, true, k as int + 1)));
                    assert(text_set(enum_texts@) =~= text_set(old(enum_texts)@).union(props_used(*o, false, k as int + 1)));
                    assert(types@.subrange(0, old(types)@.len() as int) =~= ty0.subrange(0, old(types)@.len() as int));
                    assert(enums@.subrange(0, old(enums)@.len() as int) =~= en0.subrange(0, old(enums)@.len() as int));
                }
                k += 1;
            }
        },
        TypeAnnotation::Enum(_) => {
            add_unique(t, enums, enum_texts, Ghost(false));
        },
        TypeAnnotation::Nullable(e) => {
            assert(promise_free(*t));
            assert(promise_free(**e));
            assert(return_shape(**e));
            collect_types(e, types, type_texts, enums, enum_texts)
        },
        TypeAnnotation::Promise(e) => collect_types(e, types, type_texts, enums, enum_texts),
        TypeAnnotation::Array(e) => {
            assert(promise_free(*t));
            assert(promise_free(**e));
            assert(return_shape(**e));
            collect_types(e, types, type_texts, enums, enum_texts)
        },
        _ => {
            proof {
                assert(types@.subrange(0, types@.len() as int) =~= types@);
                assert(enums@.subrange(0, enums@.len() as int) =~= enums@);
            }
        },
    }
}

pub open spec fn method_key(m: Method) -> Seq<char> {
    lower_of(m.name@)
}

pub open spec fn signal_key(s: Signal) -> Seq<char> {
    lower_of(s.name@)
}

pub open spec fn type_key(t: TypeAnnotation) -> Seq<char> {
    match t {
        TypeAnnotation::Object(o) => lower_of(o.name@),
        TypeAnnotation::Enum(e) => lower_of(e.name@),
        _ => Seq::empty(),
    }
}

/// The texts of the records (`records`) or enums used by the parameters,
/// return types and signal payloads of `ms` and `ss`.
pub open spec fn used_by(ms: Seq<Method>, ss: Seq<Signal>, records: bool) -> Set<Seq<char>> {
    Set::new(|x: Seq<char>|
        (exists|q: int, p: int| 0 <= q < ms.len() && 0 <= p < ms[q].params@.len()
            && #[trigger] used_types(ms[q].params@[p].type_annotation, records).contains(x))
        || (exists|q: int| 0 <= q < ms.len() && #[trigger] used_types(ms[q].ret_type, records).contains(x))
        || (exists|q: int| 0 <= q < ss.len() && ss[q].payload_type is Some
            && #[trigger] used_types(ss[q].payload_type->0, records).contains(x)))
}

pub open spec fn params_used(ps: Seq<Param>, records: bool) -> Set<Seq<char>> {
    Set::new(|x: Seq<char>| exists|p: int| 0 <= p < ps.len() && #[trigger] used_types(ps[p].type_annotation, records).contains(x))
}

pub open spec fn payload_used(x: Signal, records: bool) -> Set<Seq<char>> {
    match x.payload_type {
        Some(t) => used_types(t, records),
        None => Set::empty(),
    }
}

proof fn lemma_params_used_push(ps: Seq<Param>, p: Param, records: bool)
    ensures
        params_used(ps.push(p), records) == params_used(ps, records).union(used_types(p.type_annotation, records)),
{
    let l = params_used(ps.push(p), records);
    let r = params_used(ps, records).union(used_types(p.type_annotation, records));
    assert forall|x: Seq<char>| l.contains(x) <==> r.contains(x) by {
        if l.contains(x) {
            let q = choose|q: int| 0 <= q < ps.len() + 1 && #[trigger] used_types(ps.push(p)[q].type_annotation, records).contains(x);
            if q < ps.len() {
                assert(ps.push(p)[q] == ps[q]);
            }
        }
        if params_used(ps, records).contains(x) {
            let q = choose|q: int| 0 <= q < ps.len() && #[trigger] used_types(ps[q].type_annotation, records).contains(x);
            assert(ps.push(p)[q] == ps[q]);
        }
        if used_types(p.type_annotation, records).contains(x) {
            assert(ps.push(p)[ps.len() as int] == p);
        }
    }
    assert(l =~= r);
}

proof fn lemma_used_by_push_method(ms: Seq<Method>, m: Method, records: bool)
    ensures
        used_by(ms.push(m), Seq::empty(), records) == used_by(ms, Seq::empty(), records).union(
            params_used(m.params@, records),
        ).union(used_types(m.ret_type, records)),
{
    let ss = Seq::<Signal>::empty();
    let l = used_by(ms.push(m), ss, records);
    let r = used_by(ms, ss, records).union(params_used(m.params@, records)).union(used_types(m.ret_type, records));
    let n = ms.len() as int;
    assert forall|x: Seq<char>| l.contains(x) <==> r.contains(x) by {
        if (exists|q: int, p: int| 0 <= q < n + 1 && 0 <= p < ms.push(m)[q].params@.len()
            && #[trigger] used_types(ms.push(m)[q].params@[p].type_annotation, records).contains(x)) {
            let (q, p) = choose|q: int, p: int| 0 <= q < n + 1 && 0 <= p < ms.push(m)[q].params@.len()
                && #[trigger] used_types(ms.push(m)[q].params@[p].type_annotation, records).contains(x);
            if q < n {
                assert(ms.push(m)[q] == ms[q]);
            } else {
                assert(ms.push(m)[q] == m);
                assert(params_used(m.params@, records).contains(x));
            }
        }
        if (exists|q: int| 0 <= q < n + 1 && #[trigger] used_types(ms.push(m)[q].ret_type, records).contains(x)) {
            let q = choose|q: int| 0 <= q < n + 1 && #[trigger] used_types(ms.push(m)[q].ret_type, records).contains(x);
            if q < n {
                assert(ms.push(m)[q] == ms[q]);
            }
        }
        if (exists|q: int, p: int| 0 <= q < n && 0 <= p < ms[q].params@.len()
            && #[trigger] used_types(ms[q].params@[p].type_annotation, records).contains(x)) {
            let (q, p) = choose|q: int, p: int| 0 <= q < n && 0 <= p < ms[q].params@.len()
                && #[trigger] used_types(ms[q].params@[p].type_annotation, records).contains(x);
            assert(ms.push(m)[q] == ms[q]);
        }
        if (exists|q: int| 0 <= q < n && #[trigger] used_types(ms[q].ret_type, records).contains(x)) {
            let q = choose|q: int| 0 <= q < n && #[trigger] used_types(ms[q].ret_type, records).contains(x);
            assert(ms.push(m)[q] == ms[q]);
        }
        if params_used(m.params@, records).contains(x) {
            let p = choose|p: int| 0 <= p < m.params@.len() && #[trigger] used_types(m.params@[p].type_annotation, records).contains(x);
            assert(ms.push(m)[n] == m);
            assert(used_types(ms.push(m)[n].params@[p].type_annotation, records).contains(x));
        }
        if used_types(m.ret_type, records).contains(x) {
            assert(ms.push(m)[n] == m);
            assert(used_types(ms.push(m)[n].ret_type, records).contains(x));
        }
    }
    assert(l =~= r);
}

proof fn lemma_used_by_push_signal(ms: Seq<Method>, ss: Seq<Signal>, x0: Signal, records: bool)
    ensures
        used_by(ms, ss.push(x0), records) == used_by(ms, ss, records).union(payload_used(x0, records)),
{
    let l = used_by(ms, ss.push(x0), records);
    let r = used_by(ms, ss, records).union(payload_used(x0, records));
    let n = ss.len() as int;
    assert forall|x: Seq<char>| l.contains(x) <==> r.contains(x) by {
        if (exists|q: int| 0 <= q < n + 1 && ss.push(x0)[q].payload_type is Some
            && #[trigger] used_types(ss.push(x0)[q].payload_type->0, records).contains(x)) {
            let q = choose|q: int| 0 <= q < n + 1 && ss.push(x0)[q].payload_type is Some
                && #[trigger] used_types(ss.push(x0)[q].payload_type->0, records).contains(x);
            if q < n {
                assert(ss.push(x0)[q] == ss[q]);
            }
        }
        if (exists|q: int| 0 <= q < n && ss[q].payload_type is Some
            && #[trigger] used_types(ss[q].payload_type->0, records).contains(x)) {
            let q = choose|q: int| 0 <= q < n && ss[q].payload_type is Some
                && #[trigger] used_types(ss[q].payload_type->0, records).contains(x);
            assert(ss.push(x0)[q] == ss[q]);
        }
        if payload_used(x0, records).contains(x) {
            assert(ss.push(x0)[n] == x0);
            assert(used_types(ss.push(x0)[n].payload_type->0, records).contains(x));
        }
    }
    assert(l =~= r);
}

proof fn lemma_used_by_perm(rm: Seq<Method>, bm: Seq<Method>, rs: Seq<Signal>, bs: Seq<Signal>, records: bool)
    requires
        rm.to_multiset() == bm.to_multiset(),
        rs.to_multiset() == bs.to_multiset(),
    ensures
        used_by(rm, rs, records) == used_by(bm, bs, records),
{
    assert forall|q: int| 0 <= q < rm.len() implies bm.contains(#[trigger] rm[q]) by {
        assert(rm.contains(rm[q]));
        assert(rm.to_multiset().count(rm[q]) > 0);
    }
    assert forall|q: int| 0 <= q < bm.len() implies rm.contains(#[trigger] bm[q]) by {
        assert(bm.contains(bm[q]));
        assert(bm.to_multiset().count(bm[q]) > 0);
    }
    assert forall|q: int| 0 <= q < rs.len() implies bs.contains(#[trigger] rs[q]) by {
        assert(rs.contains(rs[q]));
        assert(rs.to_multiset().count(rs[q]) > 0);
    }
    assert forall|q: int| 0 <= q < bs.len() implies rs.contains(#[trigger] bs[q]) by {
        assert(bs.contains(bs[q]));
        assert(bs.to_multiset().count(bs[q]) > 0);
    }
    lemma_used_by_sub(rm, bm, rs, bs, records);
    lemma_used_by_sub(bm, rm, bs, rs, records);
    assert(used_by(rm, rs, records) =~= used_by(bm, bs, records));
}

proof fn lemma_used_by_sub(rm: Seq<Method>, bm: Seq<Method>, rs: Seq<Signal>, bs: Seq<Signal>, records: bool)
    requires
        forall|q: int| 0 <= q < rm.len() ==> bm.contains(#[trigger] rm[q]),
        forall|q: int| 0 <= q < rs.len() ==> bs.contains(#[trigger] rs[q]),
    ensures
        used_by(rm, rs, records).subset_of(used_by(bm, bs, records)),
{
    assert forall|x: Seq<char>| used_by(rm, rs, records).contains(x) implies used_by(bm, bs, records).contains(x) by {
        if (exists|q: int, p: int| 0 <= q < rm.len() && 0 <= p < rm[q].params@.len()
            && #[trigger] used_types(rm[q].params@[p].type_annotation, records).contains(x)) {
            let (q, p) = choose|q: int, p: int| 0 <= q < rm.len() && 0 <= p < rm[q].params@.len()
                && #[trigger] used_types(rm[q].params@[p].type_annotation, records).contains(x);
            assert(bm.contains(rm[q]));
            let j = choose|j: int| 0 <= j < bm.len() && bm[j] == rm[q];
            assert(used_types(bm[j].params@[p].type_annotation, records).contains(x));
        } else if (exists|q: int| 0 <= q < rm.len() && #[trigger] used_types(rm[q].ret_type, records).contains(x)) {
            let q = choose|q: int| 0 <= q < rm.len() && #[trigger] used_types(rm[q].ret_type, records).contains(x);
            assert(bm.contains(rm[q]));
            let j = choose|j: int| 0 <= j < bm.len() && bm[j] == rm[q];
            assert(used_types(bm[j].ret_type, records).contains(x));
        } else {
            let q = choose|q: int| 0 <= q < rs.len() && rs[q].payload_type is Some
                && #[trigger] used_types(rs[q].payload_type->0, records).contains(x);
            assert(bs.contains(rs[q]));
            let j = choose|j: int| 0 <= j < bs.len() && bs[j] == rs[q];
            assert(used_types(bs[j].payload_type->0, records).contains(x));
        }
    }
}

/// A reordering of collected types has the same texts, each once.
proof fn lemma_sorted_texts_exact(ts: Seq<TypeAnnotation>, texts: Seq<String>, r: Seq<TypeAnnotation>, is_record: bool)
    requires
        collected_wf(ts, texts, is_record),
        r.to_multiset() == ts.to_multiset(),
    ensures
        Set::new(|x: Seq<char>| exists|a: int| 0 <= a < r.len() && type_text(#[trigger] r[a]) == x) == text_set(texts),
        forall|a: int, b: int| 0 <= a < r.len() && 0 <= b < r.len() && a != b ==> type_text(#[trigger] r[a]) != type_text(#[trigger] r[b]),
{
    lemma_texts_in_sorted(ts, texts, r, is_record);
    let rset = Set::new(|x: Seq<char>| exists|a: int| 0 <= a < r.len() && type_text(#[trigger] r[a]) == x);
    assert forall|x: Seq<char>| rset.contains(x) implies text_set(texts).contains(x) by {
        let a = choose|a: int| 0 <= a < r.len() && type_text(#[trigger] r[a]) == x;
        assert(r.contains(r[a]));
        assert(r.to_multiset().count(r[a]) > 0);
        assert(ts.contains(r[a]));
        let i = choose|i: int| 0 <= i < ts.len() && ts[i] == r[a];
        assert(texts[i]@ == x);
    }
    assert(rset =~= text_set(texts));
    assert(ts.no_duplicates()) by {
        assert forall|i: int, j: int| 0 <= i < ts.len() && 0 <= j < ts.len() && i != j implies ts[i] != ts[j] by {
            assert(texts[i]@ != texts[j]@);
        }
    }
    ts.lemma_multiset_has_no_duplicates();
    r.lemma_multiset_has_no_duplicates_conv();
    assert forall|a: int, b: int| 0 <= a < r.len() && 0 <= b < r.len() && a != b implies type_text(#[trigger] r[a]) != type_text(#[trigger] r[b]) by {
        assert(r[a] != r[b]);
        assert(r.contains(r[a]) && r.contains(r[b]));
        assert(r.to_multiset().count(r[a]) > 0 && r.to_multiset().count(r[b]) > 0);
        assert(ts.contains(r[a]) && ts.contains(r[b]));
        let i = choose|i: int| 0 <= i < ts.len() && ts[i] == r[a];
        let j = choose|j: int| 0 <= j < ts.len() && ts[j] == r[b];
        assert(i != j);
        assert(texts[i]@ != texts[j]@);
    }
}

pub open spec fn alias_texts(s: Schema) -> Set<Seq<char>> {
    Set::new(|x: Seq<char>| exists|a: int| 0 <= a < s.aliases@.len() && type_text(#[trigger] s.aliases@[a]) == x)
}

pub open spec fn enum_text_set(s: Schema) -> Set<Seq<char>> {
    Set::new(|x: Seq<char>| exists|a: int| 0 <= a < s.enums@.len() && type_text(#[trigger] s.enums@[a]) == x)
}

/// The records and enums `t` uses are among `rs` and `es`.
pub open spec fn covered(t: TypeAnnotation, rs: Set<Seq<char>>, es: Set<Seq<char>>) -> bool {
    used_types(t, true).subset_of(rs) && used_types(t, false).subset_of(es)
}

pub open spec fn method_covered(m: Method, rs: Set<Seq<char>>, es: Set<Seq<char>>) -> bool {
    &&& forall|p: int| 0 <= p < m.params@.len() ==> covered(#[trigger] m.params@[p].type_annotation, rs, es)
    &&& covered(m.ret_type, rs, es)
}

pub open spec fn signal_covered(x: Signal, rs: Set<Seq<char>>, es: Set<Seq<char>>) -> bool {
    match x.payload_type {
        Some(t) => covered(t, rs, es),
        None => true,
    }
}

proof fn lemma_method_covered_grows(m: Method, rs: Set<Seq<char>>, es: Set<Seq<char>>, rs2: Set<Seq<char>>, es2: Set<Seq<char>>)
    requires
        method_covered(m, rs, es),
        rs.subset_of(rs2),
        es.subset_of(es2),
    ensures
        method_covered(m, rs2, es2),
{
    assert forall|p: int| 0 <= p < m.params@.len() implies covered(#[trigger] m.params@[p].type_annotation, rs2, es2) by {
        assert(covered(m.params@[p].type_annotation, rs, es));
    }
}

proof fn lemma_signal_covered_grows(x: Signal, rs: Set<Seq<char>>, es: Set<Seq<char>>, rs2: Set<Seq<char>>, es2: Set<Seq<char>>)
    requires
        signal_covered(x, rs, es),
        rs.subset_of(rs2),
        es.subset_of(es2),
    ensures
        signal_covered(x, rs2, es2),
{
}

pub open spec fn all_covered(ms: Seq<Method>, ss: Seq<Signal>, rs: Set<Seq<char>>, es: Set<Seq<char>>) -> bool {
    &&& forall|q: int| 0 <= q < ms.len() ==> method_covered(#[trigger] ms[q], rs, es)
    &&& forall|q: int| 0 <= q < ss.len() ==> signal_covered(#[trigger] ss[q], rs, es)
}

proof fn lemma_all_covered_grows(ms: Seq<Method>, ss: Seq<Signal>, rs: Set<Seq<char>>, es: Set<Seq<char>>, rs2: Set<Seq<char>>, es2: Set<Seq<char>>)
    requires
        all_covered(ms, ss, rs, es),
        rs.subset_of(rs2),
        es.subset_of(es2),
    ensures
        all_covered(ms, ss, rs2, es2),
{
    assert forall|q: int| 0 <= q < ms.len() implies method_covered(#[trigger] ms[q], rs2, es2) by {
        lemma_method_covered_grows(ms[q], rs, es, rs2, es2);
    }
    assert forall|q: int| 0 <= q < ss.len() implies signal_covered(#[trigger] ss[q], rs2, es2) by {
        lemma_signal_covered_grows(ss[q], rs, es, rs2, es2);
    }
}

/// Sorting keeps the multiset, so the texts of the collected types are
/// among the sorted list's texts.
proof fn lemma_texts_in_sorted(ts: Seq<TypeAnnotation>, texts: Seq<String>, r: Seq<TypeAnnotation>, is_record: bool)
    requires
        collected_wf(ts, texts, is_record),
        r.to_multiset() == ts.to_multiset(),
    ensures
        text_set(texts).subset_of(Set::new(|x: Seq<char>| exists|a: int| 0 <= a < r.len() && type_text(#[trigger] r[a]) == x)),
{
    assert forall|x: Seq<char>| text_set(texts).contains(x) implies exists|a: int| 0 <= a < r.len() && type_text(#[trigger] r[a]) == x by {
        let i = choose|i: int| 0 <= i < texts.len() && (#[trigger] texts[i])@ == x;
        assert(type_text(ts[i]) == x);
        assert(ts.contains(ts[i]));
        assert(ts.to_multiset().count(ts[i]) > 0);
        assert(r.contains(ts[i]));
        let a = choose|a: int| 0 <= a < r.len() && r[a] == ts[i];
        assert(type_text(r[a]) == x);
    }
}

/// `r` is the methods `v` sorted by lower-case name, equal names kept in order.
pub open spec fn methods_stable(r: Seq<Method>, v: Seq<Method>, idx: Seq<int>) -> bool {
    stable_reorder(r, v, idx, |m: Method| method_key(m))
}

/// `r` is the signals `v` sorted by lower-case name, equal names kept in order.
pub open spec fn signals_stable(r: Seq<Signal>, v: Seq<Signal>, idx: Seq<int>) -> bool {
    stable_reorder(r, v, idx, |x: Signal| signal_key(x))
}

/// What every schema holds: no reference anywhere, records among the
/// aliases, enums among the enums, and each list sorted by lower-case name.
pub open spec fn schema_wf(s: Schema) -> bool {
    &&& forall|i: int| 0 <= i < s.methods@.len() ==> method_resolved(#[trigger] s.methods@[i])
    &&& forall|i: int| 0 <= i < s.signals@.len() ==> signal_resolved(#[trigger] s.signals@[i])
    &&& forall|i: int| 0 <= i < s.aliases@.len() ==> (#[trigger] s.aliases@[i]) is Object && resolved(s.aliases@[i])
        && promise_free(s.aliases@[i])
    &&& forall|i: int| 0 <= i < s.enums@.len() ==> (#[trigger] s.enums@[i]) is Enum && resolved(s.enums@[i])
        && promise_free(s.enums@[i])
    &&& sorted_by(s.methods@.map_values(|m: Method| method_key(m)))
    &&& sorted_by(s.signals@.map_values(|x: Signal| signal_key(x)))
    &&& sorted_by(s.aliases@.map_values(|t: TypeAnnotation| type_key(t)))
    &&& sorted_by(s.enums@.map_values(|t: TypeAnnotation| type_key(t)))
    &&& forall|i: int| 0 <= i < s.methods@.len() ==> method_covered(#[trigger] s.methods@[i], alias_texts(s), enum_text_set(s))
    &&& forall|i: int| 0 <= i < s.signals@.len() ==> signal_covered(#[trigger] s.signals@[i], alias_texts(s), enum_text_set(s))
    &&& alias_texts(s) == used_by(s.methods@, s.signals@, true)
    &&& enum_text_set(s) == used_by(s.methods@, s.signals@, false)
    &&& forall|a: int, b: int| 0 <= a < s.aliases@.len() && 0 <= b < s.aliases@.len() && a != b
        ==> type_text(#[trigger] s.aliases@[a]) != type_text(#[trigger] s.aliases@[b])
    &&& forall|a: int, b: int| 0 <= a < s.enums@.len() && 0 <= b < s.enums@.len() && a != b
        ==> type_text(#[trigger] s.enums@[a]) != type_text(#[trigger] s.enums@[b])
}

/// The entry at `i` is not overridden by a later specification of the same symbol.
pub open spec fn live(specs: Seq<(u32, SpecView)>, i: int) -> bool {
    forall|j: int| i < j < specs.len() ==> (#[trigger] specs[j]).0 != specs[i].0
}

/// The specifications among the first `n` entries that are not overridden, in order.
pub open spec fn live_specs(specs: Seq<(u32, SpecView)>, n: int) -> Seq<(u32, SpecView)>
    decreases n,
{
    if n <= 0 {
        Seq::empty()
    } else if live(specs, n - 1) {
        live_specs(specs, n - 1).push(specs[n - 1])
    } else {
        live_specs(specs, n - 1)
    }
}

/// `m` is the method `t` with its types resolved.
pub open spec fn method_matches(t: (String, Seq<Param>, TypeAnnotation), m: Method, dv: Seq<(u32, DeclView)>, fuel: nat) -> bool {
    &&& m.name == t.0
    &&& m.params@.len() == t.1.len()
    &&& forall|p: int| 0 <= p < t.1.len() ==> (#[trigger] m.params@[p]).name == t.1[p].name
        && resolves_to(t.1[p].type_annotation, m.params@[p].type_annotation, dv, fuel)
    &&& resolves_to(t.2, m.ret_type, dv, fuel)
}

/// `x` is the signal `t` with its payload type resolved.
pub open spec fn signal_matches(t: Signal, x: Signal, dv: Seq<(u32, DeclView)>, fuel: nat) -> bool {
    &&& x.name == t.name
    &&& match (t.payload_type, x.payload_type) {
        (Some(a), Some(b)) => resolves_to(a, b, dv, fuel),
        (None, None) => true,
        _ => false,
    }
}

pub open spec fn method_resolvable(t: (String, Seq<Param>, TypeAnnotation), dv: Seq<(u32, DeclView)>, fuel: nat) -> bool {
    &&& forall|p: int| 0 <= p < t.1.len() ==> resolvable(#[trigger] t.1[p].type_annotation, dv, fuel)
    &&& ret_resolvable(t.2, dv, fuel)
}

pub open spec fn signal_resolvable(t: Signal, dv: Seq<(u32, DeclView)>, fuel: nat) -> bool {
    match t.payload_type {
        Some(a) => resolvable(a, dv, fuel),
        None => true,
    }
}

/// The specification is bound to a module name and all its types resolve.
pub open spec fn spec_buildable(e: (u32, SpecView), v: AnalyzerView) -> bool {
    &&& lookup(v.mods, e.0) is Some
    &&& forall|j: int| 0 <= j < e.1.methods.len() ==> method_resolvable(#[trigger] e.1.methods[j], v.decls, v.decls.len() as nat)
    &&& forall|j: int| 0 <= j < e.1.signals.len() ==> signal_resolvable(#[trigger] e.1.signals[j], v.decls, v.decls.len() as nat)
}

/// The schema of the specification `e`: its module name, and, in some order,
/// its methods and its signals with their types resolved.
pub open spec fn schema_matches(s: Schema, e: (u32, SpecView), v: AnalyzerView) -> bool {
    let fuel = v.decls.len() as nat;
    &&& lookup(v.mods, e.0) == Some(s.module_name)
    &&& exists|b: Seq<Method>, idx: Seq<int>| #![trigger b.to_multiset(), idx.len()]
        b.to_multiset() == s.methods@.to_multiset() && b.len() == e.1.methods.len()
        && methods_stable(s.methods@, b, idx)
        && forall|q: int| 0 <= q < b.len() ==> method_matches(e.1.methods[q], #[trigger] b[q], v.decls, fuel)
    &&& exists|b: Seq<Signal>, idx: Seq<int>| #![trigger b.to_multiset(), idx.len()]
        b.to_multiset() == s.signals@.to_multiset() && b.len() == e.1.signals.len()
        && signals_stable(s.signals@, b, idx)
        && forall|q: int| 0 <= q < b.len() ==> signal_matches(e.1.signals[q], #[trigger] b[q], v.decls, fuel)
}

proof fn lemma_live_prefix(specs: Seq<(u32, SpecView)>, n: int, m: int)
    requires
        0 <= n <= m,
    ensures
        live_specs(specs, n).len() <= live_specs(specs, m).len(),
        forall|k: int| 0 <= k < live_specs(specs, n).len() ==> live_specs(specs, m)[k] == #[trigger] live_specs(specs, n)[k],
    decreases m - n,
{
    if n < m {
        lemma_live_prefix(specs, n, m - 1);
    }
}

/// A live specification that cannot be built makes the whole unit fail.
proof fn lemma_unbuildable(view: AnalyzerView, i: int, ls0: Seq<(u32, SpecView)>, entry: (u32, SpecView))
    requires
        0 <= i < view.specs.len(),
        live_specs(view.specs, i + 1) == ls0.push(entry),
        !spec_buildable(entry, view),
    ensures
        !(forall|k: int| 0 <= k < live_specs(view.specs, view.specs.len() as int).len()
            ==> spec_buildable(#[trigger] live_specs(view.specs, view.specs.len() as int)[k], view)),
{
    lemma_live_prefix(view.specs, i + 1, view.specs.len() as int);
    assert(live_specs(view.specs, i + 1)[ls0.len() as int] == entry);
    assert(live_specs(view.specs, view.specs.len() as int)[ls0.len() as int] == entry);
}

proof fn lemma_perm_keeps<T>(r: Seq<T>, s: Seq<T>, p: spec_fn(T) -> bool)
    requires
        r.to_multiset() == s.to_multiset(),
        forall|i: int| 0 <= i < s.len() ==> p(#[trigger] s[i]),
    ensures
        forall|i: int| 0 <= i < r.len() ==> p(#[trigger] r[i]),
{
    assert forall|i: int| 0 <= i < r.len() implies p(#[trigger] r[i]) by {
        assert(r.contains(r[i]));
        assert(r.to_multiset().count(r[i]) > 0);
        assert(s.contains(r[i]));
        let j = choose|j: int| 0 <= j < s.len() && s[j] == r[i];
        assert(p(s[j]));
    }
}

fn sort_methods(v: Vec<Method>) -> (r: Vec<Method>)
    requires
        forall|i: int| 0 <= i < v@.len() ==> method_resolved(#[trigger] v@[i]),
    ensures
        r@.to_multiset() == v@.to_multiset(),
        exists|idx: Seq<int>| #[trigger] methods_stable(r@, v@, idx),
        forall|i: int| 0 <= i < r@.len() ==> method_resolved(#[trigger] r@[i]),
        sorted_by(r@.map_values(|m: Method| method_key(m))),
{
    let mut keys: Vec<String> = Vec::new();
    let mut k: usize = 0;
    while k < v.len()
        invariant
            k <= v@.len(),
            keys@.len() == k,
            forall|i: int| 0 <= i < k ==> (#[trigger] keys@[i])@ == method_key(v@[i]),
        decreases v@.len() - k,
    {
        keys.push(lowercase(&v[k].name));
        k += 1;
    }
    let ghost v0 = v@;
    let ghost key = |m: Method| method_key(m);
    let r = sort_by_keys(v, keys, Ghost(key));
    proof {
        assert(r@.map_values(|x: Method| key(x)) =~= r@.map_values(|m: Method| method_key(m)));
        lemma_perm_keeps(r@, v0, |m: Method| method_resolved(m));
        let idx = choose|idx: Seq<int>| stable_reorder(r@, v0, idx, key);
        assert(stable_reorder(r@, v0, idx, key));
        assert(methods_stable(r@, v0, idx));
    }
    r
}

fn sort_signals(v: Vec<Signal>) -> (r: Vec<Signal>)
    requires
        forall|i: int| 0 <= i < v@.len() ==> signal_resolved(#[trigger] v@[i]),
    ensures
        r@.to_multiset() == v@.to_multiset(),
        exists|idx: Seq<int>| #[trigger] signals_stable(r@, v@, idx),
        forall|i: int| 0 <= i < r@.len() ==> signal_resolved(#[trigger] r@[i]),
        sorted_by(r@.map_values(|x: Signal| signal_key(x))),
{
    let mut keys: Vec<String> = Vec::new();
    let mut k: usize = 0;
    while k < v.len()
        invariant
            k <= v@.len(),
            keys@.len() == k,
            forall|i: int| 0 <= i < k ==> (#[trigger] keys@[i])@ == signal_key(v@[i]),
        decreases v@.len() - k,
    {
        keys.push(lowercase(&v[k].name));
        k += 1;
    }
    let ghost v0 = v@;
    let ghost key = |x: Signal| signal_key(x);
    let r = sort_by_keys(v, keys, Ghost(key));
    proof {
        assert(r@.map_values(|x: Signal| key(x)) =~= r@.map_values(|x: Signal| signal_key(x)));
        lemma_perm_keeps(r@, v0, |x: Signal| signal_resolved(x));
        let idx = choose|idx: Seq<int>| stable_reorder(r@, v0, idx, key);
        assert(stable_reorder(r@, v0, idx, key));
        assert(signals_stable(r@, v0, idx));
    }
    r
}

fn sort_types(v: Vec<TypeAnnotation>, Ghost(is_record): Ghost<bool>) -> (r: Vec<TypeAnnotation>)
    requires
        forall|i: int| 0 <= i < v@.len() ==> (if is_record { v@[i] is Object } else { v@[i] is Enum }) && resolved(#[trigger] v@[i]) && promise_free(v@[i]),
    ensures
        r@.to_multiset() == v@.to_multiset(),
        forall|i: int| 0 <= i < r@.len() ==> (if is_record { r@[i] is Object } else { r@[i] is Enum }) && resolved(#[trigger] r@[i]) && promise_free(r@[i]),
        sorted_by(r@.map_values(|t: TypeAnnotation| type_key(t))),
{
    let mut keys: Vec<String> = Vec::new();
    let mut k: usize = 0;
    while k < v.len()
        invariant
            k <= v@.len(),
            keys@.len() == k,
            forall|i: int| 0 <= i < k ==> (#[trigger] keys@[i])@ == type_key(v@[i]),
        decreases v@.len() - k,
    {
        let key = match &v[k] {
            TypeAnnotation::Object(o) => lowercase(&o.name),
            TypeAnnotation::Enum(e) => lowercase(&e.name),
            _ => String::new(),
        };
        keys.push(key);
        k += 1;
    }
    let ghost v0 = v@;
    let ghost key = |t: TypeAnnotation| type_key(t);
    let r = sort_by_keys(v, keys, Ghost(key));
    proof {
        assert(r@.map_values(|x: TypeAnnotation| key(x)) =~= r@.map_values(|t: TypeAnnotation| type_key(t)));
        lemma_perm_keeps(r@, v0, |t: TypeAnnotation| (if is_record { t is Object } else { t is Enum }) && resolved(t) && promise_free(t));
    }
    r
}

/// The module name bound to `sym` by the latest registry call.
fn find_mod(mods: &Vec<(u32, String)>, sym: u32) -> (r: Option<String>)
    ensures
        r == crate::analyzer::lookup(mods@, sym),
{
    let mut k: usize = mods.len();
    assert(mods@.subrange(0, k as int) =~= mods@);
    while k > 0
        invariant
            k <= mods@.len(),
            crate::analyzer::lookup(mods@, sym) == crate::analyzer::lookup(mods@.subrange(0, k as int), sym),
        decreases k,
    {
        let ghost s = mods@.subrange(0, k as int);
        assert(s.drop_last() =~= mods@.subrange(0, k - 1));
        if mods[k - 1].0 == sym {
            return Some(mods[k - 1].1.clone());
        }
        k -= 1;
    }
    None
}

impl NativeModuleAnalyzer {
    /// Builds one schema per specification that no later one of the same
    /// symbol overrides, in order: its module name, its methods and signals
    /// with every reference resolved, the records and enums they use, each
    /// list sorted by lower-case name. Fails exactly when a specification has
    /// no module name or a type that does not resolve.
    pub fn try_into_schema(&self) -> (r: Result<Vec<Schema>, SchemaError>)
        ensures
            ({
                let ls = live_specs(self@.specs, self@.specs.len() as int);
                &&& r is Ok <==> forall|k: int| 0 <= k < ls.len() ==> spec_buildable(#[trigger] ls[k], self@)
                &&& r matches Ok(v) ==> v@.len() == ls.len() && forall|k: int| 0 <= k < v@.len()
                    ==> schema_wf(#[trigger] v@[k]) && schema_matches(v@[k], ls[k], self@)
            }),
    {
        let ghost view = self@;
        let ghost dv = self@.decls;
        let fuel = self.decls.len();
        assert(dv.len() == fuel);
        let mut schemas: Vec<Schema> = Vec::new();
        let mut i: usize = 0;
        while i < self.specs.len()
            invariant
                view == self@,
                dv == view.decls,
                i <= self.specs@.len(),
                fuel == dv.len(),
                schemas@.len() == live_specs(view.specs, i as int).len(),
                forall|k: int| 0 <= k < live_specs(view.specs, i as int).len()
                    ==> spec_buildable(#[trigger] live_specs(view.specs, i as int)[k], view),
                forall|k: int| 0 <= k < schemas@.len() ==> schema_wf(#[trigger] schemas@[k])
                    && schema_matches(schemas@[k], live_specs(view.specs, i as int)[k], view),
            decreases self.specs@.len() - i,
        {
            let sym = self.specs[i].0;
            let spec = &self.specs[i].1;
            let ghost entry = view.specs[i as int];
            assert(entry == (sym, spec_view(*spec)));
            let mut shadowed = false;
            let mut j: usize = i + 1;
            while j < self.specs.len()
                invariant
                    view == self@,
                    i < j <= self.specs@.len(),
                    sym == view.specs[i as int].0,
                    shadowed <==> exists|q: int| i < q < j && (#[trigger] view.specs[q]).0 == sym,
                decreases self.specs@.len() - j,
            {
                if self.specs[j].0 == sym {
                    shadowed = true;
                    assert(view.specs[j as int].0 == sym);
                }
                j += 1;
            }
            let ghost ls0 = live_specs(view.specs, i as int);
            if shadowed {
                assert(!live(view.specs, i as int));
                assert(live_specs(view.specs, i + 1) == ls0);
            } else {
                assert(live(view.specs, i as int));
                assert(live_specs(view.specs, i + 1) == ls0.push(entry));
                let module_name = match find_mod(&self.mods, sym) {
                    Some(n) => n,
                    None => {
                        proof {
                            lemma_unbuildable(view, i as int, ls0, entry);
                        }
                        return Err(SchemaError::ModuleNameNotFound(spec.name.clone()));
                    },
                };
                let mut types: Vec<TypeAnnotation> = Vec::new();
                let mut type_texts: Vec<String> = Vec::new();
                let mut enums: Vec<TypeAnnotation> = Vec::new();
                let mut enum_texts: Vec<String> = Vec::new();
                let mut methods: Vec<Method> = Vec::new();
                proof {
                    assert(text_set(type_texts@) =~= used_by(methods@, Seq::empty(), true));
                    assert(text_set(enum_texts@) =~= used_by(methods@, Seq::empty(), false));
                }
                let mut k: usize = 0;
                while k < spec.methods.len()
                    invariant
                        view == self@,
                        dv == view.decls,
                        fuel == dv.len(),
                        entry == (sym, spec_view(*spec)),
                        i < view.specs.len(),
                        live_specs(view.specs, i + 1) == ls0.push(entry),
                        lookup(view.mods, sym) is Some,
                        k <= spec.methods@.len(),
                        methods@.len() == k,
                        collected_wf(types@, type_texts@, true),
                        collected_wf(enums@, enum_texts@, false),
                        forall|q: int| 0 <= q < k ==> method_resolved(#[trigger] methods@[q])
                            && method_matches(entry.1.methods[q], methods@[q], dv, fuel as nat)
                            && method_resolvable(entry.1.methods[q], dv, fuel as nat),
                        all_covered(methods@, Seq::empty(), text_set(type_texts@), text_set(enum_texts@)),
                        text_set(type_texts@) == used_by(methods@, Seq::empty(), true),
                        text_set(enum_texts@) == used_by(methods@, Seq::empty(), false),
                    decreases spec.methods@.len() - k,
                {
                    let m = &spec.methods[k];
                    assert(entry.1.methods[k as int] == method_triple(*m));
                    let mut params: Vec<Param> = Vec::new();
                    proof {
                        assert(params_used(params@, true) =~= Set::empty());
                        assert(params_used(params@, false) =~= Set::empty());
                        assert(text_set(type_texts@) =~= used_by(methods@, Seq::empty(), true).union(params_used(params@, true)));
                        assert(text_set(enum_texts@) =~= used_by(methods@, Seq::empty(), false).union(params_used(params@, false)));
                    }
                    let mut p: usize = 0;
                    while p < m.params.len()
                        invariant
                            dv == view.decls,
                            view == self@,
                            fuel == dv.len(),
                            entry == (sym, spec_view(*spec)),
                            i < view.specs.len(),
                            live_specs(view.specs, i + 1) == ls0.push(entry),
                            k < spec.methods@.len(),
                            entry.1.methods[k as int] == method_triple(*m),
                            p <= m.params@.len(),
                            params@.len() == p,
                            collected_wf(types@, type_texts@, true),
                            collected_wf(enums@, enum_texts@, false),
                            forall|q: int| 0 <= q < p ==> resolved(#[trigger] params@[q].type_annotation)
                                && promise_free(params@[q].type_annotation)
                                && params@[q].name == m.params@[q].name
                                && resolvable(m.params@[q].type_annotation, dv, fuel as nat)
                                && resolves_to(m.params@[q].type_annotation, params@[q].type_annotation, dv, fuel as nat)
                                && covered(params@[q].type_annotation, text_set(type_texts@), text_set(enum_texts@)),
                            all_covered(methods@, Seq::empty(), text_set(type_texts@), text_set(enum_texts@)),
                            text_set(type_texts@) == used_by(methods@, Seq::empty(), true).union(params_used(params@, true)),
                            text_set(enum_texts@) == used_by(methods@, Seq::empty(), false).union(params_used(params@, false)),
                        decreases m.params@.len() - p,
                    {
                        let x = match resolve_refs(&m.params[p].type_annotation, &self.decls, fuel) {
                            Ok(x) => x,
                            Err(e) => {
                                proof {
                                    let t = method_triple(*m);
                                    assert(!resolvable(t.1[p as int].type_annotation, dv, fuel as nat));
                                    assert(!method_resolvable(t, dv, fuel as nat));
                                    assert(!spec_buildable(entry, view));
                                    lemma_unbuildable(view, i as int, ls0, entry);
                                }
                                return Err(e);
                            },
                        };
                        let ghost rs0 = text_set(type_texts@);
                        let ghost es0 = text_set(enum_texts@);
                        collect_types(&x, &mut types, &mut type_texts, &mut enums, &mut enum_texts);
                        proof {
                            lemma_all_covered_grows(methods@, Seq::empty(), rs0, es0, text_set(type_texts@), text_set(enum_texts@));
                            assert forall|q: int| 0 <= q < p implies covered(
                                #[trigger] params@[q].type_annotation,
                                text_set(type_texts@),
                                text_set(enum_texts@),
                            ) by {
                                assert(covered(params@[q].type_annotation, rs0, es0));
                            }
                        }
                        let ghost pprev = params@;
                        let ghost xt = x;
                        params.push(Param { name: m.params[p].name.clone(), type_annotation: x });
                        proof {
                            lemma_params_used_push(pprev, params@[p as int], true);
                            lemma_params_used_push(pprev, params@[p as int], false);
                            assert(params@ == pprev.push(params@[p as int]));
                            assert(text_set(type_texts@) =~= used_by(methods@, Seq::empty(), true).union(params_used(params@, true)));
                            assert(text_set(enum_texts@) =~= used_by(methods@, Seq::empty(), false).union(params_used(params@, false)));
                        }
                        p += 1;
                    }
                    proof {
                        assert forall|q: int| 0 <= q < m.params@.len() implies resolvable(
                            #[trigger] m.params@[q].type_annotation,
                            dv,
                            fuel as nat,
                        ) by {
                            assert(resolved(params@[q].type_annotation));
                        }
                    }
                    let ret = match resolve_return(&m.ret_type, &self.decls, fuel) {
                        Ok(x) => x,
                        Err(e) => {
                            proof {
                                assert(!method_resolvable(method_triple(*m), dv, fuel as nat));
                                assert(!spec_buildable(entry, view));
                                lemma_unbuildable(view, i as int, ls0, entry);
                            }
                            return Err(e);
                        },
                    };
                    let ghost rs0 = text_set(type_texts@);
                    let ghost es0 = text_set(enum_texts@);
                    collect_types(&ret, &mut types, &mut type_texts, &mut enums, &mut enum_texts);
                    proof {
                        lemma_all_covered_grows(methods@, Seq::empty(), rs0, es0, text_set(type_texts@), text_set(enum_texts@));
                        assert forall|q: int| 0 <= q < params@.len() implies covered(
                            #[trigger] params@[q].type_annotation,
                            text_set(type_texts@),
                            text_set(enum_texts@),
                        ) by {
                            assert(covered(params@[q].type_annotation, rs0, es0));
                        }
                    }
                    let built = Method { name: m.name.clone(), params, ret_type: ret };
                    proof {
                        assert forall|q: int| 0 <= q < built.params@.len() implies covered(
                            #[trigger] built.params@[q].type_annotation,
                            text_set(type_texts@),
                            text_set(enum_texts@),
                        ) by {
                            let _ = built.params@[q].type_annotation;
                        }
                        assert(method_covered(built, text_set(type_texts@), text_set(enum_texts@)));
                        assert(method_matches(entry.1.methods[k as int], built, dv, fuel as nat));
                        assert(method_resolvable(entry.1.methods[k as int], dv, fuel as nat));
                    }
                    let ghost mprev = methods@;
                    let ghost bt = built;
                    methods.push(built);
                    proof {
                        lemma_used_by_push_method(mprev, bt, true);
                        lemma_used_by_push_method(mprev, bt, false);
                        assert(methods@ == mprev.push(bt));
                        assert(text_set(type_texts@) =~= used_by(methods@, Seq::empty(), true));
                        assert(text_set(enum_texts@) =~= used_by(methods@, Seq::empty(), false));
                        assert forall|q: int| 0 <= q < methods@.len() implies method_covered(
                            #[trigger] methods@[q],
                            text_set(type_texts@),
                            text_set(enum_texts@),
                        ) by {
                            if q < mprev.len() {
                                assert(methods@[q] == mprev[q]);
                            }
                        }
                    }
                    k += 1;
                }
                proof {
                    assert forall|q: int| 0 <= q < entry.1.methods.len() implies method_resolvable(
                        #[trigger] entry.1.methods[q],
                        dv,
                        fuel as nat,
                    ) by {
                        let _ = methods@[q];
                    }
                }
                let mut signals: Vec<Signal> = Vec::new();
                proof {
                    assert(all_covered(methods@, signals@, text_set(type_texts@), text_set(enum_texts@)));
                    assert(signals@ =~= Seq::<Signal>::empty());
                }
                let mut k: usize = 0;
                while k < spec.signals.len()
                    invariant
                        view == self@,
                        dv == view.decls,
                        fuel == dv.len(),
                        entry == (sym, spec_view(*spec)),
                        i < view.specs.len(),
                        live_specs(view.specs, i + 1) == ls0.push(entry),
                        lookup(view.mods, sym) is Some,
                        forall|q: int| 0 <= q < entry.1.methods.len() ==> method_resolvable(#[trigger] entry.1.methods[q], dv, fuel as nat),
                        k <= spec.signals@.len(),
                        signals@.len() == k,
                        collected_wf(types@, type_texts@, true),
                        collected_wf(enums@, enum_texts@, false),
                        forall|q: int| 0 <= q < k ==> signal_resolved(#[trigger] signals@[q])
                            && signal_matches(entry.1.signals[q], signals@[q], dv, fuel as nat)
                            && signal_resolvable(entry.1.signals[q], dv, fuel as nat),
                        all_covered(methods@, signals@, text_set(type_texts@), text_set(enum_texts@)),
                        text_set(type_texts@) == used_by(methods@, signals@, true),
                        text_set(enum_texts@) == used_by(methods@, signals@, false),
                    decreases spec.signals@.len() - k,
                {
                    let sg = &spec.signals[k];
                    let payload_type = match &sg.payload_type {
                        Some(t) => {
                            let x = match resolve_refs(t, &self.decls, fuel) {
                                Ok(x) => x,
                                Err(e) => {
                                    proof {
                                        assert(!signal_resolvable(entry.1.signals[k as int], dv, fuel as nat));
                                        assert(!spec_buildable(entry, view));
                                        lemma_unbuildable(view, i as int, ls0, entry);
                                    }
                                    return Err(e);
                                },
                            };
                            let ghost rs0 = text_set(type_texts@);
                            let ghost es0 = text_set(enum_texts@);
                            collect_types(&x, &mut types, &mut type_texts, &mut enums, &mut enum_texts);
                            proof {
                                lemma_all_covered_grows(methods@, signals@, rs0, es0, text_set(type_texts@), text_set(enum_texts@));
                            }
                            Some(x)
                        },
                        None => None,
                    };
                    let ghost sprev = signals@;
                    let ghost pt = payload_type;
                    signals.push(Signal { name: sg.name.clone(), payload_type });
                    proof {
                        lemma_used_by_push_signal(methods@, sprev, signals@[k as int], true);
                        lemma_used_by_push_signal(methods@, sprev, signals@[k as int], false);
                        assert(signals@ == sprev.push(signals@[k as int]));
                        assert(text_set(type_texts@) =~= used_by(methods@, signals@, true));
                        assert(text_set(enum_texts@) =~= used_by(methods@, signals@, false));
                        assert forall|q: int| 0 <= q < signals@.len() implies signal_covered(
                            #[trigger] signals@[q],
                            text_set(type_texts@),
                            text_set(enum_texts@),
                        ) by {
                            if q < sprev.len() {
                                assert(signals@[q] == sprev[q]);
                            }
                        }
                    }
                    k += 1;
                }
                let ghost built_methods = methods@;
                let ghost built_signals = signals@;
                let ghost built_types = types@;
                let ghost built_enums = enums@;
                let ghost rs_final = text_set(type_texts@);
                let ghost es_final = text_set(enum_texts@);
                let schema = Schema {
                    module_name,
                    methods: sort_methods(methods),
                    signals: sort_signals(signals),
                    aliases: sort_types(types, Ghost(true)),
                    enums: sort_types(enums, Ghost(false)),
                };
                proof {
                    assert forall|q: int| 0 <= q < entry.1.signals.len() implies signal_resolvable(
                        #[trigger] entry.1.signals[q],
                        dv,
                        fuel as nat,
                    ) by {
                        let _ = built_signals[q];
                    }
                    assert(built_methods.to_multiset() == schema.methods@.to_multiset());
                    assert(built_signals.to_multiset() == schema.signals@.to_multiset());
                    lemma_texts_in_sorted(built_types, type_texts@, schema.aliases@, true);
                    lemma_texts_in_sorted(built_enums, enum_texts@, schema.enums@, false);
                    lemma_sorted_texts_exact(built_types, type_texts@, schema.aliases@, true);
                    lemma_sorted_texts_exact(built_enums, enum_texts@, schema.enums@, false);
                    lemma_used_by_perm(schema.methods@, built_methods, schema.signals@, built_signals, true);
                    lemma_used_by_perm(schema.methods@, built_methods, schema.signals@, built_signals, false);
                    assert(alias_texts(schema) =~= text_set(type_texts@));
                    assert(enum_text_set(schema) =~= text_set(enum_texts@));
                    assert(rs_final.subset_of(alias_texts(schema)));
                    assert(es_final.subset_of(enum_text_set(schema)));
                    lemma_all_covered_grows(built_methods, built_signals, rs_final, es_final, alias_texts(schema), enum_text_set(schema));
                    assert forall|q: int| 0 <= q < schema.methods@.len() implies method_covered(
                        #[trigger] schema.methods@[q],
                        alias_texts(schema),
                        enum_text_set(schema),
                    ) by {
                        assert(schema.methods@.contains(schema.methods@[q]));
                        assert(schema.methods@.to_multiset().count(schema.methods@[q]) > 0);
                        assert(built_methods.contains(schema.methods@[q]));
                        let j = choose|j: int| 0 <= j < built_methods.len() && built_methods[j] == schema.methods@[q];
                        assert(method_covered(built_methods[j], alias_texts(schema), enum_text_set(schema)));
                    }
                    assert forall|q: int| 0 <= q < schema.signals@.len() implies signal_covered(
                        #[trigger] schema.signals@[q],
                        alias_texts(schema),
                        enum_text_set(schema),
                    ) by {
                        assert(schema.signals@.contains(schema.signals@[q]));
                        assert(schema.signals@.to_multiset().count(schema.signals@[q]) > 0);
                        assert(built_signals.contains(schema.signals@[q]));
                        let j = choose|j: int| 0 <= j < built_signals.len() && built_signals[j] == schema.signals@[q];
                        assert(signal_covered(built_signals[j], alias_texts(schema), enum_text_set(schema)));
                    }
                    assert(schema_wf(schema));
                    let midx = choose|idx: Seq<int>| methods_stable(schema.methods@, built_methods, idx);
                    let sidx = choose|idx: Seq<int>| signals_stable(schema.signals@, built_signals, idx);
                    assert(built_methods.to_multiset() == schema.methods@.to_multiset() && midx.len() == schema.methods@.len());
                    assert(built_signals.to_multiset() == schema.signals@.to_multiset() && sidx.len() == schema.signals@.len());
                    assert(schema_matches(schema, entry, view));
                    assert(spec_buildable(entry, view));
                }
                schemas.push(schema);
            }
            proof {
                let ls1 = live_specs(view.specs, i + 1);
                assert forall|k: int| 0 <= k < ls1.len() implies spec_buildable(#[trigger] ls1[k], view) by {
                    if k < ls0.len() {
                        assert(ls1[k] == ls0[k]);
                    }
                }
                assert forall|k: int| 0 <= k < schemas@.len() implies schema_wf(#[trigger] schemas@[k])
                    && schema_matches(schemas@[k], ls1[k], view) by {
                    if k < ls0.len() {
                        assert(ls1[k] == ls0[k]);
                    }
                }
            }
            i += 1;
        }
        Ok(schemas)
    }
}

} // verus!
