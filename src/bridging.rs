use vstd::prelude::*;

use crate::cxx_types::{
    CxxBridgingTemplate, CxxNamespace, bridging_code, cxx_default_val, cxx_type, enum_from_js,
    enum_namespace, enum_to_js, nullable_from_js, nullable_to_js, props_convertible, struct_from_js,
    struct_to_js,
};
use crate::deps::{
    OrderError, acyclic, calc_deps_order, dependency_edges, dependency_nodes, is_topological_order,
    wrappers_projectable,
};
use crate::order::{lex_le, sort_by_keys, sorted_by};
use crate::rust_types::ProjectionError;
use crate::types::{EnumTypeAnnotation, ObjectTypeAnnotation, Schema, TypeAnnotation};

verus! {

broadcast use vstd::seq_lib::group_to_multiset_ensures;

/// The C++ wrapper type of a nullable type and the code of its bridging.
pub open spec fn nullable_entry(t: TypeAnnotation, ns: Seq<char>) -> Result<(Seq<char>, Seq<char>), ProjectionError> {
    match t {
        TypeAnnotation::Nullable(inner) => match cxx_type(*inner, ns) {
            Err(e) => Err(e),
            Ok(origin) => match cxx_default_val(*inner, ns) {
                Err(e) => Err(e),
                Ok(d) => match cxx_type(t, ns) {
                    Err(e) => Err(e),
                    Ok(k) => Ok((k, bridging_code(k, nullable_from_js(k, origin, d), nullable_to_js()))),
                },
            },
        },
        _ => Err(ProjectionError::Unsupported),
    }
}

/// `t` is the nullable type of a parameter, a return value or a record field
/// of the schema.
pub open spec fn nullable_occurs(s: Schema, t: TypeAnnotation) -> bool {
    &&& t is Nullable
    &&& {
        ||| exists|i: int, p: int|
            0 <= i < s.methods@.len() && 0 <= p < s.methods@[i].params@.len()
                && (#[trigger] s.methods@[i].params@[p]).type_annotation == t
        ||| exists|i: int| 0 <= i < s.methods@.len() && (#[trigger] s.methods@[i]).ret_type == t
        ||| exists|a: int, p: int|
            0 <= a < s.aliases@.len() && s.aliases@[a] is Object && 0 <= p < s.aliases@[a]->Object_0.props@.len()
                && (#[trigger] s.aliases@[a]->Object_0.props@[p]).type_annotation == t
    }
}

pub open spec fn has_key(v: Seq<(String, String)>, k: Seq<char>) -> bool {
    exists|i: int| 0 <= i < v.len() && (#[trigger] v[i]).0@ == k
}

/// Each entry is the wrapper and bridging of a nullable type of the schema,
/// one entry per wrapper type.
pub open spec fn entries_wf(v: Seq<(String, String)>, s: Schema, ns: Seq<char>) -> bool {
    &&& forall|i: int, j: int| 0 <= i < v.len() && 0 <= j < v.len() && i != j ==> (#[trigger] v[i]).0@ != (#[trigger] v[j]).0@
    &&& forall|i: int| 0 <= i < v.len() ==> entry_from(#[trigger] v[i], s, ns)
}

/// The entry is that of a nullable type of the schema.
pub open spec fn entry_from(x: (String, String), s: Schema, ns: Seq<char>) -> bool {
    exists|t: TypeAnnotation| nullable_occurs(s, t)
        && #[trigger] nullable_entry(t, ns) == Ok::<(Seq<char>, Seq<char>), ProjectionError>((x.0@, x.1@))
}

/// The entry of a nullable type covers it.
pub open spec fn entry_covers(v: Seq<(String, String)>, t: TypeAnnotation, ns: Seq<char>) -> bool {
    nullable_entry(t, ns) is Ok && has_key(v, nullable_entry(t, ns)->Ok_0.0)
}

fn entry_of(t: &TypeAnnotation, ns: &CxxNamespace) -> (r: Result<(String, String), ProjectionError>)
    requires
        *t is Nullable,
    ensures
        match nullable_entry(*t, ns.0@) {
            Ok((k, c)) => r is Ok && r->Ok_0.0@ == k && r->Ok_0.1@ == c,
            Err(_) => r is Err,
        },
{
    match t {
        TypeAnnotation::Nullable(inner) => {
            let template = CxxBridgingTemplate::try_into_nullable_template(ns, t, inner)?;
            let code = template.into_code();
            Ok((template.namespace, code))
        },
        _ => Err(ProjectionError::Unsupported),
    }
}

/// Adds the entry of `t`, if it is a nullable whose wrapper has none yet.
fn visit_nullable(
    t: &TypeAnnotation,
    ns: &CxxNamespace,
    entries: &mut Vec<(String, String)>,
    Ghost(s): Ghost<Schema>,
) -> (r: Result<(), ProjectionError>)
    requires
        entries_wf(old(entries)@, s, ns.0@),
        *t is Nullable ==> nullable_occurs(s, *t),
    ensures
        match r {
            Ok(()) => {
                &&& entries_wf(final(entries)@, s, ns.0@)
                &&& forall|k: Seq<char>| has_key(old(entries)@, k) ==> has_key(final(entries)@, k)
                &&& *t is Nullable ==> entry_covers(final(entries)@, *t, ns.0@)
            },
            Err(_) => *t is Nullable && nullable_occurs(s, *t) && nullable_entry(*t, ns.0@) is Err,
        },
{
    if !t.is_nullable() {
        return Ok(());
    }
    let (key, code) = entry_of(t, ns)?;
    let mut k: usize = 0;
    while k < entries.len()
        invariant
            k <= entries@.len(),
            entries@ == old(entries)@,
            entries_wf(entries@, s, ns.0@),
            *t is Nullable,
            nullable_entry(*t, ns.0@) is Ok,
            key@ == nullable_entry(*t, ns.0@)->Ok_0.0,
            code@ == nullable_entry(*t, ns.0@)->Ok_0.1,
            forall|j: int| 0 <= j < k ==> (#[trigger] entries@[j]).0@ != key@,
        decreases entries@.len() - k,
    {
        if entries[k].0 == key {
            proof {
                assert(entries@[k as int].0@ == key@);
            }
            return Ok(());
        }
        k += 1;
    }
    let ghost e0 = entries@;
    entries.push((key, code));
    proof {
        let n = e0.len() as int;
        assert(entries@[n].0@ == nullable_entry(*t, ns.0@)->Ok_0.0);
        assert forall|kk: Seq<char>| has_key(e0, kk) implies has_key(entries@, kk) by {
            let i = choose|i: int| 0 <= i < e0.len() && (#[trigger] e0[i]).0@ == kk;
            assert(entries@[i] == e0[i]);
        }
        assert forall|i: int| 0 <= i < entries@.len() implies entry_from(#[trigger] entries@[i], s, ns.0@) by {
            if i < n {
                assert(entries@[i] == e0[i]);
            } else {
                assert(nullable_entry(*t, ns.0@) == Ok::<(Seq<char>, Seq<char>), ProjectionError>((entries@[i].0@, entries@[i].1@)));
            }
        }
    }
    Ok(())
}

proof fn lemma_in_permutation<A>(r: Seq<A>, e: Seq<A>, x: A)
    requires
        r.to_multiset() == e.to_multiset(),
        e.contains(x),
    ensures
        r.contains(x),
{
    assert(e.to_multiset().count(x) > 0);
}

/// Reordering the entries keeps them well formed and keeps every key.
proof fn lemma_permuted_entries(e: Seq<(String, String)>, r: Seq<(String, String)>, s: Schema, ns: Seq<char>)
    requires
        entries_wf(e, s, ns),
        r.to_multiset() == e.to_multiset(),
    ensures
        entries_wf(r, s, ns),
        forall|k: Seq<char>| has_key(e, k) ==> has_key(r, k),
{
    assert(e.no_duplicates()) by {
        assert forall|i: int, j: int| 0 <= i < e.len() && 0 <= j < e.len() && i != j implies e[i] != e[j] by {
            assert(e[i].0@ != e[j].0@);
        }
    }
    e.lemma_multiset_has_no_duplicates();
    r.lemma_multiset_has_no_duplicates_conv();
    assert forall|i: int| 0 <= i < r.len() implies e.contains(#[trigger] r[i]) by {
        lemma_in_permutation(e, r, r[i]);
    }
    assert forall|i: int, j: int| 0 <= i < r.len() && 0 <= j < r.len() && i != j implies (#[trigger] r[i]).0@ != (#[trigger] r[j]).0@ by {
        assert(e.contains(r[i]) && e.contains(r[j]));
        let i2 = choose|i2: int| 0 <= i2 < e.len() && e[i2] == r[i];
        let j2 = choose|j2: int| 0 <= j2 < e.len() && e[j2] == r[j];
        assert(r[i] != r[j]);
        assert(i2 != j2);
    }
    assert forall|i: int| 0 <= i < r.len() implies entry_from(#[trigger] r[i], s, ns) by {
        assert(e.contains(r[i]));
        let i2 = choose|i2: int| 0 <= i2 < e.len() && e[i2] == r[i];
        assert(entry_from(e[i2], s, ns));
    }
    assert forall|k: Seq<char>| has_key(e, k) implies has_key(r, k) by {
        let i = choose|i: int| 0 <= i < e.len() && (#[trigger] e[i]).0@ == k;
        lemma_in_permutation(r, e, e[i]);
        let j = choose|j: int| 0 <= j < r.len() && r[j] == e[i];
        assert(r[j].0@ == k);
    }
}

impl Schema {
    /// The bridging code of every nullable wrapper the schema's methods and
    /// records need, one entry per wrapper type, sorted by the type's name.
    pub fn collect_nullable_types(&self, cxx_ns: &CxxNamespace) -> (r: Result<Vec<(String, String)>, ProjectionError>)
        ensures
            match r {
                Ok(v) => {
                    &&& entries_wf(v@, *self, cxx_ns.0@)
                    &&& sorted_by(v@.map_values(|e: (String, String)| e.0@))
                    &&& forall|t: TypeAnnotation| nullable_occurs(*self, t) ==> entry_covers(v@, t, cxx_ns.0@)
                },
                Err(_) => exists|t: TypeAnnotation| nullable_occurs(*self, t) && nullable_entry(t, cxx_ns.0@) is Err,
            },
    {
        let ghost s = *self;
        let ghost ns = cxx_ns.0@;
        let mut entries: Vec<(String, String)> = Vec::new();
        let mut i: usize = 0;
        while i < self.methods.len()
            invariant
                s == *self,
                ns == cxx_ns.0@,
                i <= self.methods@.len(),
                entries_wf(entries@, s, ns),
                forall|i2: int, p: int| 0 <= i2 < i && 0 <= p < self.methods@[i2].params@.len()
                    && (#[trigger] self.methods@[i2].params@[p]).type_annotation is Nullable
                    ==> entry_covers(entries@, self.methods@[i2].params@[p].type_annotation, ns),
                forall|i2: int| 0 <= i2 < i && (#[trigger] self.methods@[i2]).ret_type is Nullable
                    ==> entry_covers(entries@, self.methods@[i2].ret_type, ns),
            decreases self.methods@.len() - i,
        {
            let m = &self.methods[i];
            let mut p: usize = 0;
            while p < m.params.len()
                invariant
                    s == *self,
                    ns == cxx_ns.0@,
                    i < self.methods@.len(),
                    *m == self.methods@[i as int],
                    p <= m.params@.len(),
                    entries_wf(entries@, s, ns),
                    forall|i2: int, q: int| 0 <= i2 < i && 0 <= q < self.methods@[i2].params@.len()
                        && (#[trigger] self.methods@[i2].params@[q]).type_annotation is Nullable
                        ==> entry_covers(entries@, self.methods@[i2].params@[q].type_annotation, ns),
                    forall|i2: int| 0 <= i2 < i && (#[trigger] self.methods@[i2]).ret_type is Nullable
                        ==> entry_covers(entries@, self.methods@[i2].ret_type, ns),
                    forall|q: int| 0 <= q < p && (#[trigger] m.params@[q]).type_annotation is Nullable
                        ==> entry_covers(entries@, m.params@[q].type_annotation, ns),
                decreases m.params@.len() - p,
            {
                let t = &m.params[p].type_annotation;
                proof {
                    assert(self.methods@[i as int].params@[p as int].type_annotation == *t);
                }
                visit_nullable(t, cxx_ns, &mut entries, Ghost(s))?;
                p += 1;
            }
            proof {
                assert(self.methods@[i as int].ret_type == m.ret_type);
            }
            visit_nullable(&m.ret_type, cxx_ns, &mut entries, Ghost(s))?;
            proof {
                assert forall|i2: int, q: int| 0 <= i2 < i + 1 && 0 <= q < self.methods@[i2].params@.len()
                    && (#[trigger] self.methods@[i2].params@[q]).type_annotation is Nullable
                    implies entry_covers(entries@, self.methods@[i2].params@[q].type_annotation, ns) by {
                    if i2 == i {
                        assert(self.methods@[i2].params@[q] == m.params@[q]);
                    }
                }
            }
            i += 1;
        }
        let mut a: usize = 0;
        while a < self.aliases.len()
            invariant
                s == *self,
                ns == cxx_ns.0@,
                a <= self.aliases@.len(),
                entries_wf(entries@, s, ns),
                forall|i2: int, p: int| 0 <= i2 < self.methods@.len() && 0 <= p < self.methods@[i2].params@.len()
                    && (#[trigger] self.methods@[i2].params@[p]).type_annotation is Nullable
                    ==> entry_covers(entries@, self.methods@[i2].params@[p].type_annotation, ns),
                forall|i2: int| 0 <= i2 < self.methods@.len() && (#[trigger] self.methods@[i2]).ret_type is Nullable
                    ==> entry_covers(entries@, self.methods@[i2].ret_type, ns),
                forall|a2: int, p: int| 0 <= a2 < a && self.aliases@[a2] is Object
                    && 0 <= p < self.aliases@[a2]->Object_0.props@.len()
                    && (#[trigger] self.aliases@[a2]->Object_0.props@[p]).type_annotation is Nullable
                    ==> entry_covers(entries@, self.aliases@[a2]->Object_0.props@[p].type_annotation, ns),
            decreases self.aliases@.len() - a,
        {
            if let TypeAnnotation::Object(o) = &self.aliases[a] {
                let mut p: usize = 0;
                while p < o.props.len()
                    invariant
                        s == *self,
                        ns == cxx_ns.0@,
                        a < self.aliases@.len(),
                        self.aliases@[a as int] == TypeAnnotation::Object(*o),
                        p <= o.props@.len(),
                        entries_wf(entries@, s, ns),
                        forall|i2: int, q: int| 0 <= i2 < self.methods@.len() && 0 <= q < self.methods@[i2].params@.len()
                            && (#[trigger] self.methods@[i2].params@[q]).type_annotation is Nullable
                            ==> entry_covers(entries@, self.methods@[i2].params@[q].type_annotation, ns),
                        forall|i2: int| 0 <= i2 < self.methods@.len() && (#[trigger] self.methods@[i2]).ret_type is Nullable
                            ==> entry_covers(entries@, self.methods@[i2].ret_type, ns),
                        forall|a2: int, q: int| 0 <= a2 < a && self.aliases@[a2] is Object
                            && 0 <= q < self.aliases@[a2]->Object_0.props@.len()
                            && (#[trigger] self.aliases@[a2]->Object_0.props@[q]).type_annotation is Nullable
                            ==> entry_covers(entries@, self.aliases@[a2]->Object_0.props@[q].type_annotation, ns),
                        forall|q: int| 0 <= q < p && (#[trigger] o.props@[q]).type_annotation is Nullable
                            ==> entry_covers(entries@, o.props@[q].type_annotation, ns),
                    decreases o.props@.len() - p,
                {
                    let t = &o.props[p].type_annotation;
                    proof {
                        assert(self.aliases@[a as int]->Object_0.props@[p as int].type_annotation == *t);
                    }
                    visit_nullable(t, cxx_ns, &mut entries, Ghost(s))?;
                    p += 1;
                }
                proof {
                    assert forall|a2: int, q: int| 0 <= a2 < a + 1 && self.aliases@[a2] is Object
                        && 0 <= q < self.aliases@[a2]->Object_0.props@.len()
                        && (#[trigger] self.aliases@[a2]->Object_0.props@[q]).type_annotation is Nullable
                        implies entry_covers(entries@, self.aliases@[a2]->Object_0.props@[q].type_annotation, ns) by {
                        if a2 == a {
                            assert(self.aliases@[a2]->Object_0.props@[q] == o.props@[q]);
                        }
                    }
                }
            }
            a += 1;
        }
        let mut keys: Vec<String> = Vec::new();
        let mut k: usize = 0;
        while k < entries.len()
            invariant
                k <= entries@.len(),
                keys@.len() == k,
                forall|q: int| 0 <= q < k ==> (#[trigger] keys@[q])@ == entries@[q].0@,
            decreases entries@.len() - k,
        {
            keys.push(entries[k].0.clone());
            k += 1;
        }
        let ghost e0 = entries@;
        let ghost key = |e: (String, String)| e.0@;
        let sorted = sort_by_keys(entries, keys, Ghost(key));
        proof {
            assert(sorted@.map_values(|e: (String, String)| key(e)) =~= sorted@.map_values(|e: (String, String)| e.0@));
            lemma_permuted_entries(e0, sorted@, s, ns);
        }
        Ok(sorted)
    }
}

/// The bridging code of an enum of the schema.
pub open spec fn enum_code(e: EnumTypeAnnotation, ns: Seq<char>) -> Seq<char> {
    bridging_code(enum_namespace(ns, e), enum_from_js(ns, e), enum_to_js(ns, e))
}

/// The bridging code of a record of the schema.
pub open spec fn struct_code(o: ObjectTypeAnnotation, ns: Seq<char>) -> Seq<char> {
    bridging_code(ns + "::bridging::"@ + o.name@, struct_from_js(ns, o), struct_to_js(o))
}

pub open spec fn enum_codes(es: Seq<TypeAnnotation>, ns: Seq<char>, n: int) -> Seq<Seq<char>>
    decreases n,
{
    if n <= 0 { Seq::empty() } else { enum_codes(es, ns, n - 1).push(enum_code(es[n - 1]->Enum_0, ns)) }
}

/// The last record of the list with the given name.
pub open spec fn last_record(aliases: Seq<TypeAnnotation>, name: Seq<char>, n: int) -> Option<ObjectTypeAnnotation>
    decreases n,
{
    if n <= 0 {
        None
    } else if aliases[n - 1]->Object_0.name@ == name {
        Some(aliases[n - 1]->Object_0)
    } else {
        last_record(aliases, name, n - 1)
    }
}

/// The code of the entry with the given key.
pub open spec fn entry_code(v: Seq<(String, String)>, key: Seq<char>, n: int) -> Option<Seq<char>>
    decreases n,
{
    if n <= 0 {
        None
    } else if v[n - 1].0@ == key {
        Some(v[n - 1].1@)
    } else {
        entry_code(v, key, n - 1)
    }
}

/// For each type of `ord` in turn: its record's bridging, then its nullable
/// wrapper's bridging, where it has them.
pub open spec fn placed(ord: Seq<Seq<char>>, s: Schema, ns: Seq<char>, nulls: Seq<(String, String)>, n: int) -> Seq<Seq<char>>
    decreases n,
{
    if n <= 0 {
        Seq::empty()
    } else {
        placed(ord, s, ns, nulls, n - 1) + match last_record(s.aliases@, ord[n - 1], s.aliases@.len() as int) {
            Some(o) => seq![struct_code(o, ns)],
            None => Seq::empty(),
        } + match entry_code(nulls, ns + "::bridging::"@ + ord[n - 1], nulls.len() as int) {
            Some(c) => seq![c],
            None => Seq::empty(),
        }
    }
}

pub open spec fn enums_bridgeable(s: Schema) -> bool {
    forall|i: int| 0 <= i < s.enums@.len() ==> (#[trigger] s.enums@[i])->Enum_0.members@.len() > 0
}

pub open spec fn records_bridgeable(s: Schema, ns: Seq<char>) -> bool {
    forall|i: int| 0 <= i < s.aliases@.len() ==> props_convertible((#[trigger] s.aliases@[i])->Object_0, ns)
}

pub open spec fn nullables_bridgeable(s: Schema, ns: Seq<char>) -> bool {
    forall|t: TypeAnnotation| nullable_occurs(s, t) ==> (#[trigger] nullable_entry(t, ns)) is Ok
}

fn find_record(aliases: &Vec<TypeAnnotation>, name: &String) -> (r: Option<usize>)
    requires
        forall|i: int| 0 <= i < aliases@.len() ==> (#[trigger] aliases@[i]) is Object,
    ensures
        match last_record(aliases@, name@, aliases@.len() as int) {
            Some(o) => r is Some && r->0 < aliases@.len() && aliases@[r->0 as int]->Object_0 == o,
            None => r is None,
        },
{
    let mut k: usize = aliases.len();
    while k > 0
        invariant
            k <= aliases@.len(),
            forall|i: int| 0 <= i < aliases@.len() ==> (#[trigger] aliases@[i]) is Object,
            last_record(aliases@, name@, aliases@.len() as int) == last_record(aliases@, name@, k as int),
        decreases k,
    {
        if let TypeAnnotation::Object(o) = &aliases[k - 1] {
            if o.name == *name {
                return Some(k - 1);
            }
        }
        k -= 1;
    }
    None
}

fn find_entry(v: &Vec<(String, String)>, key: &String) -> (r: Option<usize>)
    ensures
        match entry_code(v@, key@, v@.len() as int) {
            Some(c) => r is Some && r->0 < v@.len() && v@[r->0 as int].1@ == c,
            None => r is None,
        },
{
    let mut k: usize = v.len();
    while k > 0
        invariant
            k <= v@.len(),
            entry_code(v@, key@, v@.len() as int) == entry_code(v@, key@, k as int),
        decreases k,
    {
        if v[k - 1].0 == *key {
            return Some(k - 1);
        }
        k -= 1;
    }
    None
}

impl Schema {
    /// The C++ bridging code of the schema's types, in an order a compiler
    /// accepts: the enums, then each type of a dependency order with its
    /// record and its nullable wrapper. Fails exactly when a bridging cannot be
    /// written or the types depend on each other in a cycle.
    pub fn as_cxx_bridging_templates(&self, cxx_ns: &CxxNamespace) -> (r: Result<Vec<String>, OrderError>)
        requires
            forall|i: int| 0 <= i < self.enums@.len() ==> (#[trigger] self.enums@[i]) is Enum,
            forall|i: int| 0 <= i < self.aliases@.len() ==> (#[trigger] self.aliases@[i]) is Object,
        ensures
            r is Ok <==> nullables_bridgeable(*self, cxx_ns.0@) && enums_bridgeable(*self)
                && records_bridgeable(*self, cxx_ns.0@) && wrappers_projectable(*self)
                && acyclic(dependency_edges(*self)),
            r matches Ok(v) ==> exists|ord: Seq<Seq<char>>, nulls: Seq<(String, String)>|
                is_topological_order(dependency_nodes(*self), dependency_edges(*self), ord)
                && entries_wf(nulls, *self, cxx_ns.0@)
                && (forall|t: TypeAnnotation| nullable_occurs(*self, t) ==> entry_covers(nulls, t, cxx_ns.0@))
                && v@.map_values(|c: String| c@) == enum_codes(self.enums@, cxx_ns.0@, self.enums@.len() as int)
                    + placed(ord, *self, cxx_ns.0@, nulls, ord.len() as int),
    {
        let ghost ns = cxx_ns.0@;
        let nulls = match self.collect_nullable_types(cxx_ns) {
            Ok(v) => v,
            Err(e) => {
                return Err(OrderError::Projection(e));
            },
        };
        let mut out: Vec<String> = Vec::new();
        let mut i: usize = 0;
        while i < self.enums.len()
            invariant
                i <= self.enums@.len(),
                ns == cxx_ns.0@,
                forall|j: int| 0 <= j < self.enums@.len() ==> (#[trigger] self.enums@[j]) is Enum,
                forall|j: int| 0 <= j < i ==> (#[trigger] self.enums@[j])->Enum_0.members@.len() > 0,
                out@.map_values(|c: String| c@) == enum_codes(self.enums@, ns, i as int),
            decreases self.enums@.len() - i,
        {
            if let TypeAnnotation::Enum(e) = &self.enums[i] {
                let t = match CxxBridgingTemplate::try_into_enum_template(cxx_ns, e) {
                    Ok(t) => t,
                    Err(err) => {
                        proof {
                            assert(!enums_bridgeable(*self));
                        }
                        return Err(OrderError::Projection(err));
                    },
                };
                let ghost o0 = out@;
                out.push(t.into_code());
                proof {
                    assert(out@.map_values(|c: String| c@) =~= o0.map_values(|c: String| c@).push(enum_code(*e, ns)));
                }
            }
            i += 1;
        }
        let mut a: usize = 0;
        let mut records: Vec<String> = Vec::new();
        while a < self.aliases.len()
            invariant
                a <= self.aliases@.len(),
                ns == cxx_ns.0@,
                forall|j: int| 0 <= j < self.aliases@.len() ==> (#[trigger] self.aliases@[j]) is Object,
                records@.len() == a,
                forall|j: int| 0 <= j < a ==> props_convertible((#[trigger] self.aliases@[j])->Object_0, ns)
                    && records@[j]@ == struct_code(self.aliases@[j]->Object_0, ns),
            decreases self.aliases@.len() - a,
        {
            if let TypeAnnotation::Object(o) = &self.aliases[a] {
                let t = match CxxBridgingTemplate::try_into_struct_template(cxx_ns, o) {
                    Ok(t) => t,
                    Err(err) => {
                        proof {
                            assert(!records_bridgeable(*self, ns));
                        }
                        return Err(OrderError::Projection(err));
                    },
                };
                records.push(t.into_code());
            }
            a += 1;
        }
        let ord = calc_deps_order(self)?;
        let ghost ordv = ord@.map_values(|x: String| x@);
        let ghost head = out@.map_values(|c: String| c@);
        let mut k: usize = 0;
        while k < ord.len()
            invariant
                k <= ord@.len(),
                ns == cxx_ns.0@,
                ordv == ord@.map_values(|x: String| x@),
                forall|j: int| 0 <= j < self.aliases@.len() ==> (#[trigger] self.aliases@[j]) is Object,
                records@.len() == self.aliases@.len(),
                forall|j: int| 0 <= j < self.aliases@.len() ==> (#[trigger] records@[j])@ == struct_code(self.aliases@[j]->Object_0, ns),
                out@.map_values(|c: String| c@) == head + placed(ordv, *self, ns, nulls@, k as int),
            decreases ord@.len() - k,
        {
            let ghost o0 = out@;
            let name = &ord[k];
            let ghost rspec = match last_record(self.aliases@, name@, self.aliases@.len() as int) {
                Some(o) => seq![struct_code(o, ns)],
                None => Seq::<Seq<char>>::empty(),
            };
            let key = cxx_ns.0.clone().concat("::bridging::").concat(name.as_str());
            let ghost nspec = match entry_code(nulls@, key@, nulls@.len() as int) {
                Some(c) => seq![c],
                None => Seq::<Seq<char>>::empty(),
            };
            if let Some(j) = find_record(&self.aliases, name) {
                let c = records[j].clone();
                proof {
                    assert(c@ == struct_code(self.aliases@[j as int]->Object_0, ns));
                }
                out.push(c);
            }
            proof {
                assert(out@.map_values(|c: String| c@) =~= o0.map_values(|c: String| c@) + rspec);
            }
            let ghost o1 = out@;
            if let Some(j) = find_entry(&nulls, &key) {
                out.push(nulls[j].1.clone());
            }
            proof {
                assert(out@.map_values(|c: String| c@) =~= o1.map_values(|c: String| c@) + nspec);
                assert(ordv[k as int] == name@);
                assert(key@ == ns + "::bridging::"@ + ordv[k as int]);
                assert(placed(ordv, *self, ns, nulls@, k as int + 1) == placed(ordv, *self, ns, nulls@, k as int) + rspec + nspec);
                assert(out@.map_values(|c: String| c@) =~= head + placed(ordv, *self, ns, nulls@, k as int + 1));
            }
            k += 1;
        }
        Ok(out)
    }
}

} // verus!
