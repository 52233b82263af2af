use vstd::prelude::*;

use crate::rust_types::{ProjectionError, rs_type};
use crate::types::{Prop, Schema, TypeAnnotation};

verus! {

pub type Name = Seq<char>;

/// Why no declaration order exists.
#[derive(Debug, PartialEq, Eq)]
pub enum OrderError {
    /// The named type takes part in a dependency cycle.
    Cycle(String),
    /// A nullable field whose wrapper type has no projection.
    Projection(ProjectionError),
}

/// The dependencies that one field of the record `owner` brings: the record or
/// enum it names; for a nullable field, the wrapper type, which in turn
/// depends on the record or enum it wraps.
pub open spec fn prop_edges(owner: Name, t: TypeAnnotation) -> Set<(Name, Name)> {
    match t {
        TypeAnnotation::Object(o) => set![(owner, o.name@)],
        TypeAnnotation::Enum(e) => set![(owner, e.name@)],
        TypeAnnotation::Nullable(inner) => match rs_type(t) {
            Ok(w) => match *inner {
                TypeAnnotation::Object(o) => set![(owner, w), (w, o.name@)],
                TypeAnnotation::Enum(e) => set![(owner, w), (w, e.name@)],
                _ => set![(owner, w)],
            },
            Err(_) => Set::empty(),
        },
        _ => Set::empty(),
    }
}

/// The types one field of `owner` adds to the graph besides `owner` itself.
pub open spec fn prop_nodes(owner: Name, t: TypeAnnotation) -> Set<Name> {
    match t {
        TypeAnnotation::Object(o) => set![o.name@],
        TypeAnnotation::Enum(e) => set![e.name@],
        TypeAnnotation::Nullable(inner) => match rs_type(t) {
            Ok(w) => match *inner {
                TypeAnnotation::Object(o) => set![w, o.name@],
                TypeAnnotation::Enum(e) => set![w, e.name@],
                _ => set![w],
            },
            Err(_) => Set::empty(),
        },
        _ => Set::empty(),
    }
}

pub open spec fn props_edges(owner: Name, props: Seq<Prop>, k: int) -> Set<(Name, Name)>
    decreases k,
{
    if k <= 0 {
        Set::empty()
    } else {
        props_edges(owner, props, k - 1).union(prop_edges(owner, props[k - 1].type_annotation))
    }
}

pub open spec fn props_nodes(owner: Name, props: Seq<Prop>, k: int) -> Set<Name>
    decreases k,
{
    if k <= 0 {
        set![owner]
    } else {
        props_nodes(owner, props, k - 1).union(prop_nodes(owner, props[k - 1].type_annotation))
    }
}

pub open spec fn alias_edges(t: TypeAnnotation) -> Set<(Name, Name)> {
    match t {
        TypeAnnotation::Object(o) => props_edges(o.name@, o.props@, o.props@.len() as int),
        _ => Set::empty(),
    }
}

pub open spec fn alias_nodes(t: TypeAnnotation) -> Set<Name> {
    match t {
        TypeAnnotation::Object(o) => props_nodes(o.name@, o.props@, o.props@.len() as int),
        _ => Set::empty(),
    }
}

pub open spec fn aliases_edges(aliases: Seq<TypeAnnotation>, i: int) -> Set<(Name, Name)>
    decreases i,
{
    if i <= 0 {
        Set::empty()
    } else {
        aliases_edges(aliases, i - 1).union(alias_edges(aliases[i - 1]))
    }
}

pub open spec fn aliases_nodes(aliases: Seq<TypeAnnotation>, i: int) -> Set<Name>
    decreases i,
{
    if i <= 0 {
        Set::empty()
    } else {
        aliases_nodes(aliases, i - 1).union(alias_nodes(aliases[i - 1]))
    }
}

/// `(a, b)` is an edge when the declaration of `a` must come after that of `b`.
pub open spec fn dependency_edges(schema: Schema) -> Set<(Name, Name)> {
    aliases_edges(schema.aliases@, schema.aliases@.len() as int)
}

/// Every type that has a declaration to order: the records, the nullable
/// wrappers of their fields, and the records and enums the fields name.
pub open spec fn dependency_nodes(schema: Schema) -> Set<Name> {
    aliases_nodes(schema.aliases@, schema.aliases@.len() as int)
}

/// Every nullable field of every record has a wrapper type.
pub open spec fn wrappers_projectable(schema: Schema) -> bool {
    forall|i: int, k: int|
        0 <= i < schema.aliases@.len() && (#[trigger] schema.aliases@[i]) is Object
            && 0 <= k < schema.aliases@[i]->Object_0.props@.len()
            && (#[trigger] schema.aliases@[i]->Object_0.props@[k]).type_annotation is Nullable
            ==> rs_type(schema.aliases@[i]->Object_0.props@[k].type_annotation) is Ok
}

/// `p` is a walk along dependency edges that starts and ends at one type.
pub open spec fn is_cycle(edges: Set<(Name, Name)>, p: Seq<Name>) -> bool {
    &&& p.len() >= 2
    &&& p[0] == p[p.len() - 1]
    &&& forall|i: int| 0 <= i < p.len() - 1 ==> edges.contains((#[trigger] p[i], p[i + 1]))
}

pub open spec fn acyclic(edges: Set<(Name, Name)>) -> bool {
    forall|p: Seq<Name>| !is_cycle(edges, p)
}

/// `order` lists each node once, and every dependency before what depends on it.
pub open spec fn is_topological_order(
    nodes: Set<Name>,
    edges: Set<(Name, Name)>,
    order: Seq<Name>,
) -> bool {
    &&& order.no_duplicates()
    &&& forall|a: Name| nodes.contains(a) <==> order.contains(a)
    &&& forall|i: int, j: int|
        0 <= i < order.len() && 0 <= j < order.len() && edges.contains(
            (#[trigger] order[i], #[trigger] order[j]),
        ) ==> j < i
}

// ----- the graph over node indices -----

pub open spec fn idx_path(adj: Seq<Vec<usize>>, p: Seq<usize>) -> bool {
    forall|i: int| 0 <= i < p.len() - 1 ==> adj[p[i] as int]@.contains(#[trigger] p[i + 1])
}

pub open spec fn graph_wf(adj: Seq<Vec<usize>>) -> bool {
    forall|i: int, k: int|
        0 <= i < adj.len() && 0 <= k < adj[i]@.len() ==> (#[trigger] adj[i]@[k]) < adj.len()
}

/// `done` lists finished nodes, each after all the nodes it points to.
pub open spec fn closed_order(adj: Seq<Vec<usize>>, done: Seq<usize>) -> bool {
    &&& done.no_duplicates()
    &&& forall|i: int| 0 <= i < done.len() ==> (#[trigger] done[i]) < adj.len()
    &&& forall|i: int, d: usize|
        0 <= i < done.len() && adj[done[i] as int]@.contains(d) ==> exists|j: int|
            0 <= j < i && #[trigger] done[j] == d
}

/// Node states: 0 not yet seen, 1 on the current path, 2 finished.
pub open spec fn state_wf(
    adj: Seq<Vec<usize>>,
    state: Seq<u8>,
    stack: Seq<usize>,
    done: Seq<usize>,
) -> bool {
    &&& state.len() == adj.len()
    &&& stack.no_duplicates()
    &&& forall|i: int| 0 <= i < stack.len() ==> (#[trigger] stack[i]) < adj.len()
    &&& idx_path(adj, stack)
    &&& forall|x: usize| x < adj.len() ==> (state[x as int] == 1 <==> stack.contains(x))
    &&& forall|x: usize| x < adj.len() ==> (state[x as int] == 2 <==> done.contains(x))
    &&& forall|x: int| 0 <= x < adj.len() ==> state[x] <= 2
    &&& closed_order(adj, done)
}

pub open spec fn idx_cycle(adj: Seq<Vec<usize>>, p: Seq<usize>) -> bool {
    &&& p.len() >= 2
    &&& p[0] == p[p.len() - 1]
    &&& idx_path(adj, p)
    &&& forall|i: int| 0 <= i < p.len() ==> (#[trigger] p[i]) < adj.len()
}

proof fn lemma_stack_bound(stack: Seq<usize>, n: nat)
    requires
        stack.no_duplicates(),
        forall|i: int| 0 <= i < stack.len() ==> (#[trigger] stack[i]) < n,
    ensures
        stack.len() <= n,
{
    let s = stack.map_values(|x: usize| x as int);
    assert(s.no_duplicates()) by {
        assert forall|i: int, j: int| 0 <= i < s.len() && 0 <= j < s.len() && i != j implies s[i]
            != s[j] by {
            assert(stack[i] != stack[j]);
        }
    }
    s.unique_seq_to_set();
    vstd::set_lib::lemma_int_range(0, n as int);
    assert(s.to_set().subset_of(vstd::set_lib::set_int_range(0, n as int)));
    vstd::set_lib::lemma_len_subset(s.to_set(), vstd::set_lib::set_int_range(0, n as int));
}

/// Finishes `u` and every node it reaches, or finds a cycle.
fn visit(
    adj: &Vec<Vec<usize>>,
    u: usize,
    state: &mut Vec<u8>,
    done: &mut Vec<usize>,
    Ghost(stack): Ghost<Seq<usize>>,
) -> (r: Result<(), usize>)
    requires
        graph_wf(adj@),
        u < adj.len(),
        state_wf(adj@, old(state)@, stack, old(done)@),
        old(state)@[u as int] == 0,
        stack.len() > 0 ==> adj@[stack.last() as int]@.contains(u),
    ensures
        match r {
            Ok(()) => {
                &&& state_wf(adj@, final(state)@, stack, final(done)@)
                &&& final(state)@[u as int] == 2
                &&& forall|x: int| 0 <= x < adj.len() && old(state)@[x] == 2 ==> final(state)@[x] == 2
            },
            Err(v) => exists|p: Seq<usize>| idx_cycle(adj@, p) && p[0] == v,
        },
    decreases adj.len() - stack.len(),
{
    let ghost n = adj.len();
    let ghost stack2 = stack.push(u);
    state.set(u, 1);
    proof {
        assert(!stack.contains(u));
        assert(!done@.contains(u));
        assert(stack2.no_duplicates());
        assert forall|x: usize| x < adj.len() implies (state@[x as int] == 1 <==> stack2.contains(x)) by {
            if x != u {
                if stack.contains(x) {
                    let j = choose|j: int| 0 <= j < stack.len() && stack[j] == x;
                    assert(stack2[j] == x);
                }
                if stack2.contains(x) {
                    let j = choose|j: int| 0 <= j < stack2.len() && stack2[j] == x;
                    assert(j < stack.len());
                    assert(stack[j] == x);
                }
            } else {
                assert(stack2[stack.len() as int] == u);
            }
        }
        assert(idx_path(adj@, stack2)) by {
            assert forall|i: int| 0 <= i < stack2.len() - 1 implies adj@[stack2[i] as int]@.contains(
                #[trigger] stack2[i + 1],
            ) by {
                if i < stack.len() - 1 {
                    assert(stack2[i] == stack[i] && stack2[i + 1] == stack[i + 1]);
                } else {
                    assert(stack2[i] == stack.last());
                }
            }
        }
        lemma_stack_bound(stack2, n as nat);
    }
    let mut k: usize = 0;
    while k < adj[u].len()
        invariant
            graph_wf(adj@),
            u < adj.len(),
            stack2 == stack.push(u),
            stack2.len() <= adj.len(),
            state_wf(adj@, state@, stack2, done@),
            forall|j: int| 0 <= j < k ==> state@[adj@[u as int]@[j] as int] == 2,
            forall|x: int| 0 <= x < adj.len() && old(state)@[x] == 2 ==> state@[x] == 2,
            k <= adj@[u as int]@.len(),
        decreases adj@[u as int]@.len() - k,
    {
        let v = adj[u][k];
        assert(v < adj.len());
        if state[v] == 1 {
            proof {
                assert(stack2.contains(v));
                let j = choose|j: int| 0 <= j < stack2.len() && stack2[j] == v;
                let p = stack2.subrange(j, stack2.len() as int).push(v);
                assert(p[p.len() - 2] == u);
                assert(adj@[u as int]@.contains(v)) by {
                    assert(adj@[u as int]@[k as int] == v);
                }
                assert(idx_path(adj@, p)) by {
                    assert forall|i: int| 0 <= i < p.len() - 1 implies adj@[p[i] as int]@.contains(
                        #[trigger] p[i + 1],
                    ) by {
                        if i < p.len() - 2 {
                            assert(p[i] == stack2[j + i] && p[i + 1] == stack2[j + i + 1]);
                        }
                    }
                }
                assert(idx_cycle(adj@, p));
            }
            return Err(v);
        } else if state[v] == 0 {
            proof {
                assert(adj@[u as int]@[k as int] == v);
            }
            match visit(adj, v, state, done, Ghost(stack2)) {
                Ok(()) => {},
                Err(w) => {
                    return Err(w);
                },
            }
        }
        k += 1;
    }
    let ghost done0 = done@;
    state.set(u, 2);
    done.push(u);
    proof {
        assert(stack2.drop_last() == stack);
        assert(!done0.contains(u));
        assert forall|x: usize| x < adj.len() implies (state@[x as int] == 1 <==> stack.contains(x)) by {
            if x != u {
                if stack2.contains(x) {
                    let j = choose|j: int| 0 <= j < stack2.len() && stack2[j] == x;
                    assert(j < stack.len());
                    assert(stack[j] == x);
                }
                assert(stack.contains(x) ==> stack2.contains(x));
            }
        }
        assert forall|x: usize| x < adj.len() implies (state@[x as int] == 2 <==> done@.contains(x)) by {
            if x != u {
                if done@.contains(x) {
                    let j = choose|j: int| 0 <= j < done@.len() && done@[j] == x;
                    assert(j < done0.len());
                    assert(done0[j] == x);
                }
                if done0.contains(x) {
                    let j = choose|j: int| 0 <= j < done0.len() && done0[j] == x;
                    assert(done@[j] == x);
                }
            } else {
                assert(done@[done0.len() as int] == u);
            }
        }
        assert forall|i: int, d: usize|
            0 <= i < done@.len() && adj@[done@[i] as int]@.contains(d) implies exists|j: int|
                0 <= j < i && #[trigger] done@[j] == d by {
            if i < done0.len() {
                let j = choose|j: int| 0 <= j < i && #[trigger] done0[j] == d;
                assert(done@[j] == d);
            } else {
                let kk = choose|kk: int| 0 <= kk < adj@[u as int]@.len() && adj@[u as int]@[kk] == d;
                assert(state@[d as int] == 2);
                assert(done0.contains(d));
                let j = choose|j: int| 0 <= j < done0.len() && done0[j] == d;
                assert(done@[j] == d);
            }
        }
    }
    Ok(())
}

/// Orders the nodes so that each follows the nodes it points to, or finds a
/// node on a cycle.
fn order_indices(adj: &Vec<Vec<usize>>) -> (r: Result<Vec<usize>, usize>)
    requires
        graph_wf(adj@),
    ensures
        match r {
            Ok(order) => closed_order(adj@, order@) && forall|x: usize|
                x < adj.len() ==> order@.contains(x),
            Err(v) => exists|p: Seq<usize>| idx_cycle(adj@, p) && p[0] == v,
        },
{
    let mut state: Vec<u8> = Vec::new();
    let mut i: usize = 0;
    while i < adj.len()
        invariant
            i <= adj.len(),
            state@.len() == i,
            forall|x: int| 0 <= x < i ==> state@[x] == 0,
        decreases adj.len() - i,
    {
        state.push(0);
        i += 1;
    }
    let mut done: Vec<usize> = Vec::new();
    let mut u: usize = 0;
    while u < adj.len()
        invariant
            graph_wf(adj@),
            u <= adj.len(),
            state_wf(adj@, state@, Seq::empty(), done@),
            forall|x: int| 0 <= x < u ==> state@[x] == 2,
        decreases adj.len() - u,
    {
        if state[u] == 0 {
            match visit(adj, u, &mut state, &mut done, Ghost(Seq::empty())) {
                Ok(()) => {},
                Err(v) => {
                    return Err(v);
                },
            }
        } else {
            assert(!Seq::<usize>::empty().contains(u));
        }
        u += 1;
    }
    Ok(done)
}

/// The node names are distinct, the edge list is over valid indices, and the
/// two stand for the sets `names` and `edges`.
pub open spec fn graph_repr(
    nodes: Seq<String>,
    elist: Seq<(usize, usize)>,
    names: Set<Name>,
    edges: Set<(Name, Name)>,
) -> bool {
    &&& forall|i: int, j: int| 0 <= i < nodes.len() && 0 <= j < nodes.len() && i != j ==> nodes[i]@ != nodes[j]@
    &&& forall|k: int| 0 <= k < elist.len() ==> (#[trigger] elist[k]).0 < nodes.len() && elist[k].1 < nodes.len()
    &&& forall|a: Name| names.contains(a) <==> exists|i: int| 0 <= i < nodes.len() && #[trigger] nodes[i]@ == a
    &&& forall|x: Name, y: Name| #[trigger] edges.contains((x, y)) ==> names.contains(x) && names.contains(y)
    &&& forall|i: usize, j: usize| i < nodes.len() && j < nodes.len() ==> (elist.contains((i, j)) <==> edges.contains((nodes[i as int]@, nodes[j as int]@)))
}

fn intern(nodes: &mut Vec<String>, name: &String) -> (i: usize)
    requires
        forall|i: int, j: int| 0 <= i < old(nodes)@.len() && 0 <= j < old(nodes)@.len() && i != j ==> old(nodes)@[i]@ != old(nodes)@[j]@,
    ensures
        i < final(nodes)@.len(),
        final(nodes)@[i as int]@ == name@,
        final(nodes)@ == old(nodes)@ || final(nodes)@ == old(nodes)@.push(*name),
        forall|i: int, j: int| 0 <= i < final(nodes)@.len() && 0 <= j < final(nodes)@.len() && i != j ==> final(nodes)@[i]@ != final(nodes)@[j]@,
{
    let mut k: usize = 0;
    while k < nodes.len()
        invariant
            k <= nodes@.len(),
            nodes@ == old(nodes)@,
            forall|i: int, j: int| 0 <= i < nodes@.len() && 0 <= j < nodes@.len() && i != j ==> nodes@[i]@ != nodes@[j]@,
            forall|j: int| 0 <= j < k ==> nodes@[j]@ != name@,
        decreases nodes@.len() - k,
    {
        if nodes[k] == *name {
            return k;
        }
        k += 1;
    }
    nodes.push(name.clone());
    k
}

fn add_edge(
    nodes: &mut Vec<String>,
    elist: &mut Vec<(usize, usize)>,
    a: &String,
    b: &String,
    Ghost(names): Ghost<Set<Name>>,
    Ghost(edges): Ghost<Set<(Name, Name)>>,
)
    requires
        graph_repr(old(nodes)@, old(elist)@, names, edges),
    ensures
        graph_repr(final(nodes)@, final(elist)@, names.insert(a@).insert(b@), edges.insert((a@, b@))),
{
    let ghost n0 = nodes@;
    let ia = intern(nodes, a);
    let ghost n1 = nodes@;
    let ib = intern(nodes, b);
    let ghost e0 = elist@;
    elist.push((ia, ib));
    proof {
        let names2 = names.insert(a@).insert(b@);
        let edges2 = edges.insert((a@, b@));
        assert(nodes@[ia as int]@ == a@);
        assert forall|k: int| 0 <= k < n0.len() implies nodes@[k] == n0[k] by {
            assert(n1[k] == n0[k]);
        }
        assert forall|x: Name| names2.contains(x) <==> exists|i: int| 0 <= i < nodes@.len() && #[trigger] nodes@[i]@ == x by {
            if names.contains(x) {
                let i = choose|i: int| 0 <= i < n0.len() && #[trigger] n0[i]@ == x;
                assert(nodes@[i]@ == x);
            }
            if exists|i: int| 0 <= i < nodes@.len() && #[trigger] nodes@[i]@ == x {
                let i = choose|i: int| 0 <= i < nodes@.len() && #[trigger] nodes@[i]@ == x;
                if i < n0.len() {
                    assert(n0[i]@ == x);
                } else if i < n1.len() {
                    assert(n1[i]@ == a@);
                }
            }
        }
        assert forall|x: Name, y: Name| #[trigger] edges2.contains((x, y)) implies names2.contains(x) && names2.contains(y) by {
            if (x, y) != (a@, b@) {
                assert(edges.contains((x, y)));
            }
        }
        assert forall|i: usize, j: usize| i < nodes@.len() && j < nodes@.len() implies (elist@.contains((i, j)) <==> edges2.contains((nodes@[i as int]@, nodes@[j as int]@))) by {
            if elist@.contains((i, j)) {
                let k = choose|k: int| 0 <= k < elist@.len() && elist@[k] == (i, j);
                if k < e0.len() {
                    assert(e0[k] == (i, j));
                    assert(e0.contains((i, j)));
                    assert(i < n0.len() && j < n0.len());
                    assert(edges.contains((n0[i as int]@, n0[j as int]@)));
                    assert(nodes@[i as int] == n0[i as int] && nodes@[j as int] == n0[j as int]);
                } else {
                    assert(elist@[k] == (ia, ib));
                }
            }
            if edges2.contains((nodes@[i as int]@, nodes@[j as int]@)) {
                if (nodes@[i as int]@, nodes@[j as int]@) == (a@, b@) {
                    assert(i == ia && j == ib);
                    assert(elist@[e0.len() as int] == (i, j));
                } else {
                    let x = nodes@[i as int]@;
                    let y = nodes@[j as int]@;
                    assert(edges.contains((x, y)));
                    assert(names.contains(x) && names.contains(y));
                    let i0 = choose|i0: int| 0 <= i0 < n0.len() && #[trigger] n0[i0]@ == x;
                    let j0 = choose|j0: int| 0 <= j0 < n0.len() && #[trigger] n0[j0]@ == y;
                    assert(nodes@[i0] == n0[i0] && nodes@[j0] == n0[j0]);
                    assert(i0 == i && j0 == j);
                    assert(e0.contains((i, j)));
                    let k = choose|k: int| 0 <= k < e0.len() && e0[k] == (i, j);
                    assert(elist@[k] == (i, j));
                }
            }
        }
    }
}

fn add_node(
    nodes: &mut Vec<String>,
    elist: &Vec<(usize, usize)>,
    a: &String,
    Ghost(names): Ghost<Set<Name>>,
    Ghost(edges): Ghost<Set<(Name, Name)>>,
)
    requires
        graph_repr(old(nodes)@, elist@, names, edges),
    ensures
        graph_repr(final(nodes)@, elist@, names.insert(a@), edges),
{
    let ghost n0 = nodes@;
    let ia = intern(nodes, a);
    proof {
        assert forall|k: int| 0 <= k < n0.len() implies nodes@[k] == n0[k] by {}
        assert forall|x: Name| names.insert(a@).contains(x) <==> exists|i: int| 0 <= i < nodes@.len() && #[trigger] nodes@[i]@ == x by {
            if names.contains(x) {
                let i = choose|i: int| 0 <= i < n0.len() && #[trigger] n0[i]@ == x;
                assert(nodes@[i]@ == x);
            }
        }
        assert forall|i: usize, j: usize| i < nodes@.len() && j < nodes@.len() implies (elist@.contains((i, j)) <==> edges.contains((nodes@[i as int]@, nodes@[j as int]@))) by {
            if elist@.contains((i, j)) {
                let k = choose|k: int| 0 <= k < elist@.len() && elist@[k] == (i, j);
                assert(i < n0.len() && j < n0.len());
            }
            if edges.contains((nodes@[i as int]@, nodes@[j as int]@)) {
                let x = nodes@[i as int]@;
                let y = nodes@[j as int]@;
                let i0 = choose|i0: int| 0 <= i0 < n0.len() && #[trigger] n0[i0]@ == x;
                let j0 = choose|j0: int| 0 <= j0 < n0.len() && #[trigger] n0[j0]@ == y;
                assert(nodes@[i0] == n0[i0] && nodes@[j0] == n0[j0]);
                assert(i0 == i && j0 == j);
            }
        }
    }
}

/// Builds the dependency graph of the schema's records.
fn build_graph(schema: &Schema) -> (r: Result<(Vec<String>, Vec<(usize, usize)>), ProjectionError>)
    ensures
        match r {
            Ok((nodes, elist)) => graph_repr(nodes@, elist@, dependency_nodes(*schema), dependency_edges(*schema))
                && wrappers_projectable(*schema),
            Err(_) => !wrappers_projectable(*schema),
        },
{
    let ghost al = schema.aliases@;
    let mut nodes: Vec<String> = Vec::new();
    let mut elist: Vec<(usize, usize)> = Vec::new();
    let mut i: usize = 0;
    while i < schema.aliases.len()
        invariant
            al == schema.aliases@,
            i <= al.len(),
            graph_repr(nodes@, elist@, aliases_nodes(al, i as int), aliases_edges(al, i as int)),
            forall|a: int, k: int| 0 <= a < i && (#[trigger] al[a]) is Object && 0 <= k < al[a]->Object_0.props@.len()
                && (#[trigger] al[a]->Object_0.props@[k]).type_annotation is Nullable
                ==> rs_type(al[a]->Object_0.props@[k].type_annotation) is Ok,
        decreases al.len() - i,
    {
        if let TypeAnnotation::Object(o) = &schema.aliases[i] {
            let ghost n0 = aliases_nodes(al, i as int);
            let ghost e0 = aliases_edges(al, i as int);
            let ghost owner = o.name@;
            let ghost props = o.props@;
            add_node(&mut nodes, &elist, &o.name, Ghost(n0), Ghost(e0));
            proof {
                assert(n0.insert(owner) =~= n0.union(props_nodes(owner, props, 0)));
                assert(e0 =~= e0.union(props_edges(owner, props, 0)));
            }
            let mut k: usize = 0;
            while k < o.props.len()
                invariant
                    al == schema.aliases@,
                    i < al.len(),
                    al[i as int] == TypeAnnotation::Object(*o),
                    owner == o.name@,
                    props == o.props@,
                    n0 == aliases_nodes(al, i as int),
                    e0 == aliases_edges(al, i as int),
                    k <= props.len(),
                    graph_repr(nodes@, elist@, n0.union(props_nodes(owner, props, k as int)), e0.union(props_edges(owner, props, k as int))),
                    forall|a: int, k: int| 0 <= a < i && (#[trigger] al[a]) is Object && 0 <= k < al[a]->Object_0.props@.len()
                        && (#[trigger] al[a]->Object_0.props@[k]).type_annotation is Nullable
                        ==> rs_type(al[a]->Object_0.props@[k].type_annotation) is Ok,
                    forall|q: int| 0 <= q < k && (#[trigger] props[q]).type_annotation is Nullable
                        ==> rs_type(props[q].type_annotation) is Ok,
                decreases props.len() - k,
            {
                let t = &o.props[k].type_annotation;
                let ghost na = n0.union(props_nodes(owner, props, k as int));
                let ghost ea = e0.union(props_edges(owner, props, k as int));
                let ghost na2 = n0.union(props_nodes(owner, props, k as int + 1));
                let ghost ea2 = e0.union(props_edges(owner, props, k as int + 1));
                proof {
                    assert(props_nodes(owner, props, k as int).contains(owner)) by {
                        lemma_owner_in_props_nodes(owner, props, k as int);
                    }
                }
                match t {
                    TypeAnnotation::Object(d) => {
                        add_edge(&mut nodes, &mut elist, &o.name, &d.name, Ghost(na), Ghost(ea));
                        proof {
                            assert(na.insert(owner).insert(d.name@) =~= na2);
                            assert(ea.insert((owner, d.name@)) =~= ea2);
                        }
                    },
                    TypeAnnotation::Enum(d) => {
                        add_edge(&mut nodes, &mut elist, &o.name, &d.name, Ghost(na), Ghost(ea));
                        proof {
                            assert(na.insert(owner).insert(d.name@) =~= na2);
                            assert(ea.insert((owner, d.name@)) =~= ea2);
                        }
                    },
                    TypeAnnotation::Nullable(inner) => {
                        let w = match t.as_rs_type() {
                            Ok(w) => w.0,
                            Err(e) => {
                                proof {
                                    assert(schema.aliases@[i as int]->Object_0.props@[k as int].type_annotation is Nullable);
                                }
                                return Err(e);
                            },
                        };
                        add_edge(&mut nodes, &mut elist, &o.name, &w, Ghost(na), Ghost(ea));
                        let ghost nb = na.insert(owner).insert(w@);
                        let ghost eb = ea.insert((owner, w@));
                        match &**inner {
                            TypeAnnotation::Object(d) => {
                                add_edge(&mut nodes, &mut elist, &w, &d.name, Ghost(nb), Ghost(eb));
                                proof {
                                    assert(nb.insert(w@).insert(d.name@) =~= na2);
                                    assert(eb.insert((w@, d.name@)) =~= ea2);
                                }
                            },
                            TypeAnnotation::Enum(d) => {
                                add_edge(&mut nodes, &mut elist, &w, &d.name, Ghost(nb), Ghost(eb));
                                proof {
                                    assert(nb.insert(w@).insert(d.name@) =~= na2);
                                    assert(eb.insert((w@, d.name@)) =~= ea2);
                                }
                            },
                            _ => {
                                proof {
                                    assert(nb =~= na2);
                                    assert(eb =~= ea2);
                                }
                            },
                        }
                    },
                    _ => {
                        proof {
                            assert(na =~= na2);
                            assert(ea =~= ea2);
                        }
                    },
                }
                k += 1;
            }
            proof {
                assert forall|a: int, k: int| 0 <= a < i + 1 && (#[trigger] al[a]) is Object && 0 <= k < al[a]->Object_0.props@.len()
                    && (#[trigger] al[a]->Object_0.props@[k]).type_annotation is Nullable
                    implies rs_type(al[a]->Object_0.props@[k].type_annotation) is Ok by {
                    if a == i {
                        assert(al[a]->Object_0.props@[k] == props[k]);
                    }
                }
                assert(n0.union(props_nodes(owner, props, props.len() as int)) =~= aliases_nodes(al, i + 1));
                assert(e0.union(props_edges(owner, props, props.len() as int)) =~= aliases_edges(al, i + 1));
            }
        } else {
            proof {
                assert(aliases_nodes(al, i as int) =~= aliases_nodes(al, i + 1));
                assert(aliases_edges(al, i as int) =~= aliases_edges(al, i + 1));
            }
        }
        i += 1;
    }
    Ok((nodes, elist))
}

proof fn lemma_owner_in_props_nodes(owner: Name, props: Seq<Prop>, k: int)
    ensures
        props_nodes(owner, props, k).contains(owner),
    decreases k,
{
    if k > 0 {
        lemma_owner_in_props_nodes(owner, props, k - 1);
    }
}

fn adjacency(n: usize, elist: &Vec<(usize, usize)>) -> (adj: Vec<Vec<usize>>)
    requires
        forall|k: int| 0 <= k < elist@.len() ==> (#[trigger] elist@[k]).0 < n && elist@[k].1 < n,
    ensures
        adj@.len() == n,
        graph_wf(adj@),
        forall|i: usize, j: usize| i < n ==> (adj@[i as int]@.contains(j) <==> elist@.contains((i, j))),
{
    let mut adj: Vec<Vec<usize>> = Vec::new();
    let mut i: usize = 0;
    while i < n
        invariant
            i <= n,
            adj@.len() == i,
            forall|k: int| 0 <= k < elist@.len() ==> (#[trigger] elist@[k]).0 < n && elist@[k].1 < n,
            forall|a: int, k: int| 0 <= a < adj@.len() && 0 <= k < adj@[a]@.len() ==> (#[trigger] adj@[a]@[k]) < n,
            forall|a: usize, j: usize| a < i ==> (adj@[a as int]@.contains(j) <==> elist@.contains((a, j))),
        decreases n - i,
    {
        let mut row: Vec<usize> = Vec::new();
        let mut k: usize = 0;
        while k < elist.len()
            invariant
                k <= elist@.len(),
                i < n,
                forall|q: int| 0 <= q < elist@.len() ==> (#[trigger] elist@[q]).0 < n && elist@[q].1 < n,
                forall|q: int| 0 <= q < row@.len() ==> (#[trigger] row@[q]) < n,
                forall|j: usize| row@.contains(j) <==> exists|q: int| 0 <= q < k && #[trigger] elist@[q] == (i, j),
            decreases elist@.len() - k,
        {
            let (a, b) = elist[k];
            if a == i {
                let ghost r0 = row@;
                row.push(b);
                proof {
                    assert forall|j: usize| row@.contains(j) <==> exists|q: int| 0 <= q < k + 1 && #[trigger] elist@[q] == (i, j) by {
                        if j == b {
                            assert(elist@[k as int] == (i, j));
                            assert(row@[r0.len() as int] == b);
                        } else {
                            if row@.contains(j) {
                                let q = choose|q: int| 0 <= q < row@.len() && row@[q] == j;
                                assert(r0[q] == j);
                                assert(r0.contains(j));
                                let q2 = choose|q2: int| 0 <= q2 < k && #[trigger] elist@[q2] == (i, j);
                                assert(0 <= q2 < k + 1 && elist@[q2] == (i, j));
                            }
                            if exists|q: int| 0 <= q < k + 1 && #[trigger] elist@[q] == (i, j) {
                                let q = choose|q: int| 0 <= q < k + 1 && #[trigger] elist@[q] == (i, j);
                                assert(q < k);
                                assert(r0.contains(j));
                                let q2 = choose|q2: int| 0 <= q2 < r0.len() && r0[q2] == j;
                                assert(row@[q2] == j);
                            }
                        }
                    }
                }
            }
            k += 1;
        }
        adj.push(row);
        i += 1;
    }
    adj
}

/// A topological order over a graph whose edges join its nodes leaves no cycle.
pub proof fn lemma_order_excludes_cycle(
    nodes: Set<Name>,
    edges: Set<(Name, Name)>,
    order: Seq<Name>,
    p: Seq<Name>,
)
    requires
        is_topological_order(nodes, edges, order),
        forall|x: Name, y: Name| #[trigger] edges.contains((x, y)) ==> nodes.contains(x) && nodes.contains(y),
    ensures
        !is_cycle(edges, p),
{
    if is_cycle(edges, p) {
        assert forall|i: int| 0 <= i < p.len() - 1 implies index_of(order, p[i + 1]) < index_of(order, #[trigger] p[i]) by {
            assert(edges.contains((p[i], p[i + 1])));
            lemma_edge_goes_back(nodes, edges, order, p[i], p[i + 1]);
        }
        lemma_walk_decreases(p, order, p.len() - 1);
    }
}

proof fn lemma_edge_goes_back(nodes: Set<Name>, edges: Set<(Name, Name)>, order: Seq<Name>, a: Name, b: Name)
    requires
        is_topological_order(nodes, edges, order),
        forall|x: Name, y: Name| #[trigger] edges.contains((x, y)) ==> nodes.contains(x) && nodes.contains(y),
        edges.contains((a, b)),
    ensures
        index_of(order, b) < index_of(order, a),
{
    assert(nodes.contains(a) && nodes.contains(b));
    assert(order.contains(a) && order.contains(b));
    lemma_index_of(order, a);
    lemma_index_of(order, b);
    let ia = index_of(order, a);
    let ib = index_of(order, b);
    assert(edges.contains((order[ia], order[ib])));
}

pub open spec fn index_of(order: Seq<Name>, x: Name) -> int {
    choose|i: int| 0 <= i < order.len() && order[i] == x
}

proof fn lemma_index_of(order: Seq<Name>, x: Name)
    requires
        order.contains(x),
    ensures
        0 <= index_of(order, x) < order.len(),
        order[index_of(order, x)] == x,
{
}

proof fn lemma_walk_decreases(p: Seq<Name>, order: Seq<Name>, k: int)
    requires
        0 <= k < p.len(),
        forall|i: int| 0 <= i < p.len() - 1 ==> index_of(order, p[i + 1]) < index_of(order, #[trigger] p[i]),
    ensures
        k > 0 ==> index_of(order, p[k]) < index_of(order, p[0]),
    decreases k,
{
    if k > 1 {
        lemma_walk_decreases(p, order, k - 1);
        let _ = p[k - 1];
        assert(p[(k - 1) + 1] == p[k]);
    } else if k == 1 {
        let _ = p[0];
        assert(p[0int + 1] == p[1]);
    }
}

/// Orders the schema's records, their nullable field wrappers and the enums
/// they use so that every type comes after the types its declaration needs.
/// A dependency cycle is an error that names one type on it.
pub fn calc_deps_order(schema: &Schema) -> (r: Result<Vec<String>, OrderError>)
    ensures
        match r {
            Ok(order) => is_topological_order(
                dependency_nodes(*schema),
                dependency_edges(*schema),
                order@.map_values(|s: String| s@),
            ),
            Err(OrderError::Cycle(c)) => exists|p: Seq<Name>|
                is_cycle(dependency_edges(*schema), p) && p[0] == c@,
            Err(OrderError::Projection(_)) => !wrappers_projectable(*schema),
        },
        r is Ok <==> wrappers_projectable(*schema) && acyclic(dependency_edges(*schema)),
{
    let (nodes, elist) = match build_graph(schema) {
        Ok(g) => g,
        Err(e) => {
            return Err(OrderError::Projection(e));
        },
    };
    let ghost names = dependency_nodes(*schema);
    let ghost edges = dependency_edges(*schema);
    let adj = adjacency(nodes.len(), &elist);
    match order_indices(&adj) {
        Ok(idx) => {
            let mut out: Vec<String> = Vec::new();
            let mut k: usize = 0;
            while k < idx.len()
                invariant
                    k <= idx@.len(),
                    out@.len() == k,
                    adj@.len() == nodes@.len(),
                    closed_order(adj@, idx@),
                    forall|q: int| 0 <= q < k ==> (#[trigger] out@[q])@ == nodes@[idx@[q] as int]@,
                decreases idx@.len() - k,
            {
                out.push(nodes[idx[k]].clone());
                k += 1;
            }
            proof {
                let o = out@.map_values(|s: String| s@);
                assert forall|i: int, j: int| 0 <= i < o.len() && 0 <= j < o.len() && i != j implies o[i] != o[j] by {
                    assert(idx@[i] != idx@[j]);
                }
                assert forall|a: Name| names.contains(a) <==> o.contains(a) by {
                    if names.contains(a) {
                        let v = choose|v: int| 0 <= v < nodes@.len() && #[trigger] nodes@[v]@ == a;
                        assert(idx@.contains(v as usize));
                        let q = choose|q: int| 0 <= q < idx@.len() && idx@[q] == v as usize;
                        assert(o[q] == a);
                    }
                    if o.contains(a) {
                        let q = choose|q: int| 0 <= q < o.len() && o[q] == a;
                        assert(nodes@[idx@[q] as int]@ == a);
                    }
                }
                assert forall|i: int, j: int|
                    0 <= i < o.len() && 0 <= j < o.len() && edges.contains(
                        (#[trigger] o[i], #[trigger] o[j]),
                    ) implies j < i by {
                    let a = idx@[i];
                    let b = idx@[j];
                    assert(elist@.contains((a, b)));
                    assert(adj@[a as int]@.contains(b));
                    let j2 = choose|j2: int| 0 <= j2 < i && #[trigger] idx@[j2] == b;
                    assert(j2 == j);
                }
                assert(is_topological_order(names, edges, o));
                assert forall|p: Seq<Name>| !is_cycle(edges, p) by {
                    lemma_order_excludes_cycle(names, edges, o, p);
                }
            }
            Ok(out)
        },
        Err(v) => {
            proof {
                let p = choose|p: Seq<usize>| idx_cycle(adj@, p) && p[0] == v;
                let pn = p.map_values(|x: usize| nodes@[x as int]@);
                assert forall|i: int| 0 <= i < pn.len() - 1 implies edges.contains((#[trigger] pn[i], pn[i + 1])) by {
                    assert(adj@[p[i] as int]@.contains(p[i + 1]));
                    assert(elist@.contains((p[i], p[i + 1])));
                }
                assert(is_cycle(edges, pn));
                assert(!acyclic(edges));
            }
            Err(OrderError::Cycle(nodes[v].clone()))
        },
    }
}

/// A field of type `t` names the record `target`, directly or through one
/// level of nullable wrapping.
pub open spec fn refers_to(t: TypeAnnotation, target: Name) -> bool {
    match t {
        TypeAnnotation::Object(o) => o.name@ == target,
        TypeAnnotation::Nullable(inner) => match *inner {
            TypeAnnotation::Object(o) => o.name@ == target,
            _ => false,
        },
        _ => false,
    }
}

/// The walk of dependency edges that a field of `owner` of type `t` makes.
pub open spec fn field_walk(owner: Name, t: TypeAnnotation) -> Seq<Name> {
    match t {
        TypeAnnotation::Nullable(inner) => seq![owner, "Nullable"@ + (*inner)->Object_0.name@, (*inner)->Object_0.name@],
        _ => seq![owner, t->Object_0.name@],
    }
}

proof fn lemma_props_edges_mono(owner: Name, props: Seq<Prop>, k: int, m: int)
    requires
        0 <= k <= m,
    ensures
        props_edges(owner, props, k).subset_of(props_edges(owner, props, m)),
    decreases m - k,
{
    if k < m {
        lemma_props_edges_mono(owner, props, k, m - 1);
    }
}

proof fn lemma_aliases_edges_mono(al: Seq<TypeAnnotation>, i: int, m: int)
    requires
        0 <= i <= m,
    ensures
        aliases_edges(al, i).subset_of(aliases_edges(al, m)),
    decreases m - i,
{
    if i < m {
        lemma_aliases_edges_mono(al, i, m - 1);
    }
}

/// The edges of one field stand among the schema's dependency edges.
proof fn lemma_field_edges(schema: Schema, i: int, k: int)
    requires
        0 <= i < schema.aliases@.len(),
        schema.aliases@[i] is Object,
        0 <= k < schema.aliases@[i]->Object_0.props@.len(),
    ensures
        prop_edges(
            schema.aliases@[i]->Object_0.name@,
            schema.aliases@[i]->Object_0.props@[k].type_annotation,
        ).subset_of(dependency_edges(schema)),
{
    let al = schema.aliases@;
    let o = al[i]->Object_0;
    lemma_props_edges_mono(o.name@, o.props@, k + 1, o.props@.len() as int);
    lemma_aliases_edges_mono(al, i + 1, al.len() as int);
}

proof fn lemma_field_walk(schema: Schema, i: int, k: int, target: Name)
    requires
        0 <= i < schema.aliases@.len(),
        schema.aliases@[i] is Object,
        0 <= k < schema.aliases@[i]->Object_0.props@.len(),
        refers_to(schema.aliases@[i]->Object_0.props@[k].type_annotation, target),
    ensures
        ({
            let w = field_walk(
                schema.aliases@[i]->Object_0.name@,
                schema.aliases@[i]->Object_0.props@[k].type_annotation,
            );
            &&& w.len() >= 2
            &&& w[0] == schema.aliases@[i]->Object_0.name@
            &&& w[w.len() - 1] == target
            &&& forall|q: int| 0 <= q < w.len() - 1 ==> dependency_edges(schema).contains((#[trigger] w[q], w[q + 1]))
        }),
{
    lemma_field_edges(schema, i, k);
    let t = schema.aliases@[i]->Object_0.props@[k].type_annotation;
    let owner = schema.aliases@[i]->Object_0.name@;
    let w = field_walk(owner, t);
    if t is Nullable {
        assert(prop_edges(owner, t).contains((w[0], w[1])));
        assert(prop_edges(owner, t).contains((w[1], w[2])));
    } else {
        assert(prop_edges(owner, t).contains((w[0], w[1])));
    }
}

proof fn lemma_join_walks(edges: Set<(Name, Name)>, w1: Seq<Name>, w2: Seq<Name>)
    requires
        w1.len() >= 2,
        w2.len() >= 2,
        w1[w1.len() - 1] == w2[0],
        w2[w2.len() - 1] == w1[0],
        forall|q: int| 0 <= q < w1.len() - 1 ==> edges.contains((#[trigger] w1[q], w1[q + 1])),
        forall|q: int| 0 <= q < w2.len() - 1 ==> edges.contains((#[trigger] w2[q], w2[q + 1])),
    ensures
        is_cycle(edges, w1 + w2.subrange(1, w2.len() as int)),
{
    let p = w1 + w2.subrange(1, w2.len() as int);
    assert forall|q: int| 0 <= q < p.len() - 1 implies edges.contains((#[trigger] p[q], p[q + 1])) by {
        if q < w1.len() - 1 {
            assert(p[q] == w1[q] && p[q + 1] == w1[q + 1]);
        } else if q == w1.len() - 1 {
            assert(p[q] == w2[0] && p[q + 1] == w2[1]);
        } else {
            let r = q - w1.len() + 1;
            assert(p[q] == w2[r] && p[q + 1] == w2[r + 1]);
        }
    }
}

/// Two records whose fields name each other, directly or through one level of
/// nullable wrapping, form a dependency cycle; so the orderer rejects them.
pub proof fn lemma_mutual_references_are_cyclic(schema: Schema, i: int, k: int, j: int, l: int)
    requires
        0 <= i < schema.aliases@.len(),
        0 <= j < schema.aliases@.len(),
        schema.aliases@[i] is Object,
        schema.aliases@[j] is Object,
        0 <= k < schema.aliases@[i]->Object_0.props@.len(),
        0 <= l < schema.aliases@[j]->Object_0.props@.len(),
        refers_to(schema.aliases@[i]->Object_0.props@[k].type_annotation, schema.aliases@[j]->Object_0.name@),
        refers_to(schema.aliases@[j]->Object_0.props@[l].type_annotation, schema.aliases@[i]->Object_0.name@),
    ensures
        !acyclic(dependency_edges(schema)),
{
    let a = schema.aliases@[i]->Object_0;
    let b = schema.aliases@[j]->Object_0;
    lemma_field_walk(schema, i, k, b.name@);
    lemma_field_walk(schema, j, l, a.name@);
    let w1 = field_walk(a.name@, a.props@[k].type_annotation);
    let w2 = field_walk(b.name@, b.props@[l].type_annotation);
    lemma_join_walks(dependency_edges(schema), w1, w2);
}

} // verus!
