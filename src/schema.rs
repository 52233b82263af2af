use vstd::prelude::*;

use crate::analyzer::{DeclView, decl_view, decls_view, lookup};
use crate::types::{
    EnumMember, EnumMemberValue, EnumTypeAnnotation, ObjectTypeAnnotation, Prop, TypeAnnotation,
    promise_free, resolved, return_shape,
};

verus! {

/// Why no schema could be built from an analyzed unit.
#[derive(Debug, PartialEq, Eq)]
pub enum SchemaError {
    /// A specification that no registry call binds to a module name.
    ModuleNameNotFound(String),
    /// A reference to a name that no declaration of the unit binds.
    Unresolved(String),
    /// A reference that leads back to itself.
    CyclicReference(String),
    /// A promise anywhere but as the outermost return type of a method.
    PromisePosition,
}

/// `t` resolves within `fuel` nested references: every reference is bound
/// to a declaration of the unit, and so is every reference within those.
pub open spec fn resolvable(t: TypeAnnotation, decls: Seq<(u32, DeclView)>, fuel: nat) -> bool
    decreases fuel, t,
{
    match t {
        TypeAnnotation::Ref(rf) => fuel > 0 && rf.symbol is Some && lookup(decls, rf.symbol->0) is Some
            && match lookup(decls, rf.symbol->0)->0 {
            DeclView::Record(_, ps) => forall|i: int|
                0 <= i < ps.len() ==> resolvable(#[trigger] ps[i].type_annotation, decls, (fuel - 1) as nat),
            DeclView::Enumeration(_, _) => true,
            DeclView::Other(d) => resolvable(d, decls, (fuel - 1) as nat),
        },
        TypeAnnotation::Object(o) => forall|i: int|
            0 <= i < o.props@.len() ==> resolvable(#[trigger] o.props@[i].type_annotation, decls, fuel),
        TypeAnnotation::Array(e) => resolvable(*e, decls, fuel),
        TypeAnnotation::Promise(_) => false,
        TypeAnnotation::Nullable(e) => resolvable(*e, decls, fuel),
        _ => true,
    }
}

/// `r` is `t` with every reference replaced, through at most `fuel` nested
/// references, by the resolution of the latest declaration of its symbol;
/// a nullable of a nullable collapses to one level.
pub open spec fn resolves_to(t: TypeAnnotation, r: TypeAnnotation, decls: Seq<(u32, DeclView)>, fuel: nat) -> bool
    decreases fuel, t,
{
    match t {
        TypeAnnotation::Ref(rf) => fuel > 0 && rf.symbol is Some && lookup(decls, rf.symbol->0) is Some
            && match lookup(decls, rf.symbol->0)->0 {
            DeclView::Record(n, ps) => r is Object && r->Object_0.name == n && r->Object_0.props@.len() == ps.len()
                && forall|i: int| 0 <= i < ps.len() ==> (#[trigger] r->Object_0.props@[i]).name == ps[i].name
                && resolves_to(ps[i].type_annotation, r->Object_0.props@[i].type_annotation, decls, (fuel - 1) as nat),
            DeclView::Enumeration(n, ms) => r is Enum && r->Enum_0.name == n && r->Enum_0.members@ == ms,
            DeclView::Other(d) => resolves_to(d, r, decls, (fuel - 1) as nat),
        },
        TypeAnnotation::Object(o) => r is Object && r->Object_0.name == o.name
            && r->Object_0.props@.len() == o.props@.len() && forall|i: int|
            0 <= i < o.props@.len() ==> (#[trigger] r->Object_0.props@[i]).name == o.props@[i].name
                && resolves_to(o.props@[i].type_annotation, r->Object_0.props@[i].type_annotation, decls, fuel),
        TypeAnnotation::Enum(e) => r is Enum && r->Enum_0.name == e.name && r->Enum_0.members@ == e.members@,
        TypeAnnotation::Array(e) => r is Array && resolves_to(*e, *r->Array_0, decls, fuel),
        TypeAnnotation::Promise(e) => r is Promise && resolves_to(*e, *r->Promise_0, decls, fuel),
        TypeAnnotation::Nullable(e) => r is Nullable && (
            (resolves_to(*e, *r->Nullable_0, decls, fuel) && !(*r->Nullable_0 is Nullable))
            || resolves_to(*e, r, decls, fuel)),
        _ => r == t,
    }
}

proof fn lemma_lookup_view(d: Seq<(u32, TypeAnnotation)>, sym: u32)
    ensures
        lookup(decls_view(d), sym) == match lookup(d, sym) {
            Some(t) => Some(decl_view(t)),
            None => None::<DeclView>,
        },
    decreases d.len(),
{
    if d.len() > 0 {
        assert(decls_view(d).drop_last() =~= decls_view(d.drop_last()));
        lemma_lookup_view(d.drop_last(), sym);
    }
}

/// The index of the latest declaration of `sym`.
fn find_decl(decls: &Vec<(u32, TypeAnnotation)>, sym: u32) -> (r: Option<usize>)
    ensures
        match r {
            Some(i) => i < decls@.len() && lookup(decls@, sym) == Some(decls@[i as int].1),
            None => lookup(decls@, sym) is None,
        },
{
    let mut k: usize = decls.len();
    assert(decls@.subrange(0, k as int) =~= decls@);
    while k > 0
        invariant
            k <= decls@.len(),
            lookup(decls@, sym) == lookup(decls@.subrange(0, k as int), sym),
        decreases k,
    {
        let ghost s = decls@.subrange(0, k as int);
        assert(s.drop_last() =~= decls@.subrange(0, k - 1));
        if decls[k - 1].0 == sym {
            return Some(k - 1);
        }
        k -= 1;
    }
    None
}

fn copy_enum(e: &EnumTypeAnnotation) -> (r: EnumTypeAnnotation)
    ensures
        r.name == e.name,
        r.members@ == e.members@,
{
    let mut members: Vec<EnumMember> = Vec::new();
    let mut k: usize = 0;
    while k < e.members.len()
        invariant
            k <= e.members@.len(),
            members@ == e.members@.subrange(0, k as int),
        decreases e.members@.len() - k,
    {
        let m = &e.members[k];
        let value = match &m.value {
            EnumMemberValue::String(s) => EnumMemberValue::String(s.clone()),
            EnumMemberValue::Number(n) => EnumMemberValue::Number(*n),
        };
        members.push(EnumMember { name: m.name.clone(), value });
        proof {
            assert(members@ =~= e.members@.subrange(0, k + 1));
        }
        k += 1;
    }
    proof {
        assert(members@ =~= e.members@);
    }
    EnumTypeAnnotation { name: e.name.clone(), members }
}

/// Replaces every reference in `t` by the declaration it names, resolved in
/// turn; a chain of more than `fuel` nested references is taken for a cycle.
/// A nullable of a nullable collapses to one level.
pub fn resolve_refs(t: &TypeAnnotation, decls: &Vec<(u32, TypeAnnotation)>, fuel: usize) -> (r: Result<TypeAnnotation, SchemaError>)
    ensures
        r is Ok <==> resolvable(*t, decls_view(decls@), fuel as nat),
        match r {
            Ok(x) => resolved(x) && promise_free(x) && resolves_to(*t, x, decls_view(decls@), fuel as nat),
            Err(_) => true,
        },
    decreases fuel, t,
{
    match t {
        TypeAnnotation::Ref(rf) => {
            let sym = match rf.symbol {
                Some(s) => s,
                None => {
                    return Err(SchemaError::Unresolved(rf.name.clone()));
                },
            };
            proof {
                lemma_lookup_view(decls@, sym);
            }
            match find_decl(decls, sym) {
                Some(i) => {
                    if fuel == 0 {
                        return Err(SchemaError::CyclicReference(rf.name.clone()));
                    }
                    let r = resolve_refs(&decls[i].1, decls, fuel - 1);
                    proof {
                        let d = decls@[i as int].1;
                        assert(lookup(decls_view(decls@), sym) == Some(decl_view(d)));
                        if d is Object {
                            assert(decl_view(d) == DeclView::Record(d->Object_0.name, d->Object_0.props@));
                        } else if d is Enum {
                            assert(decl_view(d) == DeclView::Enumeration(d->Enum_0.name, d->Enum_0.members@));
                        } else {
                            assert(decl_view(d) == DeclView::Other(d));
                        }
                    }
                    r
                },
                None => Err(SchemaError::Unresolved(rf.name.clone())),
            }
        },
        TypeAnnotation::Object(o) => {
            let mut props: Vec<Prop> = Vec::new();
            let mut k: usize = 0;
            while k < o.props.len()
                invariant
                    k <= o.props@.len(),
                    *t == TypeAnnotation::Object(*o),
                    props@.len() == k,
                    forall|j: int| 0 <= j < k ==> (#[trigger] props@[j]).name == o.props@[j].name
                        && resolved(props@[j].type_annotation)
                        && promise_free(props@[j].type_annotation)
                        && resolvable(o.props@[j].type_annotation, decls_view(decls@), fuel as nat)
                        && resolves_to(o.props@[j].type_annotation, props@[j].type_annotation, decls_view(decls@), fuel as nat),
                decreases o.props@.len() - k,
            {
                proof {
                    assert((*t)->Object_0 == *o);
                    assert(decreases_to!(*t => (*t)->Object_0));
                    assert(decreases_to!(*o => o.props));
                    assert(decreases_to!(o.props => o.props@));
                    assert(decreases_to!(o.props@ => o.props@[k as int]));
                    assert(decreases_to!(o.props@[k as int] => o.props@[k as int].type_annotation));
                    assert(decreases_to!(*t => o.props@[k as int].type_annotation));
                }
                let x = match resolve_refs(&o.props[k].type_annotation, decls, fuel) {
                    Ok(x) => x,
                    Err(e) => {
                        proof {
                            assert(!resolvable(o.props@[k as int].type_annotation, decls_view(decls@), fuel as nat));
                        }
                        return Err(e);
                    },
                };
                props.push(Prop { name: o.props[k].name.clone(), type_annotation: x });
                k += 1;
            }
            proof {
                assert forall|i: int| 0 <= i < o.props@.len() implies resolvable(
                    #[trigger] o.props@[i].type_annotation,
                    decls_view(decls@),
                    fuel as nat,
                ) by {
                    let _ = props@[i];
                }
            }
            Ok(TypeAnnotation::Object(ObjectTypeAnnotation { name: o.name.clone(), props }))
        },
        TypeAnnotation::Enum(e) => Ok(TypeAnnotation::Enum(copy_enum(e))),
        TypeAnnotation::Array(e) => {
            let x = resolve_refs(e, decls, fuel)?;
            Ok(TypeAnnotation::Array(Box::new(x)))
        },
        TypeAnnotation::Promise(_) => Err(SchemaError::PromisePosition),
        TypeAnnotation::Nullable(e) => {
            let x = resolve_refs(e, decls, fuel)?;
            if let TypeAnnotation::Nullable(_) = &x {
                Ok(x)
            } else {
                Ok(TypeAnnotation::Nullable(Box::new(x)))
            }
        },
        TypeAnnotation::Void => Ok(TypeAnnotation::Void),
        TypeAnnotation::Boolean => Ok(TypeAnnotation::Boolean),
        TypeAnnotation::Number => Ok(TypeAnnotation::Number),
        TypeAnnotation::String => Ok(TypeAnnotation::String),
        TypeAnnotation::ArrayBuffer => Ok(TypeAnnotation::ArrayBuffer),
    }
}

/// A method's return type resolves: a promise of a resolvable type, or a
/// resolvable type.
pub open spec fn ret_resolvable(t: TypeAnnotation, decls: Seq<(u32, DeclView)>, fuel: nat) -> bool {
    match t {
        TypeAnnotation::Promise(e) => resolvable(*e, decls, fuel),
        _ => resolvable(t, decls, fuel),
    }
}

/// Resolves the return type of a method, where a promise may stand outermost.
pub fn resolve_return(t: &TypeAnnotation, decls: &Vec<(u32, TypeAnnotation)>, fuel: usize) -> (r: Result<TypeAnnotation, SchemaError>)
    ensures
        r is Ok <==> ret_resolvable(*t, decls_view(decls@), fuel as nat),
        match r {
            Ok(x) => resolved(x) && return_shape(x) && resolves_to(*t, x, decls_view(decls@), fuel as nat),
            Err(_) => true,
        },
{
    match t {
        TypeAnnotation::Promise(e) => {
            let x = resolve_refs(e, decls, fuel)?;
            Ok(TypeAnnotation::Promise(Box::new(x)))
        },
        _ => resolve_refs(t, decls, fuel),
    }
}

} // verus!
