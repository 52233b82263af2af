use vstd::prelude::*;
use vstd::string::{StrSliceExecFns, StringExecFns};

use crate::diagnostics::{Diagnostic, Violation};
use crate::syntax::{Key, MemberSyntax, ParamSyntax, Span, TsType};
use crate::types::{Method, Param, Prop, RefTypeAnnotation, Signal, TypeAnnotation};

verus! {

pub open spec fn diag(v: Violation, span: Span) -> Diagnostic {
    Diagnostic { violation: v, span }
}

/// A nullable of the converted base type; a promise cannot be nullable.
pub open spec fn nullable_of(r: Result<TypeAnnotation, Violation>) -> Result<TypeAnnotation, Violation> {
    match r {
        Ok(TypeAnnotation::Promise(_)) => Err(Violation::NullablePromise),
        Ok(x) => Ok(TypeAnnotation::Nullable(Box::new(x))),
        Err(v) => Err(v),
    }
}

/// The type a source type denotes, or the rule it breaks.
pub open spec fn type_of(t: TsType) -> Result<TypeAnnotation, Violation>
    decreases t,
{
    match t {
        TsType::Void => Ok(TypeAnnotation::Void),
        TsType::Boolean => Ok(TypeAnnotation::Boolean),
        TsType::Number => Ok(TypeAnnotation::Number),
        TsType::String => Ok(TypeAnnotation::String),
        TsType::Array(e) => match type_of(*e) {
            Ok(x) => Ok(TypeAnnotation::Array(Box::new(x))),
            Err(v) => Err(v),
        },
        TsType::Reference { name, symbol, args } => if name@ == "Promise"@ {
            Err(Violation::PromisePosition)
        } else if name@ == "ArrayBuffer"@ && symbol is None && args is None {
            Ok(TypeAnnotation::ArrayBuffer)
        } else {
            Ok(TypeAnnotation::Ref(RefTypeAnnotation { symbol, name }))
        },
        TsType::Qualified => Err(Violation::InvalidTypeReference),
        TsType::Union(arms) => if arms@.len() != 2 {
            Err(Violation::UnionType)
        } else if arms@[0] is Null {
            nullable_arm(arms@[1], type_of(arms@[1]))
        } else if arms@[1] is Null {
            nullable_arm(arms@[0], type_of(arms@[0]))
        } else {
            Err(Violation::UnionType)
        },
        TsType::Literal => Err(Violation::TypeLiteral),
        TsType::Function => Err(Violation::FunctionType),
        _ => Err(Violation::InvalidSpec),
    }
}

/// `t` is written as a reference to `Promise`.
pub open spec fn is_promise_ref(t: TsType) -> bool {
    t matches TsType::Reference { name, .. } && name@ == "Promise"@
}

/// The nullable of a union's non-null arm; a promise cannot be nullable.
pub open spec fn nullable_arm(arm: TsType, r: Result<TypeAnnotation, Violation>) -> Result<TypeAnnotation, Violation> {
    if is_promise_ref(arm) {
        Err(Violation::NullablePromise)
    } else {
        nullable_of(r)
    }
}

/// A two-armed union with a `null` arm becomes a nullable of the other arm.
pub open spec fn union_of(arms: Seq<TsType>) -> Result<TypeAnnotation, Violation> {
    if arms.len() != 2 {
        Err(Violation::UnionType)
    } else if arms[0] is Null {
        nullable_arm(arms[1], type_of(arms[1]))
    } else if arms[1] is Null {
        nullable_arm(arms[0], type_of(arms[0]))
    } else {
        Err(Violation::UnionType)
    }
}

/// The type of a method's return: `Promise<T>` is allowed here, as the
/// outermost type only.
pub open spec fn return_type_of(t: TsType) -> Result<TypeAnnotation, Violation> {
    match t {
        TsType::Reference { name, args, .. } => if name@ == "Promise"@ {
            if args is Some && args->0@.len() == 1 {
                match type_of(args->0@[0]) {
                    Ok(x) => Ok(TypeAnnotation::Promise(Box::new(x))),
                    Err(v) => Err(v),
                }
            } else {
                Err(Violation::InvalidPromise)
            }
        } else {
            type_of(t)
        },
        _ => type_of(t),
    }
}

pub open spec fn prop_of(key: Key, ty: Option<TsType>, span: Span) -> Result<Prop, Diagnostic> {
    match ty {
        None => Err(diag(Violation::InvalidSpec, span)),
        Some(t) => match key {
            Key::Static(n) => match type_of(t) {
                Ok(x) => Ok(Prop { name: n, type_annotation: x }),
                Err(v) => Err(diag(v, span)),
            },
            Key::Other => Err(diag(Violation::InvalidSpec, span)),
        },
    }
}

/// A member of a record declaration: a required property.
pub open spec fn record_member(m: MemberSyntax, outer: Span) -> Result<Prop, Diagnostic> {
    match m {
        MemberSyntax::Property { key, optional, type_annotation, span } => if optional {
            Err(diag(Violation::OptionalProperty, span))
        } else {
            prop_of(key, type_annotation, span)
        },
        _ => Err(diag(Violation::InvalidSpec, outer)),
    }
}

/// The fields of the first `n` members, or the first member's violation.
pub open spec fn record_members(ms: Seq<MemberSyntax>, outer: Span, n: int) -> Result<Seq<Prop>, Diagnostic>
    decreases n,
{
    if n <= 0 {
        Ok(Seq::empty())
    } else {
        match record_members(ms, outer, n - 1) {
            Ok(s) => match record_member(ms[n - 1], outer) {
                Ok(p) => Ok(s.push(p)),
                Err(d) => Err(d),
            },
            Err(d) => Err(d),
        }
    }
}

pub open spec fn param_of(p: ParamSyntax) -> Result<Param, Diagnostic> {
    if p.decorated {
        Err(diag(Violation::InvalidSpec, p.span))
    } else if p.optional {
        Err(diag(Violation::OptionalParameter, p.span))
    } else if p.name is None {
        Err(diag(Violation::InvalidSpec, p.span))
    } else if p.name->0@ == "it_"@ {
        Err(diag(Violation::ReservedArgName, p.span))
    } else if p.type_annotation is None {
        Err(diag(Violation::InvalidSpec, p.span))
    } else {
        match type_of(p.type_annotation->0) {
            Ok(x) => Ok(Param { name: p.name->0, type_annotation: x }),
            Err(v) => Err(diag(v, p.span)),
        }
    }
}

pub open spec fn params_of(ps: Seq<ParamSyntax>, n: int) -> Result<Seq<Param>, Diagnostic>
    decreases n,
{
    if n <= 0 {
        Ok(Seq::empty())
    } else {
        match params_of(ps, n - 1) {
            Ok(s) => match param_of(ps[n - 1]) {
                Ok(p) => Ok(s.push(p)),
                Err(d) => Err(d),
            },
            Err(d) => Err(d),
        }
    }
}

/// A method signature: name, parameters and return type, or its first violation.
pub open spec fn method_of(
    key: Key,
    computed: bool,
    optional: bool,
    params: Seq<ParamSyntax>,
    ret: Option<TsType>,
    span: Span,
) -> Result<(String, Seq<Param>, TypeAnnotation), Diagnostic> {
    if computed {
        Err(diag(Violation::ComputedSignature, span))
    } else if optional {
        Err(diag(Violation::OptionalSignature, span))
    } else {
        match key {
            Key::Other => Err(diag(Violation::InvalidSpec, span)),
            Key::Static(name) => if name@ == "emit"@ {
                Err(diag(Violation::ReservedMethodName, span))
            } else {
                match params_of(params, params.len() as int) {
                    Err(d) => Err(d),
                    Ok(ps) => match ret {
                        None => Err(diag(Violation::InvalidSpec, span)),
                        Some(t) => match return_type_of(t) {
                            Ok(x) => Ok((name, ps, x)),
                            Err(v) => Err(diag(v, span)),
                        },
                    },
                }
            },
        }
    }
}

/// A signal property: typed as the signal marker, with an optional payload type.
pub open spec fn signal_of(key: Key, ty: Option<TsType>, span: Span, marker: Option<u32>) -> Result<Signal, Diagnostic> {
    match ty {
        None => Err(diag(Violation::InvalidSpec, span)),
        Some(t) => match key {
            Key::Other => Err(diag(Violation::InvalidSpec, span)),
            Key::Static(name) => match t {
                TsType::Reference { symbol, args, .. } => if marker is Some && symbol == marker {
                    if args is Some && args->0@.len() > 0 {
                        match type_of(args->0@[0]) {
                            Ok(x) => Ok(Signal { name, payload_type: Some(x) }),
                            Err(v) => Err(diag(v, span)),
                        }
                    } else {
                        Ok(Signal { name, payload_type: None })
                    }
                } else {
                    Err(diag(Violation::InvalidSpec, span))
                },
                _ => Err(diag(Violation::InvalidSpec, span)),
            },
        },
    }
}

/// `s` holds exactly the characters of `lit`.
pub fn is_text(s: &String, lit: &str) -> (r: bool)
    ensures
        r == (s@ == lit@),
{
    *s == String::from_str(lit)
}

/// `s` begins with the characters of `prefix`.
pub fn has_prefix(s: &String, prefix: &str) -> (r: bool)
    ensures
        r == (prefix@.len() <= s@.len() && s@.subrange(0, prefix@.len() as int) == prefix@),
{
    let n = prefix.unicode_len();
    if n > s.as_str().unicode_len() {
        return false;
    }
    let mut i: usize = 0;
    while i < n
        invariant
            n == prefix@.len(),
            n <= s@.len(),
            i <= n,
            forall|j: int| 0 <= j < i ==> s@[j] == prefix@[j],
        decreases n - i,
    {
        if s.as_str().get_char(i) != prefix.get_char(i) {
            assert(s@.subrange(0, n as int)[i as int] != prefix@[i as int]);
            return false;
        }
        i += 1;
    }
    assert(s@.subrange(0, n as int) =~= prefix@);
    true
}

fn nullable_from(r: Result<TypeAnnotation, Violation>) -> (o: Result<TypeAnnotation, Violation>)
    ensures
        o == nullable_of(r),
{
    match r {
        Ok(TypeAnnotation::Promise(_)) => Err(Violation::NullablePromise),
        Ok(x) => Ok(TypeAnnotation::Nullable(Box::new(x))),
        Err(v) => Err(v),
    }
}

fn nullable_arm_from(arm: &TsType, r: Result<TypeAnnotation, Violation>) -> (o: Result<TypeAnnotation, Violation>)
    ensures
        o == nullable_arm(*arm, r),
{
    if let TsType::Reference { name, .. } = arm {
        if is_text(name, "Promise") {
            return Err(Violation::NullablePromise);
        }
    }
    nullable_from(r)
}

/// Converts the return type of a method: a promise, or any other type.
pub fn try_into_return_type(t: &TsType) -> (r: Result<TypeAnnotation, Violation>)
    ensures
        r == return_type_of(*t),
{
    if let TsType::Reference { name, args, .. } = t {
        if is_text(name, "Promise") {
            if let Some(a) = args {
                if a.len() == 1 {
                    let x = try_into_type_annotation(&a[0])?;
                    return Ok(TypeAnnotation::Promise(Box::new(x)));
                }
            }
            return Err(Violation::InvalidPromise);
        }
    }
    try_into_type_annotation(t)
}

/// Converts a source type into the type model.
pub fn try_into_type_annotation(t: &TsType) -> (r: Result<TypeAnnotation, Violation>)
    ensures
        r == type_of(*t),
    decreases t,
{
    match t {
        TsType::Void => Ok(TypeAnnotation::Void),
        TsType::Boolean => Ok(TypeAnnotation::Boolean),
        TsType::Number => Ok(TypeAnnotation::Number),
        TsType::String => Ok(TypeAnnotation::String),
        TsType::Array(e) => {
            let x = try_into_type_annotation(e)?;
            Ok(TypeAnnotation::Array(Box::new(x)))
        },
        TsType::Reference { name, symbol, args } => {
            if is_text(name, "Promise") {
                Err(Violation::PromisePosition)
            } else if is_text(name, "ArrayBuffer") && symbol.is_none() && args.is_none() {
                Ok(TypeAnnotation::ArrayBuffer)
            } else {
                Ok(TypeAnnotation::Ref(RefTypeAnnotation { symbol: *symbol, name: name.clone() }))
            }
        },
        TsType::Qualified => Err(Violation::InvalidTypeReference),
        TsType::Union(arms) => {
            if arms.len() != 2 {
                Err(Violation::UnionType)
            } else if let TsType::Null = &arms[0] {
                nullable_arm_from(&arms[1], try_into_type_annotation(&arms[1]))
            } else if let TsType::Null = &arms[1] {
                nullable_arm_from(&arms[0], try_into_type_annotation(&arms[0]))
            } else {
                Err(Violation::UnionType)
            }
        },
        TsType::Literal => Err(Violation::TypeLiteral),
        TsType::Function => Err(Violation::FunctionType),
        _ => Err(Violation::InvalidSpec),
    }
}

/// Converts a two-armed `T | null` union into a nullable `T`.
pub fn try_into_nullable(arms: &Vec<TsType>) -> (r: Result<TypeAnnotation, Violation>)
    ensures
        r == union_of(arms@),
{
    if arms.len() != 2 {
        Err(Violation::UnionType)
    } else if let TsType::Null = &arms[0] {
        nullable_arm_from(&arms[1], try_into_type_annotation(&arms[1]))
    } else if let TsType::Null = &arms[1] {
        nullable_arm_from(&arms[0], try_into_type_annotation(&arms[0]))
    } else {
        Err(Violation::UnionType)
    }
}

/// Converts a record field.
pub fn try_into_prop(key: &Key, ty: &Option<TsType>, span: Span) -> (r: Result<Prop, Diagnostic>)
    ensures
        r == prop_of(*key, *ty, span),
{
    match ty {
        None => Err(Diagnostic { violation: Violation::InvalidSpec, span }),
        Some(t) => match key {
            Key::Static(n) => match try_into_type_annotation(t) {
                Ok(x) => Ok(Prop { name: n.clone(), type_annotation: x }),
                Err(v) => Err(Diagnostic { violation: v, span }),
            },
            Key::Other => Err(Diagnostic { violation: Violation::InvalidSpec, span }),
        },
    }
}

/// Converts the members of a record declaration, stopping at the first violation.
pub fn try_into_props(members: &Vec<MemberSyntax>, outer: Span) -> (r: Result<Vec<Prop>, Diagnostic>)
    ensures
        match r {
            Ok(v) => record_members(members@, outer, members@.len() as int) == Ok::<Seq<Prop>, Diagnostic>(v@),
            Err(d) => record_members(members@, outer, members@.len() as int) == Err::<Seq<Prop>, Diagnostic>(d),
        },
{
    let mut props: Vec<Prop> = Vec::new();
    let mut k: usize = 0;
    while k < members.len()
        invariant
            k <= members@.len(),
            record_members(members@, outer, k as int) == Ok::<Seq<Prop>, Diagnostic>(props@),
        decreases members@.len() - k,
    {
        let p = match &members[k] {
            MemberSyntax::Property { key, optional, type_annotation, span } => {
                if *optional {
                    Err(Diagnostic { violation: Violation::OptionalProperty, span: *span })
                } else {
                    try_into_prop(key, type_annotation, *span)
                }
            },
            _ => Err(Diagnostic { violation: Violation::InvalidSpec, span: outer }),
        };
        match p {
            Ok(p) => props.push(p),
            Err(d) => {
                proof {
                    lemma_record_members_stop(members@, outer, k as int + 1, members@.len() as int);
                }
                return Err(d);
            },
        }
        k += 1;
    }
    Ok(props)
}

proof fn lemma_record_members_stop(ms: Seq<MemberSyntax>, outer: Span, k: int, n: int)
    requires
        1 <= k <= n,
        record_members(ms, outer, k) is Err,
    ensures
        record_members(ms, outer, n) == record_members(ms, outer, k),
    decreases n - k,
{
    if k < n {
        lemma_record_members_stop(ms, outer, k, n - 1);
    }
}

proof fn lemma_params_stop(ps: Seq<ParamSyntax>, k: int, n: int)
    requires
        1 <= k <= n,
        params_of(ps, k) is Err,
    ensures
        params_of(ps, n) == params_of(ps, k),
    decreases n - k,
{
    if k < n {
        lemma_params_stop(ps, k, n - 1);
    }
}

fn try_into_param(p: &ParamSyntax) -> (r: Result<Param, Diagnostic>)
    ensures
        r == param_of(*p),
{
    if p.decorated {
        return Err(Diagnostic { violation: Violation::InvalidSpec, span: p.span });
    }
    if p.optional {
        return Err(Diagnostic { violation: Violation::OptionalParameter, span: p.span });
    }
    let name = match &p.name {
        Some(n) => n,
        None => {
            return Err(Diagnostic { violation: Violation::InvalidSpec, span: p.span });
        },
    };
    if is_text(name, "it_") {
        return Err(Diagnostic { violation: Violation::ReservedArgName, span: p.span });
    }
    match &p.type_annotation {
        None => Err(Diagnostic { violation: Violation::InvalidSpec, span: p.span }),
        Some(t) => match try_into_type_annotation(t) {
            Ok(x) => Ok(Param { name: name.clone(), type_annotation: x }),
            Err(v) => Err(Diagnostic { violation: v, span: p.span }),
        },
    }
}

/// Converts a method signature of a specification.
pub fn try_into_method(
    key: &Key,
    computed: bool,
    optional: bool,
    params: &Vec<ParamSyntax>,
    ret: &Option<TsType>,
    span: Span,
) -> (r: Result<Method, Diagnostic>)
    ensures
        match r {
            Ok(m) => method_of(*key, computed, optional, params@, *ret, span) == Ok::<(String, Seq<Param>, TypeAnnotation), Diagnostic>((m.name, m.params@, m.ret_type)),
            Err(d) => method_of(*key, computed, optional, params@, *ret, span) == Err::<(String, Seq<Param>, TypeAnnotation), Diagnostic>(d),
        },
{
    if computed {
        return Err(Diagnostic { violation: Violation::ComputedSignature, span });
    }
    if optional {
        return Err(Diagnostic { violation: Violation::OptionalSignature, span });
    }
    let name = match key {
        Key::Static(n) => n,
        Key::Other => {
            return Err(Diagnostic { violation: Violation::InvalidSpec, span });
        },
    };
    if is_text(name, "emit") {
        return Err(Diagnostic { violation: Violation::ReservedMethodName, span });
    }
    let mut out: Vec<Param> = Vec::new();
    let mut k: usize = 0;
    while k < params.len()
        invariant
            k <= params@.len(),
            params_of(params@, k as int) == Ok::<Seq<Param>, Diagnostic>(out@),
            *key == Key::Static(*name),
            name@ != "emit"@,
            !computed,
            !optional,
        decreases params@.len() - k,
    {
        match try_into_param(&params[k]) {
            Ok(p) => out.push(p),
            Err(d) => {
                proof {
                    assert(params_of(params@, k as int + 1) == Err::<Seq<Param>, Diagnostic>(d));
                    lemma_params_stop(params@, k as int + 1, params@.len() as int);
                    assert(params_of(params@, params@.len() as int) == Err::<Seq<Param>, Diagnostic>(d));
                }
                return Err(d);
            },
        }
        k += 1;
    }
    match ret {
        None => Err(Diagnostic { violation: Violation::InvalidSpec, span }),
        Some(t) => match try_into_return_type(t) {
            Ok(x) => Ok(Method { name: name.clone(), params: out, ret_type: x }),
            Err(v) => Err(Diagnostic { violation: v, span }),
        },
    }
}

/// Converts a signal property, given the symbol of the signal marker type.
pub fn try_into_signal(key: &Key, ty: &Option<TsType>, span: Span, marker: Option<u32>) -> (r: Result<Signal, Diagnostic>)
    ensures
        r == signal_of(*key, *ty, span, marker),
{
    let t = match ty {
        None => {
            return Err(Diagnostic { violation: Violation::InvalidSpec, span });
        },
        Some(t) => t,
    };
    let name = match key {
        Key::Other => {
            return Err(Diagnostic { violation: Violation::InvalidSpec, span });
        },
        Key::Static(n) => n,
    };
    match t {
        TsType::Reference { symbol, args, .. } => {
            if marker.is_some() && *symbol == marker {
                match args {
                    Some(a) => {
                        if a.len() > 0 {
                            return match try_into_type_annotation(&a[0]) {
                                Ok(x) => Ok(Signal { name: name.clone(), payload_type: Some(x) }),
                                Err(v) => Err(Diagnostic { violation: v, span }),
                            };
                        }
                    },
                    None => {},
                }
                Ok(Signal { name: name.clone(), payload_type: None })
            } else {
                Err(Diagnostic { violation: Violation::InvalidSpec, span })
            }
        },
        _ => Err(Diagnostic { violation: Violation::InvalidSpec, span }),
    }
}

} // verus!
