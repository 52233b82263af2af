use vstd::prelude::*;
use vstd::string::{StrSliceExecFns, StringExecFns};

use crate::types::{EnumMemberValue, EnumTypeAnnotation, Method, ObjectTypeAnnotation, Schema, Signal, TypeAnnotation};

verus! {

pub open spec fn digit_char(d: nat) -> char {
    if d == 0 { '0' } else if d == 1 { '1' } else if d == 2 { '2' } else if d == 3 { '3' } else if d == 4 { '4' }
    else if d == 5 { '5' } else if d == 6 { '6' } else if d == 7 { '7' } else if d == 8 { '8' } else { '9' }
}

/// The decimal digits of `n`.
pub open spec fn decimal(n: nat) -> Seq<char>
    decreases n,
{
    if n < 10 {
        seq![digit_char(n)]
    } else {
        decimal(n / 10).push(digit_char(n % 10))
    }
}

/// Relies on String::push: the character is appended.
#[verifier::external_body]
pub(crate) fn push_char(s: &mut String, c: char)
    ensures
        final(s)@ == old(s)@.push(c),
{
    s.push(c)
}

fn digit(d: usize) -> (c: char)
    requires
        d < 10,
    ensures
        c == digit_char(d as nat),
{
    if d == 0 { '0' } else if d == 1 { '1' } else if d == 2 { '2' } else if d == 3 { '3' } else if d == 4 { '4' }
    else if d == 5 { '5' } else if d == 6 { '6' } else if d == 7 { '7' } else if d == 8 { '8' } else { '9' }
}

/// Writes `n` in decimal.
pub fn decimal_text(n: usize) -> (r: String)
    ensures
        r@ == decimal(n as nat),
    decreases n,
{
    if n < 10 {
        let mut s = String::new();
        push_char(&mut s, digit(n));
        proof {
            assert(s@ =~= seq![digit_char(n as nat)]);
        }
        s
    } else {
        let mut s = decimal_text(n / 10);
        push_char(&mut s, digit(n % 10));
        s
    }
}

pub open spec fn member_value_text(v: EnumMemberValue) -> Seq<char> {
    match v {
        EnumMemberValue::String(s) => "'"@ + s@ + "'"@,
        EnumMemberValue::Number(n) => decimal(n as nat),
    }
}

pub open spec fn enum_members_text(e: EnumTypeAnnotation, n: int) -> Seq<char>
    decreases n,
{
    if n <= 0 {
        Seq::empty()
    } else {
        enum_members_text(e, n - 1) + e.members@[n - 1].name@ + "="@ + member_value_text(e.members@[n - 1].value) + ";"@
    }
}

/// A canonical text of a type: equal types give equal texts, and the text
/// names every part of the type's shape.
pub open spec fn type_text(t: TypeAnnotation) -> Seq<char>
    decreases t, 0int,
{
    match t {
        TypeAnnotation::Void => "void"@,
        TypeAnnotation::Boolean => "boolean"@,
        TypeAnnotation::Number => "number"@,
        TypeAnnotation::String => "string"@,
        TypeAnnotation::ArrayBuffer => "arraybuffer"@,
        TypeAnnotation::Array(e) => "array<"@ + type_text(*e) + ">"@,
        TypeAnnotation::Promise(e) => "promise<"@ + type_text(*e) + ">"@,
        TypeAnnotation::Nullable(e) => "nullable<"@ + type_text(*e) + ">"@,
        TypeAnnotation::Object(o) => "object "@ + o.name@ + "{"@ + props_text(o, o.props@.len() as int) + "}"@,
        TypeAnnotation::Enum(e) => "enum "@ + e.name@ + "{"@ + enum_members_text(e, e.members@.len() as int) + "}"@,
        TypeAnnotation::Ref(r) => "ref "@ + r.name@,
    }
}

pub open spec fn props_text(o: ObjectTypeAnnotation, n: int) -> Seq<char>
    decreases o, n,
{
    if n <= 0 || n > o.props@.len() {
        Seq::empty()
    } else {
        props_text(o, n - 1) + o.props@[n - 1].name@ + ":"@ + type_text(o.props@[n - 1].type_annotation) + ";"@
    }
}

fn append_text(s: &mut String, lit: &str)
    ensures
        final(s)@ == old(s)@ + lit@,
{
    s.append(lit);
}

fn enum_text(e: &EnumTypeAnnotation) -> (r: String)
    ensures
        r@ == "enum "@ + e.name@ + "{"@ + enum_members_text(*e, e.members@.len() as int) + "}"@,
{
    let mut s = String::from_str("enum ");
    s.append(e.name.as_str());
    s.append("{");
    let ghost head = s@;
    let mut k: usize = 0;
    while k < e.members.len()
        invariant
            k <= e.members@.len(),
            s@ == head + enum_members_text(*e, k as int),
        decreases e.members@.len() - k,
    {
        let m = &e.members[k];
        s.append(m.name.as_str());
        s.append("=");
        match &m.value {
            EnumMemberValue::String(v) => {
                s.append("'");
                s.append(v.as_str());
                s.append("'");
            },
            EnumMemberValue::Number(n) => {
                let d = decimal_text(*n);
                s.append(d.as_str());
            },
        }
        s.append(";");
        proof {
            assert(s@ =~= head + enum_members_text(*e, k as int + 1));
        }
        k += 1;
    }
    s.append("}");
    proof {
        assert(s@ =~= "enum "@ + e.name@ + "{"@ + enum_members_text(*e, e.members@.len() as int) + "}"@);
    }
    s
}

/// Writes the canonical text of a type.
pub fn to_type_text(t: &TypeAnnotation) -> (r: String)
    ensures
        r@ == type_text(*t),
    decreases t,
{
    match t {
        TypeAnnotation::Void => String::from_str("void"),
        TypeAnnotation::Boolean => String::from_str("boolean"),
        TypeAnnotation::Number => String::from_str("number"),
        TypeAnnotation::String => String::from_str("string"),
        TypeAnnotation::ArrayBuffer => String::from_str("arraybuffer"),
        TypeAnnotation::Array(e) => String::from_str("array<").concat(to_type_text(e).as_str()).concat(">"),
        TypeAnnotation::Promise(e) => String::from_str("promise<").concat(to_type_text(e).as_str()).concat(">"),
        TypeAnnotation::Nullable(e) => String::from_str("nullable<").concat(to_type_text(e).as_str()).concat(">"),
        TypeAnnotation::Ref(r) => String::from_str("ref ").concat(r.name.as_str()),
        TypeAnnotation::Enum(e) => enum_text(e),
        TypeAnnotation::Object(o) => {
            let mut s = String::from_str("object ");
            s.append(o.name.as_str());
            s.append("{");
            let ghost head = s@;
            let mut k: usize = 0;
            while k < o.props.len()
                invariant
                    k <= o.props@.len(),
                    *t == TypeAnnotation::Object(*o),
                    s@ == head + props_text(*o, k as int),
                decreases o.props@.len() - k,
            {
                proof {
                    assert((*t)->Object_0 == *o);
                    assert(decreases_to!(*t => (*t)->Object_0));
                    assert(decreases_to!(*o => o.props));
                    assert(decreases_to!(o.props => o.props@));
                    assert(decreases_to!(o.props@ => o.props@[k as int]));
                    assert(decreases_to!(o.props@[k as int] => o.props@[k as int].type_annotation));
                }
                let p = &o.props[k];
                s.append(p.name.as_str());
                s.append(":");
                let inner = to_type_text(&p.type_annotation);
                s.append(inner.as_str());
                s.append(";");
                proof {
                    assert(s@ =~= head + props_text(*o, k as int + 1));
                }
                k += 1;
            }
            s.append("}");
            proof {
                assert(s@ =~= "object "@ + o.name@ + "{"@ + props_text(*o, o.props@.len() as int) + "}"@);
            }
            s
        },
    }
}

pub open spec fn params_text(m: Method, n: int) -> Seq<char>
    decreases n,
{
    if n <= 0 || n > m.params@.len() {
        Seq::empty()
    } else {
        params_text(m, n - 1) + m.params@[n - 1].name@ + ":"@ + type_text(m.params@[n - 1].type_annotation) + ","@
    }
}

pub open spec fn method_text(m: Method) -> Seq<char> {
    "method "@ + m.name@ + "("@ + params_text(m, m.params@.len() as int) + ")"@ + type_text(m.ret_type) + "\n"@
}

pub open spec fn signal_text(s: Signal) -> Seq<char> {
    "signal "@ + s.name@ + ":"@ + match s.payload_type {
        Some(t) => type_text(t),
        None => "none"@,
    } + "\n"@
}

pub open spec fn methods_text(ms: Seq<Method>, n: int) -> Seq<char>
    decreases n,
{
    if n <= 0 { Seq::empty() } else { methods_text(ms, n - 1) + method_text(ms[n - 1]) }
}

pub open spec fn signals_text(ss: Seq<Signal>, n: int) -> Seq<char>
    decreases n,
{
    if n <= 0 { Seq::empty() } else { signals_text(ss, n - 1) + signal_text(ss[n - 1]) }
}

pub open spec fn types_text(ts: Seq<TypeAnnotation>, n: int) -> Seq<char>
    decreases n,
{
    if n <= 0 { Seq::empty() } else { types_text(ts, n - 1) + "type "@ + type_text(ts[n - 1]) + "\n"@ }
}

/// The canonical text of a schema: every method, signal and type, in the
/// schema's order. Formatting of the source plays no part in it.
pub open spec fn schema_text(s: Schema) -> Seq<char> {
    "module "@ + s.module_name@ + "\n"@ + methods_text(s.methods@, s.methods@.len() as int)
        + signals_text(s.signals@, s.signals@.len() as int) + types_text(s.aliases@, s.aliases@.len() as int)
        + types_text(s.enums@, s.enums@.len() as int)
}

pub open spec fn schemas_text(ss: Seq<Schema>, n: int) -> Seq<char>
    decreases n,
{
    if n <= 0 { Seq::empty() } else { schemas_text(ss, n - 1) + schema_text(ss[n - 1]) }
}

pub const FNV_OFFSET: u64 = 0xcbf29ce484222325;

pub const FNV_PRIME: u64 = 0x100000001b3;

/// The 64-bit FNV-1a digest of the first `n` characters' code points.
pub open spec fn fnv(s: Seq<char>, n: int) -> u64
    decreases n,
{
    if n <= 0 {
        FNV_OFFSET
    } else {
        (fnv(s, n - 1) ^ (s[n - 1] as u32 as u64)).wrapping_mul(FNV_PRIME)
    }
}

pub open spec fn hex_char(d: nat) -> char {
    if d < 10 { digit_char(d) } else if d == 10 { 'a' } else if d == 11 { 'b' } else if d == 12 { 'c' }
    else if d == 13 { 'd' } else if d == 14 { 'e' } else { 'f' }
}

/// The lowest `n` hexadecimal digits of `h`, most significant first.
pub open spec fn hex_digits(h: nat, n: nat) -> Seq<char>
    decreases n,
{
    if n == 0 { Seq::empty() } else { hex_digits(h / 16, (n - 1) as nat).push(hex_char(h % 16)) }
}

fn hex_digit(d: u64) -> (c: char)
    requires
        d < 16,
    ensures
        c == hex_char(d as nat),
{
    if d < 10 { digit(d as usize) } else if d == 10 { 'a' } else if d == 11 { 'b' } else if d == 12 { 'c' }
    else if d == 13 { 'd' } else if d == 14 { 'e' } else { 'f' }
}

fn hex_text(h: u64, n: u64) -> (r: String)
    ensures
        r@ == hex_digits(h as nat, n as nat),
    decreases n,
{
    if n == 0 {
        String::new()
    } else {
        let mut s = hex_text(h / 16, n - 1);
        push_char(&mut s, hex_digit(h % 16));
        s
    }
}

fn append_method(s: &mut String, m: &Method)
    ensures
        final(s)@ == old(s)@ + method_text(*m),
{
    let ghost s0 = s@;
    append_text(s, "method ");
    s.append(m.name.as_str());
    append_text(s, "(");
    let ghost head = s@;
    let mut k: usize = 0;
    while k < m.params.len()
        invariant
            k <= m.params@.len(),
            s@ == head + params_text(*m, k as int),
        decreases m.params@.len() - k,
    {
        let p = &m.params[k];
        s.append(p.name.as_str());
        append_text(s, ":");
        let t = to_type_text(&p.type_annotation);
        s.append(t.as_str());
        append_text(s, ",");
        proof {
            assert(s@ =~= head + params_text(*m, k as int + 1));
        }
        k += 1;
    }
    append_text(s, ")");
    let t = to_type_text(&m.ret_type);
    s.append(t.as_str());
    append_text(s, "\n");
    proof {
        assert(s@ =~= s0 + method_text(*m));
    }
}

fn append_signal(s: &mut String, sig: &Signal)
    ensures
        final(s)@ == old(s)@ + signal_text(*sig),
{
    let ghost s0 = s@;
    append_text(s, "signal ");
    s.append(sig.name.as_str());
    append_text(s, ":");
    match &sig.payload_type {
        Some(t) => {
            let x = to_type_text(t);
            s.append(x.as_str());
        },
        None => append_text(s, "none"),
    }
    append_text(s, "\n");
    proof {
        assert(s@ =~= s0 + signal_text(*sig));
    }
}

fn append_types(s: &mut String, ts: &Vec<TypeAnnotation>)
    ensures
        final(s)@ == old(s)@ + types_text(ts@, ts@.len() as int),
{
    let ghost s0 = s@;
    let mut k: usize = 0;
    while k < ts.len()
        invariant
            k <= ts@.len(),
            s@ == s0 + types_text(ts@, k as int),
        decreases ts@.len() - k,
    {
        append_text(s, "type ");
        let x = to_type_text(&ts[k]);
        s.append(x.as_str());
        append_text(s, "\n");
        proof {
            assert(s@ =~= s0 + types_text(ts@, k as int + 1));
        }
        k += 1;
    }
}

/// Writes the canonical text of a schema.
pub fn to_schema_text(sc: &Schema) -> (r: String)
    ensures
        r@ == schema_text(*sc),
{
    let mut s = String::from_str("module ");
    s.append(sc.module_name.as_str());
    append_text(&mut s, "\n");
    let ghost h = s@;
    let mut k: usize = 0;
    while k < sc.methods.len()
        invariant
            k <= sc.methods@.len(),
            s@ == h + methods_text(sc.methods@, k as int),
        decreases sc.methods@.len() - k,
    {
        append_method(&mut s, &sc.methods[k]);
        proof {
            assert(s@ =~= h + methods_text(sc.methods@, k as int + 1));
        }
        k += 1;
    }
    let ghost h2 = s@;
    let mut k: usize = 0;
    while k < sc.signals.len()
        invariant
            k <= sc.signals@.len(),
            s@ == h2 + signals_text(sc.signals@, k as int),
        decreases sc.signals@.len() - k,
    {
        append_signal(&mut s, &sc.signals[k]);
        proof {
            assert(s@ =~= h2 + signals_text(sc.signals@, k as int + 1));
        }
        k += 1;
    }
    append_types(&mut s, &sc.aliases);
    append_types(&mut s, &sc.enums);
    proof {
        assert(s@ =~= schema_text(*sc));
    }
    s
}

/// The FNV-1a digest of a text's code points.
pub fn fnv_hash(s: &String) -> (r: u64)
    ensures
        r == fnv(s@, s@.len() as int),
{
    let n = s.as_str().unicode_len();
    let mut h: u64 = FNV_OFFSET;
    let mut i: usize = 0;
    while i < n
        invariant
            n == s@.len(),
            i <= n,
            h == fnv(s@, i as int),
        decreases n - i,
    {
        let c = s.as_str().get_char(i);
        h = (h ^ (c as u32 as u64)).wrapping_mul(FNV_PRIME);
        i += 1;
    }
    h
}

impl Schema {
    /// The content hash of a unit's schemas: sixteen hexadecimal digits of
    /// the digest of their canonical text.
    pub fn to_hash(schemas: &Vec<Schema>) -> (r: String)
        ensures
            ({
                let t = schemas_text(schemas@, schemas@.len() as int);
                r@ == hex_digits(fnv(t, t.len() as int) as nat, 16)
            }),
    {
        let mut s = String::new();
        let mut k: usize = 0;
        while k < schemas.len()
            invariant
                k <= schemas@.len(),
                s@ == schemas_text(schemas@, k as int),
            decreases schemas@.len() - k,
        {
            let x = to_schema_text(&schemas[k]);
            s.append(x.as_str());
            k += 1;
        }
        let h = fnv_hash(&s);
        hex_text(h, 16)
    }
}

/// The canonical texts of the records (`records`) or enums used in `t`,
/// through fields, nullables, arrays and promises.
pub open spec fn used_types(t: TypeAnnotation, records: bool) -> Set<Seq<char>>
    decreases t, 0int,
{
    match t {
        TypeAnnotation::Object(o) => (if records { set![type_text(t)] } else { Set::empty() }).union(
            props_used(o, records, o.props@.len() as int),
        ),
        TypeAnnotation::Enum(_) => if records { Set::empty() } else { set![type_text(t)] },
        TypeAnnotation::Array(e) => used_types(*e, records),
        TypeAnnotation::Promise(e) => used_types(*e, records),
        TypeAnnotation::Nullable(e) => used_types(*e, records),
        _ => Set::empty(),
    }
}

pub open spec fn props_used(o: ObjectTypeAnnotation, records: bool, n: int) -> Set<Seq<char>>
    decreases o, n,
{
    if n <= 0 || n > o.props@.len() {
        Set::empty()
    } else {
        props_used(o, records, n - 1).union(used_types(o.props@[n - 1].type_annotation, records))
    }
}

} // verus!
