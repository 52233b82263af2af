use vstd::prelude::*;
use vstd::string::{StrSliceExecFns, StringExecFns};

use crate::text::push_char;

verus! {

/// The characters with the Unicode `White_Space` property.
pub open spec fn is_ws(c: char) -> bool {
    c == '\t' || c == '\n' || c == '\u{0B}' || c == '\u{0C}' || c == '\r' || c == ' ' || c == '\u{85}'
        || c == '\u{A0}' || c == '\u{1680}' || ('\u{2000}' <= c && c <= '\u{200A}') || c == '\u{2028}'
        || c == '\u{2029}' || c == '\u{202F}' || c == '\u{205F}' || c == '\u{3000}'
}

pub open spec fn is_blank(l: Seq<char>) -> bool {
    forall|i: int| 0 <= i < l.len() ==> is_ws(#[trigger] l[i])
}

/// A line without the carriage return of a `\r\n` ending.
pub open spec fn strip_cr(l: Seq<char>) -> Seq<char> {
    if l.len() > 0 && l.last() == '\r' { l.drop_last() } else { l }
}

/// The finished lines and the current partial line after `n` characters.
pub open spec fn line_scan(s: Seq<char>, n: int) -> (Seq<Seq<char>>, Seq<char>)
    decreases n,
{
    if n <= 0 {
        (Seq::empty(), Seq::empty())
    } else {
        let (ls, cur) = line_scan(s, n - 1);
        if s[n - 1] == '\n' {
            (ls.push(strip_cr(cur)), Seq::empty())
        } else {
            (ls, cur.push(s[n - 1]))
        }
    }
}

/// The lines of `s`: split at `\n` or `\r\n`; a final line ending adds no
/// empty line.
pub open spec fn lines_of(s: Seq<char>) -> Seq<Seq<char>> {
    let (ls, cur) = line_scan(s, s.len() as int);
    if cur.len() > 0 { ls.push(cur) } else { ls }
}

pub open spec fn indent_line(l: Seq<char>, n: nat) -> Seq<char> {
    if is_blank(l) { l } else { Seq::new(n, |i: int| ' ') + l }
}

/// The lines, each indented unless blank, joined by `\n`.
pub open spec fn join_indented(ls: Seq<Seq<char>>, n: nat, k: int) -> Seq<char>
    decreases k,
{
    if k <= 0 {
        Seq::empty()
    } else if k == 1 {
        indent_line(ls[0], n)
    } else {
        join_indented(ls, n, k - 1) + "\n"@ + indent_line(ls[k - 1], n)
    }
}

/// The text of `s` with every non-blank line indented by `n` spaces.
pub open spec fn indented(s: Seq<char>, n: nat) -> Seq<char> {
    join_indented(lines_of(s), n, lines_of(s).len() as int)
}

fn is_ws_char(c: char) -> (r: bool)
    ensures
        r == is_ws(c),
{
    c == '\t' || c == '\n' || c == '\u{0B}' || c == '\u{0C}' || c == '\r' || c == ' ' || c == '\u{85}'
        || c == '\u{A0}' || c == '\u{1680}' || ('\u{2000}' <= c && c <= '\u{200A}') || c == '\u{2028}'
        || c == '\u{2029}' || c == '\u{202F}' || c == '\u{205F}' || c == '\u{3000}'
}

fn blank(l: &String) -> (r: bool)
    ensures
        r == is_blank(l@),
{
    let n = l.as_str().unicode_len();
    let mut i: usize = 0;
    while i < n
        invariant
            n == l@.len(),
            i <= n,
            forall|j: int| 0 <= j < i ==> is_ws(#[trigger] l@[j]),
        decreases n - i,
    {
        if !is_ws_char(l.as_str().get_char(i)) {
            return false;
        }
        i += 1;
    }
    true
}

fn emit_line(out: &mut String, line: &String, indent: &String, first: bool, Ghost(ls): Ghost<Seq<Seq<char>>>, Ghost(n): Ghost<nat>)
    requires
        indent@ == Seq::new(n, |i: int| ' '),
        first <==> ls.len() == 0,
        old(out)@ == join_indented(ls, n, ls.len() as int),
    ensures
        final(out)@ == join_indented(ls.push(line@), n, ls.len() as int + 1),
{
    let ghost ls2 = ls.push(line@);
    proof {
        assert forall|k: int| 0 <= k <= ls.len() implies join_indented(ls2, n, k) == join_indented(ls, n, k) by {
            lemma_join_prefix(ls, ls2, n, k);
        }
    }
    if !first {
        out.append("\n");
    }
    if !blank(line) {
        out.append(indent.as_str());
    }
    out.append(line.as_str());
}

proof fn lemma_join_prefix(a: Seq<Seq<char>>, b: Seq<Seq<char>>, n: nat, k: int)
    requires
        0 <= k <= a.len(),
        k <= b.len(),
        forall|i: int| 0 <= i < k ==> a[i] == b[i],
    ensures
        join_indented(a, n, k) == join_indented(b, n, k),
    decreases k,
{
    if k > 1 {
        lemma_join_prefix(a, b, n, k - 1);
    }
}

/// Indents every line of `str` that is not blank by `indent_size` spaces;
/// the lines are joined by `\n`.
pub fn indent_str(str: String, indent_size: usize) -> (r: String)
    ensures
        r@ == indented(str@, indent_size as nat),
{
    let mut indent = String::new();
    let mut i: usize = 0;
    while i < indent_size
        invariant
            i <= indent_size,
            indent@ == Seq::new(i as nat, |j: int| ' '),
        decreases indent_size - i,
    {
        push_char(&mut indent, ' ');
        proof {
            assert(indent@ =~= Seq::new((i + 1) as nat, |j: int| ' '));
        }
        i += 1;
    }
    let n = str.as_str().unicode_len();
    let mut out = String::new();
    let mut cur = String::new();
    let mut first = true;
    let mut k: usize = 0;
    while k < n
        invariant
            n == str@.len(),
            k <= n,
            indent@ == Seq::new(indent_size as nat, |j: int| ' '),
            cur@ == line_scan(str@, k as int).1,
            first <==> line_scan(str@, k as int).0.len() == 0,
            out@ == join_indented(line_scan(str@, k as int).0, indent_size as nat, line_scan(str@, k as int).0.len() as int),
        decreases n - k,
    {
        let c = str.as_str().get_char(k);
        let ghost ls = line_scan(str@, k as int).0;
        if c == '\n' {
            let m = cur.as_str().unicode_len();
            let line = if m > 0 && cur.as_str().get_char(m - 1) == '\r' {
                String::from_str(cur.as_str().substring_char(0, m - 1))
            } else {
                cur
            };
            proof {
                assert(line@ == strip_cr(line_scan(str@, k as int).1)) by {
                    if m > 0 && cur@.last() == '\r' {
                        assert(line@ =~= cur@.drop_last());
                    }
                }
            }
            emit_line(&mut out, &line, &indent, first, Ghost(ls), Ghost(indent_size as nat));
            first = false;
            cur = String::new();
        } else {
            push_char(&mut cur, c);
        }
        k += 1;
    }
    if cur.as_str().unicode_len() > 0 {
        let ghost ls = line_scan(str@, n as int).0;
        emit_line(&mut out, &cur, &indent, first, Ghost(ls), Ghost(indent_size as nat));
    }
    out
}

} // verus!
