use vstd::prelude::*;
use vstd::multiset::Multiset;
use vstd::string::StrSliceExecFns;

verus! {

broadcast use vstd::seq_lib::group_to_multiset_ensures;

/// Names compare case-insensitively through this lower-case form.
pub uninterp spec fn lower_of(s: Seq<char>) -> Seq<char>;

/// Relies on str::to_lowercase: the result depends on the characters alone.
#[verifier::external_body]
pub(crate) fn lowercase(s: &String) -> (r: String)
    ensures
        r@ == lower_of(s@),
{
    s.to_lowercase()
}

/// `a` sorts at or before `b`, comparing from position `i` on by code point.
pub open spec fn lex_le_from(a: Seq<char>, b: Seq<char>, i: int) -> bool
    decreases a.len() - i,
{
    if i >= a.len() {
        true
    } else if i >= b.len() {
        false
    } else if (a[i] as u32) != (b[i] as u32) {
        (a[i] as u32) < (b[i] as u32)
    } else {
        lex_le_from(a, b, i + 1)
    }
}

/// Lexicographic order by code point.
pub open spec fn lex_le(a: Seq<char>, b: Seq<char>) -> bool {
    lex_le_from(a, b, 0)
}

proof fn lemma_lex_total(a: Seq<char>, b: Seq<char>, i: int)
    requires
        0 <= i,
    ensures
        lex_le_from(a, b, i) || lex_le_from(b, a, i),
    decreases a.len() - i,
{
    if i < a.len() && i < b.len() && (a[i] as u32) == (b[i] as u32) {
        lemma_lex_total(a, b, i + 1);
    }
}

proof fn lemma_lex_trans(a: Seq<char>, b: Seq<char>, c: Seq<char>, i: int)
    requires
        0 <= i,
        lex_le_from(a, b, i),
        lex_le_from(b, c, i),
    ensures
        lex_le_from(a, c, i),
    decreases a.len() - i,
{
    if i < a.len() && i < b.len() && i < c.len() && (a[i] as u32) == (b[i] as u32) && (b[i] as u32) == (c[i] as u32) {
        lemma_lex_trans(a, b, c, i + 1);
    }
}

/// Compares two strings by code point.
pub fn lex_le_exec(a: &String, b: &String) -> (r: bool)
    ensures
        r == lex_le(a@, b@),
{
    let n = a.as_str().unicode_len();
    let m = b.as_str().unicode_len();
    let mut i: usize = 0;
    while i < n
        invariant
            n == a@.len(),
            m == b@.len(),
            i <= n,
            lex_le(a@, b@) == lex_le_from(a@, b@, i as int),
        decreases n - i,
    {
        if i >= m {
            return false;
        }
        let x = a.as_str().get_char(i);
        let y = b.as_str().get_char(i);
        if (x as u32) != (y as u32) {
            return (x as u32) < (y as u32);
        }
        i += 1;
    }
    true
}

pub open spec fn sorted_by(s: Seq<Seq<char>>) -> bool {
    forall|i: int, j: int| 0 <= i < j < s.len() ==> lex_le(#[trigger] s[i], #[trigger] s[j])
}

/// Sorts `items` by their keys, keeping the given order among equal keys.
/// `r` is `items` reordered through the positions `idx`, with items of equal
/// keys in their original relative order.
pub open spec fn stable_reorder<T>(r: Seq<T>, items: Seq<T>, idx: Seq<int>, key: spec_fn(T) -> Seq<char>) -> bool {
    &&& idx.len() == r.len() && r.len() == items.len()
    &&& forall|i: int| 0 <= i < r.len() ==> 0 <= #[trigger] idx[i] < items.len() && r[i] == items[idx[i]]
    &&& forall|i: int, j: int| 0 <= i < r.len() && 0 <= j < r.len() && i != j ==> #[trigger] idx[i] != #[trigger] idx[j]
    &&& forall|i: int, j: int| 0 <= i < j < r.len() && key(#[trigger] r[i]) == key(#[trigger] r[j]) ==> idx[i] < idx[j]
}

pub fn sort_by_keys<T>(items: Vec<T>, keys: Vec<String>, Ghost(key): Ghost<spec_fn(T) -> Seq<char>>) -> (r: Vec<T>)
    requires
        items@.len() == keys@.len(),
        forall|i: int| 0 <= i < items@.len() ==> (#[trigger] keys@[i])@ == key(items@[i]),
    ensures
        r@.to_multiset() == items@.to_multiset(),
        sorted_by(r@.map_values(|x: T| key(x))),
        exists|idx: Seq<int>| #[trigger] stable_reorder(r@, items@, idx, key),
{
    let ghost orig = items@;
    let mut items = items;
    let mut keys = keys;
    let mut out: Vec<T> = Vec::new();
    let mut out_keys: Vec<String> = Vec::new();
    let ghost mut idx: Seq<int> = Seq::empty();
    while items.len() > 0
        invariant
            idx.len() == out@.len(),
            items@ == orig.subrange(orig.len() - items@.len(), orig.len() as int),
            items@.len() <= orig.len(),
            forall|i: int| 0 <= i < out@.len() ==> 0 <= #[trigger] idx[i] < orig.len() - items@.len()
                && out@[i] == orig[idx[i]],
            forall|i: int, j: int| 0 <= i < out@.len() && 0 <= j < out@.len() && i != j ==> #[trigger] idx[i] != #[trigger] idx[j],
            forall|i: int, j: int| 0 <= i < j < out@.len() && key(#[trigger] out@[i]) == key(#[trigger] out@[j]) ==> idx[i] < idx[j],
            items@.len() == keys@.len(),
            forall|i: int| 0 <= i < items@.len() ==> (#[trigger] keys@[i])@ == key(items@[i]),
            out@.len() == out_keys@.len(),
            forall|i: int| 0 <= i < out@.len() ==> (#[trigger] out_keys@[i])@ == key(out@[i]),
            out@.to_multiset().add(items@.to_multiset()) == orig.to_multiset(),
            forall|i: int, j: int| 0 <= i < j < out@.len() ==> lex_le(key(#[trigger] out@[i]), key(#[trigger] out@[j])),
        decreases items@.len(),
    {
        let ghost items0 = items@;
        let ghost out0 = out@;
        let ghost keys0 = keys@;
        let ghost ok0 = out_keys@;
        let x = items.remove(0);
        let k = keys.remove(0);
        proof {
            assert(k@ == key(x));
            assert forall|i: int| 0 <= i < items@.len() implies (#[trigger] keys@[i])@ == key(items@[i]) by {
                assert(keys@[i] == keys0[i + 1] && items@[i] == items0[i + 1]);
            }
        }
        let mut p: usize = 0;
        while p < out.len() && lex_le_exec(&out_keys[p], &k)
            invariant
                p <= out@.len(),
                out@ == out0,
                out_keys@ == ok0,
                out@.len() == out_keys@.len(),
                forall|i: int| 0 <= i < out@.len() ==> (#[trigger] out_keys@[i])@ == key(out@[i]),
                forall|i: int| 0 <= i < p ==> lex_le(key(#[trigger] out@[i]), k@),
            decreases out@.len() - p,
        {
            p += 1;
        }
        proof {
            if p < out@.len() {
                assert(!lex_le(key(out@[p as int]), k@));
                lemma_lex_total(key(out@[p as int]), k@, 0);
            }
            assert forall|i: int, j: int| 0 <= i < j < out@.len() + 1 implies lex_le(
                key(#[trigger] out0.insert(p as int, x)[i]),
                key(#[trigger] out0.insert(p as int, x)[j]),
            ) by {
                let s = out0.insert(p as int, x);
                if j < p {
                    assert(s[i] == out0[i] && s[j] == out0[j]);
                } else if j == p {
                    assert(s[i] == out0[i] && s[j] == x);
                } else if i < p {
                    assert(s[i] == out0[i] && s[j] == out0[j - 1]);
                } else if i == p {
                    assert(s[i] == x && s[j] == out0[j - 1]);
                    if j - 1 > p {
                        assert(lex_le(key(out0[p as int]), key(out0[j - 1])));
                        lemma_lex_trans(key(x), key(out0[p as int]), key(out0[j - 1]), 0);
                    }
                } else {
                    assert(s[i] == out0[i - 1] && s[j] == out0[j - 1]);
                }
            }
        }
        let ghost c = orig.len() - items0.len();
        let ghost idx0 = idx;
        out.insert(p, x);
        out_keys.insert(p, k);
        proof {
            idx = idx0.insert(p as int, c);
            assert(items0[0] == x);
            assert(orig[c] == items0[0]);
            assert(items@ =~= orig.subrange(orig.len() - items@.len(), orig.len() as int));
            assert forall|i: int| 0 <= i < out@.len() implies 0 <= #[trigger] idx[i] < orig.len() - items@.len()
                && out@[i] == orig[idx[i]] by {
                if i < p {
                    assert(out@[i] == out0[i] && idx[i] == idx0[i]);
                } else if i > p {
                    assert(out@[i] == out0[i - 1] && idx[i] == idx0[i - 1]);
                }
            }
            assert forall|i: int, j: int| 0 <= i < out@.len() && 0 <= j < out@.len() && i != j implies #[trigger] idx[i] != #[trigger] idx[j] by {
                if i != p && j != p {
                    let i0 = if i < p { i } else { i - 1 };
                    let j0 = if j < p { j } else { j - 1 };
                    assert(idx[i] == idx0[i0] && idx[j] == idx0[j0]);
                } else if i == p {
                    let j0 = if j < p { j } else { j - 1 };
                    assert(idx[j] == idx0[j0]);
                } else {
                    let i0 = if i < p { i } else { i - 1 };
                    assert(idx[i] == idx0[i0]);
                }
            }
            assert forall|i: int, j: int| 0 <= i < j < out@.len() && key(#[trigger] out@[i]) == key(#[trigger] out@[j]) implies idx[i] < idx[j] by {
                if j < p {
                    assert(out@[i] == out0[i] && out@[j] == out0[j]);
                } else if j == p {
                    assert(out@[i] == out0[i] && idx[i] == idx0[i]);
                } else if i < p {
                    assert(out@[i] == out0[i] && out@[j] == out0[j - 1]);
                } else if i == p {
                    assert(out@[j] == out0[j - 1]);
                    assert(out@[i] == x);
                    if j - 1 == p {
                        assert(!lex_le(key(out0[p as int]), k@));
                    } else {
                        assert(lex_le(key(out0[p as int]), key(out0[j - 1])));
                        assert(!lex_le(key(out0[p as int]), k@));
                    }
                } else {
                    assert(out@[i] == out0[i - 1] && out@[j] == out0[j - 1]);
                }
            }
            assert forall|i: int| 0 <= i < out@.len() implies (#[trigger] out_keys@[i])@ == key(out@[i]) by {
                if i < p {
                    assert(out@[i] == out0[i] && out_keys@[i] == ok0[i]);
                } else if i > p {
                    assert(out@[i] == out0[i - 1] && out_keys@[i] == ok0[i - 1]);
                }
            }
            assert(items0 == seq![x] + items@) by {
                assert(items0 =~= seq![x] + items@);
            }
            assert(items0.to_multiset() == items@.to_multiset().insert(x)) by {
                assert(items@ =~= items0.remove(0));
            }
            assert(out@.to_multiset().add(items@.to_multiset()) =~= out0.to_multiset().add(items0.to_multiset()));
        }
    }
    proof {
        assert(items@.to_multiset() =~= Multiset::empty());
        assert(out@.to_multiset() =~= orig.to_multiset());
        assert(out@.len() == out@.to_multiset().len());
        assert(orig.len() == orig.to_multiset().len());
        assert(stable_reorder(out@, orig, idx, key));
        let ks = out@.map_values(|x: T| key(x));
        assert forall|i: int, j: int| 0 <= i < j < ks.len() implies lex_le(#[trigger] ks[i], #[trigger] ks[j]) by {
            assert(ks[i] == key(out@[i]) && ks[j] == key(out@[j]));
        }
    }
    out
}

} // verus!
