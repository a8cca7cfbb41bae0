//! Stable ordering by composite keys, as `sort_by` / `sort_by_key` give it.
use vstd::prelude::*;

verus! {

/// Lexicographic order of two texts by code point, which is the order of
/// their UTF-8 bytes (`String`'s `Ord`).
pub open spec fn lex_lt(a: Seq<char>, b: Seq<char>) -> bool
    decreases a.len(),
{
    if b.len() == 0 {
        false
    } else if a.len() == 0 {
        true
    } else if (a[0] as u32) < (b[0] as u32) {
        true
    } else if a[0] == b[0] {
        lex_lt(a.drop_first(), b.drop_first())
    } else {
        false
    }
}

/// A sort key: an integer rank, then two texts, compared in that order.
pub struct SortKey {
    pub rank: i128,
    pub first: String,
    pub second: String,
}

pub type KeyView = (int, Seq<char>, Seq<char>);

impl SortKey {
    pub open spec fn view_key(&self) -> KeyView {
        (self.rank as int, self.first@, self.second@)
    }
}

pub open spec fn key_lt(a: KeyView, b: KeyView) -> bool {
    ||| a.0 < b.0
    ||| a.0 == b.0 && lex_lt(a.1, b.1)
    ||| a.0 == b.0 && a.1 == b.1 && lex_lt(a.2, b.2)
}

/// `out` lists the elements of `inp` in a stable sort by `key`: some
/// one-to-one choice of positions `src` sends each output slot to an input
/// slot, with outputs in increasing key order and ties kept in input order.
pub open spec fn stable_sort_of<T>(out: Seq<T>, inp: Seq<T>, key: spec_fn(T) -> KeyView) -> bool {
    &&& out.len() == inp.len()
    &&& exists|src: Seq<int>| #[trigger] stable_witness(out, inp, key, src)
}

pub open spec fn stable_witness<T>(
    out: Seq<T>,
    inp: Seq<T>,
    key: spec_fn(T) -> KeyView,
    src: Seq<int>,
) -> bool {
    &&& src.len() == out.len()
    &&& forall|i: int| 0 <= i < out.len() ==> 0 <= #[trigger] src[i] < inp.len() && out[i] == inp[src[i]]
    &&& forall|i: int, j: int|
        0 <= i < j < out.len() ==> key_lt(key(#[trigger] out[i]), key(#[trigger] out[j])) || (key(out[i])
            == key(out[j]) && src[i] < src[j])
}

proof fn lemma_lex_lt_irrefl(a: Seq<char>)
    ensures
        !lex_lt(a, a),
    decreases a.len(),
{
    if a.len() > 0 {
        lemma_lex_lt_irrefl(a.drop_first());
    }
}

proof fn lemma_lex_lt_trans(a: Seq<char>, b: Seq<char>, c: Seq<char>)
    requires
        lex_lt(a, b),
        lex_lt(b, c),
    ensures
        lex_lt(a, c),
    decreases a.len(),
{
    if a.len() > 0 && b.len() > 0 && c.len() > 0 {
        if a[0] == b[0] && b[0] == c[0] {
            lemma_lex_lt_trans(a.drop_first(), b.drop_first(), c.drop_first());
        }
    }
}

proof fn lemma_lex_lt_total(a: Seq<char>, b: Seq<char>)
    ensures
        lex_lt(a, b) || lex_lt(b, a) || a == b,
    decreases a.len(),
{
    if a.len() > 0 && b.len() > 0 {
        if a[0] == b[0] {
            lemma_lex_lt_total(a.drop_first(), b.drop_first());
            if a.drop_first() == b.drop_first() {
                assert(a =~= seq![a[0]] + a.drop_first());
                assert(b =~= seq![b[0]] + b.drop_first());
            }
        } else {
            if (a[0] as u32) == (b[0] as u32) {
                vstd::utf8::char_u32_cast(a[0], a[0] as u32);
                vstd::utf8::char_u32_cast(b[0], b[0] as u32);
            }
        }
    } else if a.len() == 0 && b.len() == 0 {
        assert(a =~= b);
    }
}

/// `lex_lt` is a strict total order.
pub proof fn lemma_lex_lt_props()
    ensures
        forall|a: Seq<char>| !#[trigger] lex_lt(a, a),
        forall|a: Seq<char>, b: Seq<char>, c: Seq<char>|
            #[trigger] lex_lt(a, b) && #[trigger] lex_lt(b, c) ==> lex_lt(a, c),
        forall|a: Seq<char>, b: Seq<char>|
            #[trigger] lex_lt(a, b) || #[trigger] lex_lt(b, a) || a == b,
{
    assert forall|a: Seq<char>| !#[trigger] lex_lt(a, a) by {
        lemma_lex_lt_irrefl(a);
    }
    assert forall|a: Seq<char>, b: Seq<char>, c: Seq<char>|
        #[trigger] lex_lt(a, b) && #[trigger] lex_lt(b, c) implies lex_lt(a, c) by {
        lemma_lex_lt_trans(a, b, c);
    }
    assert forall|a: Seq<char>, b: Seq<char>|
        #[trigger] lex_lt(a, b) || #[trigger] lex_lt(b, a) || a == b by {
        lemma_lex_lt_total(a, b);
    }
}

proof fn lemma_lex_lt_asym(a: Seq<char>, b: Seq<char>)
    requires
        lex_lt(a, b),
    ensures
        !lex_lt(b, a),
{
    if lex_lt(b, a) {
        lemma_lex_lt_trans(a, b, a);
        lemma_lex_lt_irrefl(a);
    }
}

pub proof fn lemma_key_lt_props()
    ensures
        forall|a: KeyView| !key_lt(a, a),
        forall|a: KeyView, b: KeyView, c: KeyView|
            #[trigger] key_lt(a, b) && #[trigger] key_lt(b, c) ==> key_lt(a, c),
        forall|a: KeyView, b: KeyView| key_lt(a, b) || key_lt(b, a) || a == b,
        forall|a: KeyView, b: KeyView| #[trigger] key_lt(a, b) ==> !key_lt(b, a),
{
    assert forall|a: KeyView| !key_lt(a, a) by {
        lemma_lex_lt_irrefl(a.1);
        lemma_lex_lt_irrefl(a.2);
    }
    assert forall|a: KeyView, b: KeyView, c: KeyView|
        #[trigger] key_lt(a, b) && #[trigger] key_lt(b, c) implies key_lt(a, c) by {
        if a.0 == b.0 && b.0 == c.0 {
            if lex_lt(a.1, b.1) && lex_lt(b.1, c.1) {
                lemma_lex_lt_trans(a.1, b.1, c.1);
            }
            if a.1 == b.1 && b.1 == c.1 && lex_lt(a.2, b.2) && lex_lt(b.2, c.2) {
                lemma_lex_lt_trans(a.2, b.2, c.2);
            }
        }
    }
    assert forall|a: KeyView, b: KeyView| key_lt(a, b) || key_lt(b, a) || a == b by {
        lemma_lex_lt_total(a.1, b.1);
        lemma_lex_lt_total(a.2, b.2);
    }
    assert forall|a: KeyView, b: KeyView| #[trigger] key_lt(a, b) implies !key_lt(b, a) by {
        if a.0 == b.0 && lex_lt(a.1, b.1) {
            lemma_lex_lt_asym(a.1, b.1);
        }
        if a.0 == b.0 && a.1 == b.1 && lex_lt(a.2, b.2) {
            lemma_lex_lt_asym(a.2, b.2);
            lemma_lex_lt_irrefl(a.1);
        }
        if a.0 == b.0 && lex_lt(a.1, b.1) {
            lemma_lex_lt_asym(a.1, b.1);
        }
    }
}

/// `a < b` in code-point lexicographic order.
pub fn text_lt(a: &str, b: &str) -> (r: bool)
    ensures
        r == lex_lt(a@, b@),
{
    let n = a.unicode_len();
    let m = b.unicode_len();
    let mut i: usize = 0;
    assert(a@.skip(0) =~= a@);
    assert(b@.skip(0) =~= b@);
    while i < n && i < m
        invariant
            n == a@.len(),
            m == b@.len(),
            i <= n,
            i <= m,
            a@.subrange(0, i as int) == b@.subrange(0, i as int),
            lex_lt(a@, b@) == lex_lt(a@.skip(i as int), b@.skip(i as int)),
        decreases n - i,
    {
        let ca = a.get_char(i);
        let cb = b.get_char(i);
        assert(a@.skip(i as int)[0] == ca);
        assert(b@.skip(i as int)[0] == cb);
        if (ca as u32) < (cb as u32) {
            return true;
        }
        if ca != cb {
            return false;
        }
        assert(a@.skip(i as int).drop_first() =~= a@.skip(i + 1));
        assert(b@.skip(i as int).drop_first() =~= b@.skip(i + 1));
        assert(a@.subrange(0, i + 1) =~= a@.subrange(0, i as int).push(ca));
        assert(b@.subrange(0, i + 1) =~= b@.subrange(0, i as int).push(cb));
        i = i + 1;
    }
    i < m
}

pub fn key_less(a: &SortKey, b: &SortKey) -> (r: bool)
    ensures
        r == key_lt(a.view_key(), b.view_key()),
{
    if a.rank < b.rank {
        return true;
    }
    if a.rank != b.rank {
        return false;
    }
    if text_lt(a.first.as_str(), b.first.as_str()) {
        return true;
    }
    if !crate::text::str_eq(a.first.as_str(), b.first.as_str()) {
        return false;
    }
    text_lt(a.second.as_str(), b.second.as_str())
}

/// The order, as positions into `keys`, in which a stable sort by key lists
/// them: ascending keys, equal keys in the order they came in.
pub fn stable_order(keys: &Vec<SortKey>) -> (perm: Vec<usize>)
    ensures
        perm@.len() == keys@.len(),
        forall|i: int| 0 <= i < perm@.len() ==> #[trigger] perm@[i] < keys@.len(),
        forall|i: int, j: int|
            0 <= i < j < perm@.len() ==> key_lt(
                keys@[#[trigger] perm@[i] as int].view_key(),
                keys@[#[trigger] perm@[j] as int].view_key(),
            ) || (keys@[perm@[i] as int].view_key() == keys@[perm@[j] as int].view_key() && perm@[i]
                < perm@[j]),
{
    proof {
        lemma_key_lt_props();
    }
    let mut perm: Vec<usize> = Vec::new();
    let n = keys.len();
    let mut j: usize = 0;
    while j < n
        invariant
            n == keys@.len(),
            j <= n,
            perm@.len() == j,
            forall|i: int| 0 <= i < perm@.len() ==> #[trigger] perm@[i] < j,
            forall|a: int, b: int|
                0 <= a < b < perm@.len() ==> key_lt(
                    keys@[#[trigger] perm@[a] as int].view_key(),
                    keys@[#[trigger] perm@[b] as int].view_key(),
                ) || (keys@[perm@[a] as int].view_key() == keys@[perm@[b] as int].view_key()
                    && perm@[a] < perm@[b]),
            forall|a: KeyView| !key_lt(a, a),
            forall|a: KeyView, b: KeyView, c: KeyView|
                #[trigger] key_lt(a, b) && #[trigger] key_lt(b, c) ==> key_lt(a, c),
            forall|a: KeyView, b: KeyView| key_lt(a, b) || key_lt(b, a) || a == b,
            forall|a: KeyView, b: KeyView| #[trigger] key_lt(a, b) ==> !key_lt(b, a),
        decreases n - j,
    {
        // Insert `j` after every entry whose key is not greater than its own.
        let mut p: usize = perm.len();
        while p > 0 && key_less(&keys[j], &keys[perm[p - 1]])
            invariant
                n == keys@.len(),
                j < n,
                p <= perm@.len(),
                forall|i: int| 0 <= i < perm@.len() ==> #[trigger] perm@[i] < j,
                forall|q: int|
                    p <= q < perm@.len() ==> key_lt(
                        keys@[j as int].view_key(),
                        keys@[#[trigger] perm@[q] as int].view_key(),
                    ),
            decreases p,
        {
            p = p - 1;
        }
        let ghost old_perm = perm@;
        // Every entry before `p` has a key not greater than that of `j`.
        assert forall|q: int| 0 <= q < p implies !key_lt(
            keys@[j as int].view_key(),
            keys@[#[trigger] old_perm[q] as int].view_key(),
        ) by {
            if p > 0 {
                let last = old_perm[p - 1];
                assert(!key_lt(keys@[j as int].view_key(), keys@[last as int].view_key()));
                if q < p - 1 {
                    let kq = keys@[old_perm[q] as int].view_key();
                    let kl = keys@[last as int].view_key();
                    let kj = keys@[j as int].view_key();
                    assert(key_lt(kq, kl) || kq == kl);
                    if key_lt(kj, kq) {
                        if kq == kl {
                        } else {
                            assert(key_lt(kj, kl));
                        }
                    }
                }
            }
        }
        perm.insert(p, j);
        proof {
            let np = perm@;
            assert(np =~= old_perm.insert(p as int, j));
            assert forall|a: int, b: int| 0 <= a < b < np.len() implies key_lt(
                keys@[#[trigger] np[a] as int].view_key(),
                keys@[#[trigger] np[b] as int].view_key(),
            ) || (keys@[np[a] as int].view_key() == keys@[np[b] as int].view_key() && np[a]
                < np[b]) by {
                let ka = keys@[np[a] as int].view_key();
                let kb = keys@[np[b] as int].view_key();
                if a < p && b < p {
                    assert(np[a] == old_perm[a] && np[b] == old_perm[b]);
                } else if a < p && b == p {
                    assert(np[a] == old_perm[a]);
                    assert(!key_lt(kb, ka));
                    assert(np[a] < j);
                } else if a < p && b > p {
                    assert(np[a] == old_perm[a] && np[b] == old_perm[b - 1]);
                } else if a == p {
                    assert(np[b] == old_perm[b - 1]);
                    assert(key_lt(ka, kb));
                } else {
                    assert(np[a] == old_perm[a - 1] && np[b] == old_perm[b - 1]);
                }
            }
        }
        j = j + 1;
    }
    perm
}

} // verus!
