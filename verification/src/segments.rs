//! Positions in a text: UTF-8 byte offsets, characters, lines and grapheme
//! clusters.  Editors keep byte offsets, as `str` indexing does; the work on
//! them is done in character offsets and converted at the edges.
use unicode_segmentation::UnicodeSegmentation;
use vstd::prelude::*;
use vstd::string::*;
use vstd::seq_lib::lemma_flatten_concat;
use vstd::utf8::*;

verus! {

/// Bytes that one character takes in UTF-8.
pub open spec fn width(c: char) -> nat {
    encode_scalar(c as u32).len()
}

/// Bytes that a text takes in UTF-8 (`str::len`).
pub open spec fn utf8_len(s: Seq<char>) -> nat {
    encode_utf8(s).len()
}

/// Byte offset at which character `k` of `s` starts (the end for `k == len`).
pub open spec fn byte_offset(s: Seq<char>, k: int) -> nat {
    utf8_len(s.take(k))
}

/// How many characters of `s` lie wholly before byte `b`: the character
/// offset of the last boundary at or before `b`.
pub open spec fn char_floor(s: Seq<char>, b: int) -> nat
    decreases s.len(),
{
    if s.len() == 0 {
        0
    } else if utf8_len(s) <= b {
        s.len()
    } else {
        char_floor(s.drop_last(), b)
    }
}

/// `b` is a character boundary of `s` (`str::is_char_boundary`).
pub open spec fn is_boundary(s: Seq<char>, b: int) -> bool {
    byte_offset(s, char_floor(s, b) as int) == b
}

pub proof fn lemma_encode_concat(a: Seq<char>, b: Seq<char>)
    ensures
        encode_utf8(a + b) == encode_utf8(a) + encode_utf8(b),
    decreases a.len(),
{
    if a.len() == 0 {
        assert(a + b =~= b);
        assert(encode_utf8(a) =~= Seq::<u8>::empty());
        assert(encode_utf8(a) + encode_utf8(b) =~= encode_utf8(b));
    } else {
        lemma_encode_concat(a.drop_first(), b);
        assert((a + b).drop_first() =~= a.drop_first() + b);
        assert((a + b)[0] == a[0]);
        assert(encode_utf8(a + b) =~= encode_scalar(a[0] as u32) + encode_utf8(a.drop_first() + b));
    }
}

pub proof fn lemma_width(c: char)
    ensures
        1 <= width(c) <= 4,
        (c as u32) < 0x80 ==> width(c) == 1,
        0x80 <= (c as u32) < 0x800 ==> width(c) == 2,
        0x800 <= (c as u32) < 0x10000 ==> width(c) == 3,
        0x10000 <= (c as u32) ==> width(c) == 4,
{
    broadcast use char_is_scalar;

    assert(is_scalar(c as u32));
}

pub proof fn lemma_utf8_len_push(s: Seq<char>, c: char)
    ensures
        utf8_len(s.push(c)) == utf8_len(s) + width(c),
{
    lemma_encode_concat(s, seq![c]);
    assert(s.push(c) =~= s + seq![c]);
    assert(seq![c].drop_first() =~= Seq::<char>::empty());
    assert(encode_utf8(seq![c]) =~= encode_scalar(c as u32) + encode_utf8(Seq::<char>::empty()));
}

pub proof fn lemma_utf8_len_concat(a: Seq<char>, b: Seq<char>)
    ensures
        utf8_len(a + b) == utf8_len(a) + utf8_len(b),
{
    lemma_encode_concat(a, b);
}

pub proof fn lemma_byte_offset_step(s: Seq<char>, k: int)
    requires
        0 <= k < s.len(),
    ensures
        byte_offset(s, k + 1) == byte_offset(s, k) + width(s[k]),
{
    assert(s.take(k + 1) =~= s.take(k).push(s[k]));
    lemma_utf8_len_push(s.take(k), s[k]);
}

proof fn lemma_byte_offset_grow(s: Seq<char>, i: int, j: int)
    requires
        0 <= i <= j <= s.len(),
    ensures
        byte_offset(s, i) + (j - i) <= byte_offset(s, j),
    decreases j - i,
{
    if i < j {
        lemma_byte_offset_grow(s, i, j - 1);
        lemma_byte_offset_step(s, j - 1);
        lemma_width(s[j - 1]);
    }
}

/// Offsets grow by at least one byte per character and stay within the text.
pub proof fn lemma_byte_offset_mono(s: Seq<char>, i: int, j: int)
    requires
        0 <= i <= j <= s.len(),
    ensures
        byte_offset(s, i) + (j - i) <= byte_offset(s, j),
        byte_offset(s, j) <= utf8_len(s),
        byte_offset(s, i) <= byte_offset(s, j),
{
    lemma_byte_offset_grow(s, i, j);
    lemma_byte_offset_grow(s, j, s.len() as int);
    assert(s.take(s.len() as int) =~= s);
}

/// The last boundary at or before `b` is the one found by scanning forward.
pub proof fn lemma_char_floor_unique(s: Seq<char>, b: int, k: int)
    requires
        0 <= k <= s.len(),
        byte_offset(s, k) <= b,
        k == s.len() || byte_offset(s, k + 1) > b,
    ensures
        char_floor(s, b) == k,
    decreases s.len(),
{
    assert(s.take(s.len() as int) =~= s);
    if s.len() > 0 && k < s.len() {
        lemma_byte_offset_mono(s, k + 1, s.len() as int);
        let t = s.drop_last();
        assert(t.take(k) =~= s.take(k));
        if k + 1 < s.len() {
            assert(t.take(k + 1) =~= s.take(k + 1));
        }
        lemma_char_floor_unique(t, b, k);
    }
}

pub proof fn lemma_char_floor_props(s: Seq<char>, b: int)
    ensures
        char_floor(s, b) <= s.len(),
        b >= 0 ==> byte_offset(s, char_floor(s, b) as int) <= b,
        char_floor(s, b) < s.len() ==> byte_offset(s, char_floor(s, b) + 1int) > b,
    decreases s.len(),
{
    assert(s.take(s.len() as int) =~= s);
    if s.len() > 0 && utf8_len(s) > b {
        let t = s.drop_last();
        lemma_char_floor_props(t, b);
        let k = char_floor(t, b) as int;
        assert(t.take(k) =~= s.take(k));
        if k + 1 < s.len() {
            assert(t.take(k + 1) =~= s.take(k + 1));
        } else {
            assert(t.take(t.len() as int) =~= t);
        }
    }
}

/// Later bytes lie after at least as many characters.
pub proof fn lemma_char_floor_mono(s: Seq<char>, b1: int, b2: int)
    requires
        b1 <= b2,
    ensures
        char_floor(s, b1) <= char_floor(s, b2),
    decreases s.len(),
{
    lemma_char_floor_props(s, b1);
    if s.len() > 0 && utf8_len(s) > b2 {
        lemma_char_floor_mono(s.drop_last(), b1, b2);
    }
}

/// Every character offset is the floor of its own byte offset.
pub proof fn lemma_char_floor_of_offset(s: Seq<char>, k: int)
    requires
        0 <= k <= s.len(),
    ensures
        char_floor(s, byte_offset(s, k) as int) == k,
        is_boundary(s, byte_offset(s, k) as int),
{
    if k < s.len() {
        lemma_byte_offset_step(s, k);
        lemma_width(s[k]);
    }
    lemma_char_floor_unique(s, byte_offset(s, k) as int, k);
}

/// Bytes that a char takes in UTF-8 (`char::len_utf8`).
pub fn char_width(c: char) -> (w: usize)
    ensures
        w == width(c),
        1 <= w <= 4,
{
    proof {
        lemma_width(c);
    }
    let u = c as u32;
    if u < 0x80 {
        1
    } else if u < 0x800 {
        2
    } else if u < 0x10000 {
        3
    } else {
        4
    }
}

/// `s.len()`: the length of `s` in bytes.
pub fn byte_len(s: &str) -> (n: usize)
    ensures
        n == utf8_len(s@),
{
    let b = s.as_bytes();
    b.len()
}

/// The byte offset at which character `k` of `s` starts.
pub fn offset_of_char(s: &str, k: usize) -> (b: usize)
    requires
        k <= s@.len(),
    ensures
        b == byte_offset(s@, k as int),
{
    let total = byte_len(s);
    let mut i: usize = 0;
    let mut b: usize = 0;
    assert(s@.take(0) =~= Seq::<char>::empty());
    while i < k
        invariant
            k <= s@.len(),
            i <= k,
            total == utf8_len(s@),
            b == byte_offset(s@, i as int),
        decreases k - i,
    {
        proof {
            lemma_byte_offset_step(s@, i as int);
            lemma_byte_offset_mono(s@, (i + 1) as int, (i + 1) as int);
        }
        b = b + char_width(s.get_char(i));
        i = i + 1;
    }
    b
}

/// The number of characters of `s` that end at or before byte `b`.
pub fn char_at_byte(s: &str, b: usize) -> (k: usize)
    ensures
        k == char_floor(s@, b as int),
        k <= s@.len(),
{
    let total = byte_len(s);
    let n = s.unicode_len();
    let mut k: usize = 0;
    let mut off: usize = 0;
    assert(s@.take(0) =~= Seq::<char>::empty());
    while k < n
        invariant
            n == s@.len(),
            k <= n,
            total == utf8_len(s@),
            off == byte_offset(s@, k as int),
            off <= b,
        ensures
            k <= n,
            off == byte_offset(s@, k as int),
            off <= b,
            k == n || byte_offset(s@, k + 1) > b,
        decreases n - k,
    {
        proof {
            lemma_byte_offset_step(s@, k as int);
            lemma_byte_offset_mono(s@, (k + 1) as int, (k + 1) as int);
        }
        let w = char_width(s.get_char(k));
        if off + w > b {
            break;
        }
        off = off + w;
        k = k + 1;
    }
    proof {
        lemma_char_floor_unique(s@, b as int, k as int);
    }
    k
}

/// Where the line that holds character `at` starts: just after the last
/// newline before `at`, or the start of the text.
pub open spec fn line_start(s: Seq<char>, at: int) -> int
    decreases at,
{
    if at <= 0 {
        0
    } else if s[at - 1] == '\n' {
        at
    } else {
        line_start(s, at - 1)
    }
}

/// Where the line that holds character `at` ends: the first newline at or
/// after `at`, or the end of the text.
pub open spec fn line_end(s: Seq<char>, at: int) -> int
    decreases s.len() - at,
{
    if at >= s.len() {
        s.len() as int
    } else if s[at] == '\n' {
        at
    } else {
        line_end(s, at + 1)
    }
}

pub proof fn lemma_line_start_bounds(s: Seq<char>, at: int)
    requires
        0 <= at,
    ensures
        0 <= line_start(s, at) <= at,
    decreases at,
{
    if at > 0 && s[at - 1] != '\n' {
        lemma_line_start_bounds(s, at - 1);
    }
}

pub proof fn lemma_line_end_bounds(s: Seq<char>, at: int)
    requires
        0 <= at <= s.len(),
    ensures
        at <= line_end(s, at) <= s.len(),
        line_end(s, at) < s.len() ==> s[line_end(s, at)] == '\n',
    decreases s.len() - at,
{
    if at < s.len() && s[at] != '\n' {
        lemma_line_end_bounds(s, at + 1);
    }
}

/// `s[..at].rfind('\n').map_or(0, |i| i + 1)`, in characters.
pub fn line_start_of(s: &str, at: usize) -> (k: usize)
    requires
        at <= s@.len(),
    ensures
        k == line_start(s@, at as int),
        k <= at,
{
    let mut i = at;
    while i > 0 && s.get_char(i - 1) != '\n'
        invariant
            i <= at <= s@.len(),
            line_start(s@, i as int) == line_start(s@, at as int),
        decreases i,
    {
        i = i - 1;
    }
    i
}

/// `s[at..].find('\n').map_or(s.len(), |i| at + i)`, in characters.
pub fn line_end_of(s: &str, at: usize) -> (k: usize)
    requires
        at <= s@.len(),
    ensures
        k == line_end(s@, at as int),
        at <= k <= s@.len(),
{
    let n = s.unicode_len();
    let mut i = at;
    while i < n && s.get_char(i) != '\n'
        invariant
            n == s@.len(),
            at <= i <= n,
            line_end(s@, i as int) == line_end(s@, at as int),
        decreases n - i,
    {
        i = i + 1;
    }
    i
}

/// The extended grapheme clusters of a text, in order, as Unicode Standard
/// Annex #29 draws their boundaries.  The segmentation rules and their tables
/// are not restated here.
pub uninterp spec fn grapheme_clusters(s: Seq<char>) -> Seq<Seq<char>>;

pub open spec fn views(v: Seq<String>) -> Seq<Seq<char>> {
    v.map_values(|g: String| g@)
}

/// `s.graphemes(true)`, collected.  Its result is named by
/// `grapheme_clusters`; the iterator walks the text from start to end and
/// yields consecutive non-empty slices of it, so the clusters concatenate to
/// the text.
#[verifier::external_body]
fn graphemes(s: &str) -> (r: Vec<String>)
    ensures
        views(r@) == grapheme_clusters(s@),
        views(r@).flatten() == s@,
        forall|i: int| 0 <= i < r@.len() ==> (#[trigger] r@[i])@.len() > 0,
{
    s.graphemes(true).map(String::from).collect()
}

/// The number of grapheme clusters of `s` (what a reader counts as
/// characters).
pub open spec fn cluster_count(s: Seq<char>) -> nat {
    grapheme_clusters(s).len()
}

/// Character offset at which the last cluster of `s` starts (0 when empty).
pub open spec fn last_cluster_start(s: Seq<char>) -> int {
    let g = grapheme_clusters(s);
    if g.len() == 0 {
        0
    } else {
        s.len() - g.last().len()
    }
}

/// Characters in the first cluster of `s` (0 when empty).
pub open spec fn first_cluster_len(s: Seq<char>) -> int {
    let g = grapheme_clusters(s);
    if g.len() == 0 {
        0
    } else {
        g[0].len() as int
    }
}

/// Character offset at which cluster `col` of `s` starts, or the end of `s`
/// when it has no such cluster.
pub open spec fn cluster_start(s: Seq<char>, col: int) -> int {
    let g = grapheme_clusters(s);
    if 0 <= col < g.len() {
        g.take(col).flatten().len() as int
    } else {
        s.len() as int
    }
}

/// Start of the cluster that ends at character `at` (`grapheme_indices`
/// of `s[..at]`, taken from the back), in characters.
pub open spec fn cluster_left(s: Seq<char>, at: int) -> int {
    last_cluster_start(s.take(at))
}

/// End of the cluster that starts at character `at`, in characters.
pub open spec fn cluster_right(s: Seq<char>, at: int) -> int {
    at + first_cluster_len(s.skip(at))
}

proof fn lemma_flatten_empty(g: Seq<Seq<char>>)
    requires
        forall|i: int| 0 <= i < g.len() ==> (#[trigger] g[i]).len() > 0,
    ensures
        (g.flatten().len() == 0) == (g.len() == 0),
{
    if g.len() > 0 {
        assert(g.flatten() == g[0] + g.drop_first().flatten());
    }
}

pub fn cluster_count_of(s: &str) -> (n: usize)
    ensures
        n == cluster_count(s@),
{
    let g = graphemes(s);
    g.len()
}

pub fn cluster_left_of(s: &str, at: usize) -> (k: usize)
    requires
        at <= s@.len(),
    ensures
        k == cluster_left(s@, at as int),
        k <= at,
        at > 0 ==> k < at,
{
    let prefix = s.substring_char(0, at);
    assert(prefix@ =~= s@.take(at as int));
    let g = graphemes(prefix);
    if g.len() == 0 {
        proof {
            lemma_flatten_empty(views(g@));
        }
        0
    } else {
        let last_len = g[g.len() - 1].as_str().unicode_len();
        proof {
            let v = views(g@);
            v.lemma_flatten_and_flatten_alt_are_equivalent();
            assert(v.flatten_alt() == v.drop_last().flatten_alt() + v.last());
            assert(v.last() == g@[g.len() - 1]@);
            assert(g@[g.len() - 1]@.len() > 0);
        }
        at - last_len
    }
}

pub fn cluster_right_of(s: &str, at: usize) -> (k: usize)
    requires
        at <= s@.len(),
    ensures
        k == cluster_right(s@, at as int),
        at <= k <= s@.len(),
        at < s@.len() ==> at < k,
{
    let rest = s.substring_char(at, s.unicode_len());
    assert(rest@ =~= s@.skip(at as int));
    let g = graphemes(rest);
    if g.len() == 0 {
        proof {
            lemma_flatten_empty(views(g@));
        }
        at
    } else {
        let first_len = g[0].as_str().unicode_len();
        proof {
            let v = views(g@);
            assert(v.flatten() == v[0] + v.drop_first().flatten());
            assert(v[0] == g@[0]@);
            assert(g@[0]@.len() > 0);
        }
        at + first_len
    }
}

/// Character offset of cluster `col` of `s[start..end]`, counted from the
/// start of `s`, or `end` when that line has no such cluster.
pub fn cluster_at_column(s: &str, start: usize, end: usize, col: usize) -> (k: usize)
    requires
        start <= end <= s@.len(),
    ensures
        k == start + cluster_start(s@.subrange(start as int, end as int), col as int),
        start <= k <= end,
{
    let line = s.substring_char(start, end);
    let g = graphemes(line);
    if col >= g.len() {
        return end;
    }
    let ghost v = views(g@);
    let mut i: usize = 0;
    let mut acc: usize = 0;
    assert(v.take(0) =~= Seq::<Seq<char>>::empty());
    while i < col
        invariant
            col < g@.len(),
            v == views(g@),
            v.flatten() == line@,
            line@.len() == end - start,
            i <= col,
            acc == v.take(i as int).flatten().len(),
        decreases col - i,
    {
        proof {
            let t = v.take(i + 1);
            t.lemma_flatten_and_flatten_alt_are_equivalent();
            v.take(i as int).lemma_flatten_and_flatten_alt_are_equivalent();
            assert(t.drop_last() =~= v.take(i as int));
            assert(t.last() == g@[i as int]@);
            assert(v =~= v.take(i + 1) + v.skip(i + 1));
            lemma_flatten_concat(v.take(i + 1), v.skip(i + 1));
        }
        acc = acc + g[i].as_str().unicode_len();
        i = i + 1;
    }
    proof {
        assert(v =~= v.take(col as int) + v.skip(col as int));
        lemma_flatten_concat(v.take(col as int), v.skip(col as int));
    }
    start + acc
}

/// The character offset reached from character `k` by one line up or down:
/// the same cluster column of the adjacent line, or that line's end when it
/// is shorter; the start of the text from the first line going up, its end
/// from the last line going down.
pub open spec fn vertical_char(t: Seq<char>, k: int, up: bool) -> int {
    let ls = line_start(t, k);
    let le = line_end(t, k);
    let column = cluster_count(t.subrange(ls, k)) as int;
    if up {
        if ls == 0 {
            0
        } else {
            let end = ls - 1;
            let start = line_start(t, end);
            start + cluster_start(t.subrange(start, end), column)
        }
    } else if le == t.len() {
        le
    } else {
        let start = le + 1;
        let end = line_end(t, start);
        start + cluster_start(t.subrange(start, end), column)
    }
}

pub fn vertical_of(t: &str, k: usize, up: bool) -> (r: usize)
    requires
        k <= t@.len(),
    ensures
        r == vertical_char(t@, k as int, up),
        r <= t@.len(),
{
    let n = t.unicode_len();
    let line_start = line_start_of(t, k);
    let line_end = line_end_of(t, k);
    let column = cluster_count_of(t.substring_char(line_start, k));
    if up {
        if line_start == 0 {
            0
        } else {
            let end = line_start - 1;
            let start = line_start_of(t, end);
            cluster_at_column(t, start, end, column)
        }
    } else if line_end == n {
        line_end
    } else {
        let start = line_end + 1;
        let end = line_end_of(t, start);
        cluster_at_column(t, start, end, column)
    }
}

/// UTF-16 code units of one character (`char::len_utf16`).
pub open spec fn utf16_width(c: char) -> nat {
    if (c as u32) >= 0x10000 {
        2
    } else {
        1
    }
}

/// UTF-16 code units of a text (`encode_utf16().count()`).
pub open spec fn utf16_len(s: Seq<char>) -> nat
    decreases s.len(),
{
    if s.len() == 0 {
        0
    } else {
        utf16_len(s.drop_last()) + utf16_width(s.last())
    }
}

/// The character at UTF-16 offset `u`: the fewest leading characters that
/// reach `u` code units, or all of them.
pub open spec fn char_at_utf16(s: Seq<char>, u: int) -> nat
    decreases s.len(),
{
    if s.len() == 0 {
        0
    } else if utf16_len(s.drop_last()) >= u {
        char_at_utf16(s.drop_last(), u)
    } else {
        s.len()
    }
}

proof fn lemma_utf16_step(s: Seq<char>, k: int)
    requires
        0 <= k < s.len(),
    ensures
        utf16_len(s.take(k + 1)) == utf16_len(s.take(k)) + utf16_width(s[k]),
{
    assert(s.take(k + 1).drop_last() =~= s.take(k));
}

proof fn lemma_utf16_mono(s: Seq<char>, i: int, j: int)
    requires
        0 <= i <= j <= s.len(),
    ensures
        utf16_len(s.take(i)) <= utf16_len(s.take(j)),
    decreases j - i,
{
    if i < j {
        lemma_utf16_mono(s, i, j - 1);
        lemma_utf16_step(s, j - 1);
    }
}

/// A text has no more UTF-16 code units than UTF-8 bytes.
proof fn lemma_utf16_within_bytes(s: Seq<char>, k: int)
    requires
        0 <= k <= s.len(),
    ensures
        utf16_len(s.take(k)) <= byte_offset(s, k),
    decreases k,
{
    if k > 0 {
        lemma_utf16_within_bytes(s, k - 1);
        lemma_utf16_step(s, k - 1);
        lemma_byte_offset_step(s, k - 1);
        lemma_width(s[k - 1]);
    }
}

proof fn lemma_char_at_utf16_unique(s: Seq<char>, u: int, k: int)
    requires
        0 <= k <= s.len(),
        forall|j: int| 0 <= j < k ==> utf16_len(#[trigger] s.take(j)) < u,
        k == s.len() || utf16_len(s.take(k)) >= u,
    ensures
        char_at_utf16(s, u) == k,
    decreases s.len(),
{
    assert(s.take(s.len() as int) =~= s);
    if s.len() > 0 {
        let t = s.drop_last();
        assert(s.take(s.len() - 1) =~= t);
        if k < s.len() {
            lemma_utf16_mono(s, k, s.len() - 1);
            assert forall|j: int| 0 <= j < k implies utf16_len(#[trigger] t.take(j)) < u by {
                assert(t.take(j) =~= s.take(j));
            }
            if k < t.len() {
                assert(t.take(k) =~= s.take(k));
            }
            lemma_char_at_utf16_unique(t, u, k);
        } else {
            assert(utf16_len(s.take(s.len() - 1)) < u);
        }
    }
}

/// `s[..byte_offset(s, k)].encode_utf16().count()`.
pub fn utf16_prefix_len(s: &str, k: usize) -> (n: usize)
    requires
        k <= s@.len(),
    ensures
        n == utf16_len(s@.take(k as int)),
{
    let total = byte_len(s);
    let mut i: usize = 0;
    let mut n: usize = 0;
    assert(s@.take(0) =~= Seq::<char>::empty());
    while i < k
        invariant
            k <= s@.len(),
            i <= k,
            total == utf8_len(s@),
            n == utf16_len(s@.take(i as int)),
        decreases k - i,
    {
        proof {
            lemma_utf16_step(s@, i as int);
            lemma_utf16_within_bytes(s@, i + 1);
            lemma_byte_offset_mono(s@, (i + 1) as int, (i + 1) as int);
        }
        let c = s.get_char(i);
        n = if (c as u32) >= 0x10000 {
            n + 2
        } else {
            n + 1
        };
        i = i + 1;
    }
    n
}

/// The byte offset of UTF-16 offset `u` (rounded up to a character start,
/// the end when past it).
pub fn byte_of_utf16(s: &str, u: usize) -> (b: usize)
    ensures
        b == byte_offset(s@, char_at_utf16(s@, u as int) as int),
        char_at_utf16(s@, u as int) <= s@.len(),
{
    let total = byte_len(s);
    let len = s.unicode_len();
    let mut k: usize = 0;
    let mut n: usize = 0;
    assert(s@.take(0) =~= Seq::<char>::empty());
    while k < len && n < u
        invariant
            len == s@.len(),
            k <= len,
            total == utf8_len(s@),
            n == utf16_len(s@.take(k as int)),
            forall|j: int| 0 <= j < k ==> utf16_len(#[trigger] s@.take(j)) < u,
        decreases len - k,
    {
        proof {
            lemma_utf16_step(s@, k as int);
            lemma_utf16_within_bytes(s@, k + 1);
            lemma_byte_offset_mono(s@, (k + 1) as int, (k + 1) as int);
        }
        let c = s.get_char(k);
        n = if (c as u32) >= 0x10000 {
            n + 2
        } else {
            n + 1
        };
        k = k + 1;
    }
    proof {
        lemma_char_at_utf16_unique(s@, u as int, k as int);
    }
    offset_of_char(s, k)
}

pub proof fn lemma_char_at_utf16_bound(s: Seq<char>, u: int)
    ensures
        char_at_utf16(s, u) <= s.len(),
    decreases s.len(),
{
    if s.len() > 0 {
        lemma_char_at_utf16_bound(s.drop_last(), u);
    }
}

/// Later UTF-16 offsets fall on later characters.
pub proof fn lemma_char_at_utf16_mono(s: Seq<char>, u1: int, u2: int)
    requires
        u1 <= u2,
    ensures
        char_at_utf16(s, u1) <= char_at_utf16(s, u2),
    decreases s.len(),
{
    if s.len() > 0 {
        let t = s.drop_last();
        lemma_char_at_utf16_bound(t, u1);
        lemma_char_at_utf16_bound(t, u2);
        lemma_char_at_utf16_mono(t, u1, u2);
    }
}

} // verus!
