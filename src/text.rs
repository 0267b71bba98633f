//! Character-level helpers: splitting, trimming and the whitespace class.

use vstd::prelude::*;

verus! {

/// The character class that `char::is_whitespace` accepts (Unicode `White_Space`).
pub open spec fn is_ws(c: char) -> bool {
    let u = c as u32;
    (0x9 <= u <= 0xd) || u == 0x20 || u == 0x85 || u == 0xa0 || u == 0x1680 || (0x2000 <= u
        <= 0x200a) || u == 0x2028 || u == 0x2029 || u == 0x202f || u == 0x205f || u == 0x3000
}

/// A text made of whitespace only (the empty text included).
pub open spec fn is_blank(s: Seq<char>) -> bool {
    forall|i: int| 0 <= i < s.len() ==> is_ws(#[trigger] s[i])
}

/// The pieces between occurrences of `d`, as `str::split` yields them:
/// `k` delimiters give `k + 1` pieces, empty ones included.
pub open spec fn split_spec(s: Seq<char>, d: char) -> Seq<Seq<char>>
    decreases s.len(),
{
    if s.len() == 0 {
        seq![Seq::<char>::empty()]
    } else {
        let p = split_spec(s.drop_last(), d);
        if s.last() == d {
            p.push(Seq::<char>::empty())
        } else {
            p.update(p.len() - 1, p.last().push(s.last()))
        }
    }
}

/// The pieces between runs of whitespace, empty ones included.
pub open spec fn split_ws_spec(s: Seq<char>) -> Seq<Seq<char>>
    decreases s.len(),
{
    if s.len() == 0 {
        seq![Seq::<char>::empty()]
    } else {
        let p = split_ws_spec(s.drop_last());
        if is_ws(s.last()) {
            p.push(Seq::<char>::empty())
        } else {
            p.update(p.len() - 1, p.last().push(s.last()))
        }
    }
}

/// The non-empty pieces of `ps`, in order.
pub open spec fn keep_nonempty(ps: Seq<Seq<char>>) -> Seq<Seq<char>>
    decreases ps.len(),
{
    if ps.len() == 0 {
        Seq::empty()
    } else if ps.last().len() == 0 {
        keep_nonempty(ps.drop_last())
    } else {
        keep_nonempty(ps.drop_last()).push(ps.last())
    }
}

/// The whitespace-separated words of `s`, as `str::split_whitespace` yields them.
pub open spec fn words(s: Seq<char>) -> Seq<Seq<char>> {
    keep_nonempty(split_ws_spec(s))
}

/// `s` without its leading whitespace.
pub open spec fn trim_start(s: Seq<char>) -> Seq<char>
    decreases s.len(),
{
    if s.len() > 0 && is_ws(s[0]) {
        trim_start(s.drop_first())
    } else {
        s
    }
}

/// `s` without its trailing whitespace.
pub open spec fn trim_end(s: Seq<char>) -> Seq<char>
    decreases s.len(),
{
    if s.len() > 0 && is_ws(s.last()) {
        trim_end(s.drop_last())
    } else {
        s
    }
}

/// `s` without leading and trailing whitespace, as `str::trim` gives it.
pub open spec fn trim(s: Seq<char>) -> Seq<char> {
    trim_end(trim_start(s))
}

/// The views of a sequence of strings.
pub open spec fn strs(v: Seq<String>) -> Seq<Seq<char>> {
    v.map_values(|x: String| x@)
}

/// The views of a sequence of character vectors.
pub open spec fn char_pieces(v: Seq<Vec<char>>) -> Seq<Seq<char>> {
    v.map_values(|x: Vec<char>| x@)
}

/// The first `min(8, len)` characters of a commit hash.
pub open spec fn short_of(oid: Seq<char>) -> Seq<char> {
    if oid.len() < 8 {
        oid
    } else {
        oid.take(8)
    }
}

pub proof fn lemma_split_nonempty(s: Seq<char>, d: char)
    ensures
        split_spec(s, d).len() >= 1,
    decreases s.len(),
{
    if s.len() > 0 {
        lemma_split_nonempty(s.drop_last(), d);
    }
}

pub proof fn lemma_split_ws_nonempty(s: Seq<char>)
    ensures
        split_ws_spec(s).len() >= 1,
    decreases s.len(),
{
    if s.len() > 0 {
        lemma_split_ws_nonempty(s.drop_last());
    }
}

pub fn is_whitespace(c: char) -> (r: bool)
    ensures
        r == is_ws(c),
{
    let u = c as u32;
    (0x9 <= u && u <= 0xd) || u == 0x20 || u == 0x85 || u == 0xa0 || u == 0x1680 || (0x2000 <= u
        && u <= 0x200a) || u == 0x2028 || u == 0x2029 || u == 0x202f || u == 0x205f || u == 0x3000
}

/// The characters of `s`, in order.
pub fn chars_of(s: &str) -> (r: Vec<char>)
    ensures
        r@ == s@,
{
    let mut out: Vec<char> = Vec::new();
    for c in it: s.chars()
        invariant
            out@ == it.seq().take(it.index() as int),
    {
        out.push(c);
    }
    out
}

/// Relies on `FromIterator<&char> for String`: the string holds the given characters,
/// in order.
#[verifier::external_body]
pub(crate) fn string_of(v: &[char]) -> (r: String)
    ensures
        r@ == v@,
{
    String::from_iter(v)
}

/// The pieces of `s` between occurrences of `d`.
pub fn split_chars(s: &[char], d: char) -> (r: Vec<Vec<char>>)
    ensures
        char_pieces(r@) == split_spec(s@, d),
{
    let mut out: Vec<Vec<char>> = Vec::new();
    let mut cur: Vec<char> = Vec::new();
    let mut i: usize = 0;
    while i < s.len()
        invariant
            i <= s.len(),
            char_pieces(out@).push(cur@) == split_spec(s@.take(i as int), d),
        decreases s.len() - i,
    {
        let c = s[i];
        proof {
            assert(s@.take(i + 1).drop_last() =~= s@.take(i as int));
            lemma_split_nonempty(s@.take(i as int), d);
        }
        if c == d {
            out.push(cur);
            cur = Vec::new();
            assert(char_pieces(out@).push(cur@) =~= split_spec(s@.take(i + 1), d));
        } else {
            cur.push(c);
            assert(char_pieces(out@).push(cur@) =~= split_spec(s@.take(i + 1), d));
        }
        i += 1;
    }
    out.push(cur);
    proof {
        assert(s@.take(s.len() as int) =~= s@);
    }
    out
}

/// The whitespace-separated words of `s`.
pub fn split_words(s: &[char]) -> (r: Vec<String>)
    ensures
        strs(r@) == words(s@),
{
    let mut out: Vec<String> = Vec::new();
    let mut cur: Vec<char> = Vec::new();
    let ghost done: Seq<Seq<char>> = Seq::empty();
    let mut i: usize = 0;
    while i < s.len()
        invariant
            i <= s.len(),
            done.push(cur@) == split_ws_spec(s@.take(i as int)),
            strs(out@) == keep_nonempty(done),
        decreases s.len() - i,
    {
        let c = s[i];
        proof {
            assert(s@.take(i + 1).drop_last() =~= s@.take(i as int));
            lemma_split_ws_nonempty(s@.take(i as int));
        }
        if is_whitespace(c) {
            let ghost prev = done;
            proof {
                done = done.push(cur@);
                assert(done.drop_last() =~= prev);
            }
            if cur.len() > 0 {
                let w = string_of(cur.as_slice());
                out.push(w);
                assert(strs(out@) =~= keep_nonempty(done));
            }
            cur = Vec::new();
            assert(done.push(cur@) =~= split_ws_spec(s@.take(i + 1)));
        } else {
            cur.push(c);
            assert(done.push(cur@) =~= split_ws_spec(s@.take(i + 1)));
        }
        i += 1;
    }
    let ghost prev = done;
    proof {
        done = done.push(cur@);
        assert(done.drop_last() =~= prev);
        assert(s@.take(s.len() as int) =~= s@);
    }
    if cur.len() > 0 {
        let w = string_of(cur.as_slice());
        out.push(w);
        assert(strs(out@) =~= keep_nonempty(done));
    }
    out
}

/// Bounds `(a, b)` such that `s[a..b]` is `s[lo..hi]` trimmed of whitespace.
pub fn trim_range(s: &[char], lo: usize, hi: usize) -> (r: (usize, usize))
    requires
        lo <= hi <= s@.len(),
    ensures
        lo <= r.0 <= r.1 <= hi,
        s@.subrange(r.0 as int, r.1 as int) == trim(s@.subrange(lo as int, hi as int)),
{
    let mut a: usize = lo;
    while a < hi && is_whitespace(s[a])
        invariant
            lo <= a <= hi <= s@.len(),
            trim_start(s@.subrange(lo as int, hi as int)) == trim_start(
                s@.subrange(a as int, hi as int),
            ),
        decreases hi - a,
    {
        assert(s@.subrange(a as int, hi as int).drop_first() =~= s@.subrange(
            a + 1,
            hi as int,
        ));
        a += 1;
    }
    let mut b: usize = hi;
    while b > a && is_whitespace(s[b - 1])
        invariant
            lo <= a <= b <= hi <= s@.len(),
            trim_end(s@.subrange(a as int, hi as int)) == trim_end(
                s@.subrange(a as int, b as int),
            ),
        decreases b - a,
    {
        assert(s@.subrange(a as int, b as int).drop_last() =~= s@.subrange(
            a as int,
            b - 1,
        ));
        b -= 1;
    }
    (a, b)
}

/// The first `min(8, len)` characters of `oid`.
pub fn abbreviate_oid(oid: &str) -> (r: String)
    ensures
        r@ == short_of(oid@),
        r@.len() == if oid@.len() < 8 { oid@.len() } else { 8 },
        r@ == oid@.take(r@.len() as int),
{
    let n = oid.unicode_len();
    let k: usize = if n < 8 { n } else { 8 };
    let r = oid.substring_char(0, k).to_owned();
    proof {
        assert(oid@.take(n as int) =~= oid@);
    }
    r
}

} // verus!
