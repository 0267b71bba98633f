//! Classification of the ref decorations that `git log` prints beside a commit.

use vstd::prelude::*;
use crate::text::{
    chars_of, split_chars, split_spec, string_of, trim, trim_range, char_pieces, strs,
};

verus! {

/// The refs that point at one commit, sorted by kind.
#[derive(Debug, Clone, Default)]
pub struct CommitDecorations {
    /// The branch that `HEAD` points to through this commit, if any.
    pub head: Option<String>,
    /// Tag names, in the order they were listed.
    pub tags: Vec<String>,
    /// Branch names without a `/`.
    pub local_branches: Vec<String>,
    /// Ref names with a `/`, taken as `remote/branch`.
    pub remote_branches: Vec<String>,
}

/// What a `CommitDecorations` holds, as plain sequences.
pub struct DecorationsView {
    pub head: Option<Seq<char>>,
    pub tags: Seq<Seq<char>>,
    pub local_branches: Seq<Seq<char>>,
    pub remote_branches: Seq<Seq<char>>,
}

impl View for CommitDecorations {
    type V = DecorationsView;

    open spec fn view(&self) -> DecorationsView {
        DecorationsView {
            head: match self.head {
                Some(h) => Some(h@),
                None => None,
            },
            tags: strs(self.tags@),
            local_branches: strs(self.local_branches@),
            remote_branches: strs(self.remote_branches@),
        }
    }
}

/// No refs at all.
pub open spec fn no_decorations() -> DecorationsView {
    DecorationsView {
        head: None,
        tags: Seq::empty(),
        local_branches: Seq::empty(),
        remote_branches: Seq::empty(),
    }
}

/// The text that marks the ref that `HEAD` points to.
pub open spec fn head_marker() -> Seq<char> {
    seq!['H', 'E', 'A', 'D', ' ', '-', '>', ' ']
}

/// The text that marks a tag.
pub open spec fn tag_marker() -> Seq<char> {
    seq!['t', 'a', 'g', ':', ' ']
}

pub open spec fn starts_with(t: Seq<char>, p: Seq<char>) -> bool {
    p.len() <= t.len() && t.take(p.len() as int) == p
}

pub open spec fn is_head_token(t: Seq<char>) -> bool {
    starts_with(t, head_marker())
}

pub open spec fn is_tag_token(t: Seq<char>) -> bool {
    !is_head_token(t) && starts_with(t, tag_marker())
}

pub open spec fn is_remote_token(t: Seq<char>) -> bool {
    !is_head_token(t) && !is_tag_token(t) && t.contains('/')
}

pub open spec fn is_local_token(t: Seq<char>) -> bool {
    !is_head_token(t) && !is_tag_token(t) && !t.contains('/')
}

/// `m` with the trimmed token `t` filed under its kind; an empty token changes nothing.
pub open spec fn add_token(m: DecorationsView, t: Seq<char>) -> DecorationsView {
    if t.len() == 0 {
        m
    } else if is_head_token(t) {
        DecorationsView { head: Some(trim(t.skip(head_marker().len() as int))), ..m }
    } else if is_tag_token(t) {
        DecorationsView { tags: m.tags.push(trim(t.skip(tag_marker().len() as int))), ..m }
    } else if t.contains('/') {
        DecorationsView { remote_branches: m.remote_branches.push(t), ..m }
    } else {
        DecorationsView { local_branches: m.local_branches.push(t), ..m }
    }
}

/// The refs named by the comma-separated pieces `ps`, each trimmed, in order.
pub open spec fn decorations_of(ps: Seq<Seq<char>>) -> DecorationsView
    decreases ps.len(),
{
    if ps.len() == 0 {
        no_decorations()
    } else {
        add_token(decorations_of(ps.drop_last()), trim(ps.last()))
    }
}

/// The refs named by a raw decoration field.
pub open spec fn classify(raw: Seq<char>) -> DecorationsView {
    decorations_of(split_spec(raw, ','))
}

/// The trimmed, non-empty tokens of the comma-separated pieces `ps`, in order.
pub open spec fn decoration_tokens(ps: Seq<Seq<char>>) -> Seq<Seq<char>>
    decreases ps.len(),
{
    if ps.len() == 0 {
        Seq::empty()
    } else if trim(ps.last()).len() == 0 {
        decoration_tokens(ps.drop_last())
    } else {
        decoration_tokens(ps.drop_last()).push(trim(ps.last()))
    }
}

/// How many of `ts` point `HEAD` at a branch.
pub open spec fn head_count(ts: Seq<Seq<char>>) -> int
    decreases ts.len(),
{
    if ts.len() == 0 {
        0
    } else {
        head_count(ts.drop_last()) + if is_head_token(ts.last()) { 1int } else { 0 }
    }
}

/// How many kinds a token is of.
pub open spec fn kind_count(t: Seq<char>) -> int {
    (if is_head_token(t) { 1int } else { 0 }) + (if is_tag_token(t) { 1int } else { 0 }) + (
    if is_remote_token(t) { 1int } else { 0 }) + (if is_local_token(t) { 1int } else { 0 })
}

/// Every token is of exactly one kind: `HEAD` target, tag, remote or local branch.
pub proof fn lemma_token_kind_unique(t: Seq<char>)
    ensures
        kind_count(t) == 1,
{
}

/// Classifying loses no token and files none twice: every non-empty trimmed token
/// lands in exactly one of `head`, `tags`, `local_branches` and `remote_branches`; a
/// token with a `/` and neither marker is a remote branch; no local branch holds `/`.
pub proof fn lemma_classification_partitions(raw: Seq<char>)
    ensures
        ({
            let ts = decoration_tokens(split_spec(raw, ','));
            let m = classify(raw);
            &&& m.tags.len() + m.local_branches.len() + m.remote_branches.len() + head_count(ts)
                == ts.len()
            &&& (m.head is Some <==> head_count(ts) > 0)
            &&& forall|i: int|
                0 <= i < ts.len() && is_remote_token(#[trigger] ts[i])
                    ==> m.remote_branches.contains(ts[i])
            &&& forall|j: int|
                0 <= j < m.local_branches.len() ==> !(#[trigger] m.local_branches[j]).contains(
                    '/',
                )
        }),
{
    lemma_pieces_partition(split_spec(raw, ','));
}

proof fn lemma_pieces_partition(ps: Seq<Seq<char>>)
    ensures
        ({
            let ts = decoration_tokens(ps);
            let m = decorations_of(ps);
            &&& head_count(ts) >= 0
            &&& m.tags.len() + m.local_branches.len() + m.remote_branches.len() + head_count(ts)
                == ts.len()
            &&& (m.head is Some <==> head_count(ts) > 0)
            &&& forall|i: int|
                0 <= i < ts.len() && is_remote_token(#[trigger] ts[i])
                    ==> m.remote_branches.contains(ts[i])
            &&& forall|j: int|
                0 <= j < m.local_branches.len() ==> !(#[trigger] m.local_branches[j]).contains(
                    '/',
                )
        }),
    decreases ps.len(),
{
    if ps.len() > 0 {
        lemma_pieces_partition(ps.drop_last());
        let ts0 = decoration_tokens(ps.drop_last());
        let m0 = decorations_of(ps.drop_last());
        let t = trim(ps.last());
        let ts = decoration_tokens(ps);
        let m = decorations_of(ps);
        if t.len() > 0 {
            assert(ts.drop_last() =~= ts0);
            assert forall|i: int|
                0 <= i < ts.len() && is_remote_token(#[trigger] ts[i]) implies m.remote_branches.contains(
                ts[i],
            ) by {
                if i < ts.len() - 1 {
                    assert(ts[i] == ts0[i]);
                    let k = choose|k: int|
                        0 <= k < m0.remote_branches.len() && m0.remote_branches[k] == ts0[i];
                    if is_remote_token(t) {
                        assert(m.remote_branches[k] == m0.remote_branches[k]);
                    }
                } else {
                    assert(m.remote_branches.last() == t);
                }
            }
            assert forall|j: int|
                0 <= j < m.local_branches.len() implies !(#[trigger] m.local_branches[j]).contains(
                '/',
            ) by {
                if j < m0.local_branches.len() {
                    assert(m.local_branches[j] == m0.local_branches[j]);
                }
            }
        }
    }
}

fn head_marker_chars() -> (r: Vec<char>)
    ensures
        r@ == head_marker(),
{
    let mut v: Vec<char> = Vec::new();
    v.push('H');
    v.push('E');
    v.push('A');
    v.push('D');
    v.push(' ');
    v.push('-');
    v.push('>');
    v.push(' ');
    assert(v@ =~= head_marker());
    v
}

fn tag_marker_chars() -> (r: Vec<char>)
    ensures
        r@ == tag_marker(),
{
    let mut v: Vec<char> = Vec::new();
    v.push('t');
    v.push('a');
    v.push('g');
    v.push(':');
    v.push(' ');
    assert(v@ =~= tag_marker());
    v
}

/// Whether `s[a..b]` starts with `p`.
fn has_prefix(s: &[char], a: usize, b: usize, p: &Vec<char>) -> (r: bool)
    requires
        a <= b <= s@.len(),
    ensures
        r == starts_with(s@.subrange(a as int, b as int), p@),
{
    if b - a < p.len() {
        return false;
    }
    let mut i: usize = 0;
    while i < p.len()
        invariant
            a <= b <= s@.len(),
            p@.len() <= b - a,
            i <= p@.len(),
            forall|j: int| 0 <= j < i ==> s@[a + j] == p@[j],
        decreases p.len() - i,
    {
        if s[a + i] != p[i] {
            assert(s@.subrange(a as int, b as int).take(p@.len() as int)[i as int] != p@[i as int]);
            return false;
        }
        i += 1;
    }
    assert(s@.subrange(a as int, b as int).take(p@.len() as int) =~= p@);
    true
}

/// Whether `s[a..b]` holds a `/`.
fn has_slash(s: &[char], a: usize, b: usize) -> (r: bool)
    requires
        a <= b <= s@.len(),
    ensures
        r == s@.subrange(a as int, b as int).contains('/'),
{
    let mut i: usize = a;
    while i < b
        invariant
            a <= i <= b <= s@.len(),
            forall|j: int| a <= j < i ==> s@[j] != '/',
        decreases b - i,
    {
        if s[i] == '/' {
            assert(s@.subrange(a as int, b as int)[i - a] == '/');
            return true;
        }
        i += 1;
    }
    assert(!s@.subrange(a as int, b as int).contains('/')) by {
        if s@.subrange(a as int, b as int).contains('/') {
            let k = choose|k: int|
                0 <= k < (b - a) && s@.subrange(a as int, b as int)[k] == '/';
            assert(s@[a + k] == '/');
        }
    }
    false
}

/// The characters of `s[a..b]` as a string.
fn string_of_range(s: &[char], a: usize, b: usize) -> (r: String)
    requires
        a <= b <= s@.len(),
    ensures
        r@ == s@.subrange(a as int, b as int),
{
    string_of(vstd::slice::slice_subrange(s, a, b))
}

impl CommitDecorations {
    /// Sorts the comma-separated refs of a raw decoration field by kind.
    pub fn from_raw(raw: &str) -> (r: CommitDecorations)
        ensures
            r@ == classify(raw@),
    {
        let cs = chars_of(raw);
        Self::from_chars(cs.as_slice())
    }

    /// Sorts the comma-separated refs of a raw decoration field, given as characters.
    pub fn from_chars(raw: &[char]) -> (r: CommitDecorations)
        ensures
            r@ == classify(raw@),
    {
        let head_m = head_marker_chars();
        let tag_m = tag_marker_chars();
        let pieces = split_chars(raw, ',');
        let mut d = CommitDecorations {
            head: None,
            tags: Vec::new(),
            local_branches: Vec::new(),
            remote_branches: Vec::new(),
        };
        proof {
            assert(strs(d.tags@) =~= Seq::empty());
            assert(strs(d.local_branches@) =~= Seq::empty());
            assert(strs(d.remote_branches@) =~= Seq::empty());
        }
        let mut k: usize = 0;
        while k < pieces.len()
            invariant
                k <= pieces@.len(),
                char_pieces(pieces@) == split_spec(raw@, ','),
                head_m@ == head_marker(),
                tag_m@ == tag_marker(),
                d@ == decorations_of(char_pieces(pieces@).take(k as int)),
            decreases pieces.len() - k,
        {
            let p = pieces[k].as_slice();
            let ghost ps = char_pieces(pieces@);
            proof {
                assert(ps.take(k + 1).drop_last() =~= ps.take(k as int));
                assert(p@ =~= p@.subrange(0, p@.len() as int));
            }
            let (a, b) = trim_range(p, 0, p.len());
            let ghost t = p@.subrange(a as int, b as int);
            let ghost before = d@;
            if a == b {
            } else if has_prefix(p, a, b, &head_m) {
                let (x, y) = trim_range(p, a + head_m.len(), b);
                assert(t.skip(head_m@.len() as int) =~= p@.subrange(a + head_m@.len(), b as int));
                d.head = Some(string_of_range(p, x, y));
            } else if has_prefix(p, a, b, &tag_m) {
                let (x, y) = trim_range(p, a + tag_m.len(), b);
                assert(t.skip(tag_m@.len() as int) =~= p@.subrange(a + tag_m@.len(), b as int));
                d.tags.push(string_of_range(p, x, y));
                assert(strs(d.tags@) =~= before.tags.push(trim(t.skip(tag_marker().len() as int))));
            } else if has_slash(p, a, b) {
                d.remote_branches.push(string_of_range(p, a, b));
                assert(strs(d.remote_branches@) =~= before.remote_branches.push(t));
            } else {
                d.local_branches.push(string_of_range(p, a, b));
                assert(strs(d.local_branches@) =~= before.local_branches.push(t));
            }
            k += 1;
        }
        assert(char_pieces(pieces@).take(pieces@.len() as int) =~= char_pieces(pieces@));
        d
    }
}

} // verus!
