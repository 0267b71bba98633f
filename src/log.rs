//! Reading the records that `git log` prints into commit nodes.

use vstd::prelude::*;
use crate::decorations::{classify, CommitDecorations};
use crate::error::GitGraphError;
use crate::number::{i64_of_text, parse_i64};
use crate::text::{
    abbreviate_oid, char_pieces, chars_of, is_blank, is_whitespace, short_of, split_chars,
    split_spec, split_words, string_of, strs, words,
};

verus! {

/// Separates the fields of one record.
pub const FIELD_DELIMITER: char = '\x1f';

/// Ends each record.
pub const RECORD_DELIMITER: char = '\x1e';

/// One commit of the log.
#[derive(Debug, Clone)]
pub struct CommitNode {
    /// The full commit hash.
    pub oid: String,
    /// The first eight characters of `oid` (all of it, if shorter).
    pub short_oid: String,
    /// The parent hashes, in the order the log gives them.
    pub parents: Vec<String>,
    pub author: String,
    pub author_email: String,
    /// When the commit was made, relative to now, in words.
    pub relative_time: String,
    /// When the commit was made, in ISO 8601.
    pub committed_at: String,
    /// When the commit was made, in Unix seconds.
    pub committed_timestamp: i64,
    /// The first line of the commit message.
    pub summary: String,
    pub decorations: CommitDecorations,
}

/// The `k`-th of `ps`, or the empty text where there are fewer pieces.
pub open spec fn nth_piece(ps: Seq<Seq<char>>, k: int) -> Seq<char> {
    if 0 <= k < ps.len() {
        ps[k]
    } else {
        Seq::empty()
    }
}

/// The `k`-th field of a record (counting from zero); a missing field is empty.
pub open spec fn field(rec: Seq<char>, k: int) -> Seq<char> {
    nth_piece(split_spec(rec, FIELD_DELIMITER), k)
}

/// A record that reads as a commit: it has a hash, and its Unix time is an `i64`.
pub open spec fn record_valid(rec: Seq<char>) -> bool {
    field(rec, 0).len() > 0 && i64_of_text(field(rec, 6)) is Some
}

/// `e` is the error that the invalid record `rec` gives: a missing hash, or else a
/// Unix time that is no `i64`.
pub open spec fn record_error(e: GitGraphError, rec: Seq<char>) -> bool {
    &&& e is Parse
    &&& field(rec, 0).len() == 0 ==> e->Parse_0@ == "missing commit hash"@
    &&& field(rec, 0).len() > 0 ==> e->Parse_0@.take(23) == "timestamp parse error: "@
}

/// `e` is the error of the first record of the log that does not read.
pub open spec fn log_error(e: GitGraphError, raw: Seq<char>) -> bool {
    exists|k: int|
        0 <= k < log_records(raw).len() && !record_valid(#[trigger] log_records(raw)[k])
            && record_error(e, log_records(raw)[k]) && forall|j: int|
            0 <= j < k ==> record_valid(#[trigger] log_records(raw)[j])
}

/// `n` is the commit that the record `rec` describes.
pub open spec fn node_matches(n: CommitNode, rec: Seq<char>) -> bool {
    &&& n.oid@ == field(rec, 0)
    &&& n.short_oid@ == short_of(field(rec, 0))
    &&& strs(n.parents@) == words(field(rec, 1))
    &&& n.author@ == field(rec, 2)
    &&& n.author_email@ == field(rec, 3)
    &&& n.relative_time@ == field(rec, 4)
    &&& n.committed_at@ == field(rec, 5)
    &&& n.committed_timestamp as int == i64_of_text(field(rec, 6))->Some_0
    &&& n.summary@ == field(rec, 7)
    &&& n.decorations@ == classify(field(rec, 8))
}

/// The pieces of `ps` that hold more than whitespace, in order.
pub open spec fn keep_nonblank(ps: Seq<Seq<char>>) -> Seq<Seq<char>>
    decreases ps.len(),
{
    if ps.len() == 0 {
        Seq::empty()
    } else if is_blank(ps.last()) {
        keep_nonblank(ps.drop_last())
    } else {
        keep_nonblank(ps.drop_last()).push(ps.last())
    }
}

/// The records of a log: the pieces between record delimiters that hold more than
/// whitespace.
pub open spec fn log_records(raw: Seq<char>) -> Seq<Seq<char>> {
    keep_nonblank(split_spec(raw, RECORD_DELIMITER))
}

/// Every record of the log reads as a commit.
pub open spec fn log_valid(raw: Seq<char>) -> bool {
    forall|i: int|
        0 <= i < log_records(raw).len() ==> record_valid(#[trigger] log_records(raw)[i])
}

/// `nodes` are the commits that `recs` describe, one for one.
pub open spec fn nodes_match(nodes: Seq<CommitNode>, recs: Seq<Seq<char>>) -> bool {
    nodes.len() == recs.len() && forall|i: int|
        0 <= i < nodes.len() ==> node_matches(#[trigger] nodes[i], recs[i])
}

fn is_blank_chars(s: &[char]) -> (r: bool)
    ensures
        r == is_blank(s@),
{
    let mut i: usize = 0;
    while i < s.len()
        invariant
            i <= s.len(),
            forall|j: int| 0 <= j < i ==> crate::text::is_ws(#[trigger] s@[j]),
        decreases s.len() - i,
    {
        if !is_whitespace(s[i]) {
            return false;
        }
        i += 1;
    }
    true
}

/// The `k`-th piece, or `empty` where there are fewer pieces.
fn piece<'a>(ps: &'a Vec<Vec<char>>, empty: &'a Vec<char>, k: usize) -> (r: &'a [char])
    requires
        empty@.len() == 0,
    ensures
        r@ == nth_piece(char_pieces(ps@), k as int),
{
    if k < ps.len() {
        ps[k].as_slice()
    } else {
        empty.as_slice()
    }
}

/// Reads one record, given as characters, into a commit.
fn parse_fields(rec: &[char]) -> (r: Result<CommitNode, GitGraphError>)
    ensures
        r is Ok <==> record_valid(rec@),
        r is Ok ==> node_matches(r->Ok_0, rec@),
        r is Err ==> record_error(r->Err_0, rec@),
{
    let fields = split_chars(rec, FIELD_DELIMITER);
    let empty: Vec<char> = Vec::new();
    let oid_chars = piece(&fields, &empty, 0);
    if oid_chars.len() == 0 {
        let cause = String::from_str("missing commit hash");
        return Err(GitGraphError::Parse(cause));
    }
    let oid = string_of(oid_chars);
    let stamp_text = string_of(piece(&fields, &empty, 6));
    let committed_timestamp = match parse_i64(stamp_text.as_str()) {
        Ok(v) => v,
        Err(err) => {
            let detail = err.to_string();
            let cause = String::from_str("timestamp parse error: ").concat(detail.as_str());
            proof {
                reveal_strlit("timestamp parse error: ");
                assert(cause@.take(23) =~= "timestamp parse error: "@);
            }
            return Err(GitGraphError::Parse(cause));
        },
    };
    let short_oid = abbreviate_oid(oid.as_str());
    Ok(CommitNode {
        oid,
        short_oid,
        parents: split_words(piece(&fields, &empty, 1)),
        author: string_of(piece(&fields, &empty, 2)),
        author_email: string_of(piece(&fields, &empty, 3)),
        relative_time: string_of(piece(&fields, &empty, 4)),
        committed_at: string_of(piece(&fields, &empty, 5)),
        committed_timestamp,
        summary: string_of(piece(&fields, &empty, 7)),
        decorations: CommitDecorations::from_chars(piece(&fields, &empty, 8)),
    })
}

/// Reads one record (the fields of one commit, between field delimiters) into a commit.
pub fn parse_record(record: &str) -> (r: Result<CommitNode, GitGraphError>)
    ensures
        r is Ok <==> record_valid(record@),
        r is Ok ==> node_matches(r->Ok_0, record@),
        r is Err ==> record_error(r->Err_0, record@),
{
    let cs = chars_of(record);
    parse_fields(cs.as_slice())
}

/// Reads a whole log into its commits, in order; fails if any record is malformed.
pub fn parse_git_log(raw_output: &str) -> (r: Result<Vec<CommitNode>, GitGraphError>)
    ensures
        r is Ok <==> log_valid(raw_output@),
        r is Ok ==> nodes_match(r->Ok_0@, log_records(raw_output@)),
        r is Err ==> log_error(r->Err_0, raw_output@),
{
    let cs = chars_of(raw_output);
    let pieces = split_chars(cs.as_slice(), RECORD_DELIMITER);
    let ghost ps = char_pieces(pieces@);
    let mut nodes: Vec<CommitNode> = Vec::new();
    let mut k: usize = 0;
    while k < pieces.len()
        invariant
            k <= pieces@.len(),
            ps == char_pieces(pieces@),
            ps == split_spec(raw_output@, RECORD_DELIMITER),
            nodes_match(nodes@, keep_nonblank(ps.take(k as int))),
            forall|i: int|
                0 <= i < keep_nonblank(ps.take(k as int)).len() ==> record_valid(
                    #[trigger] keep_nonblank(ps.take(k as int))[i],
                ),
        decreases pieces.len() - k,
    {
        let p = pieces[k].as_slice();
        proof {
            assert(ps.take(k + 1).drop_last() =~= ps.take(k as int));
            assert(ps.take(k + 1).last() == p@);
        }
        if !is_blank_chars(p) {
            match parse_fields(p) {
                Ok(node) => {
                    nodes.push(node);
                    let ghost recs = keep_nonblank(ps.take(k + 1));
                    assert(recs == keep_nonblank(ps.take(k as int)).push(p@));
                    assert forall|i: int| 0 <= i < nodes@.len() implies node_matches(
                        #[trigger] nodes@[i],
                        recs[i],
                    ) by {
                        if i < nodes@.len() - 1 {
                            assert(nodes@[i] == nodes@.drop_last()[i]);
                        }
                    }
                },
                Err(e) => {
                    proof {
                        assert(ps[k as int] == p@);
                        lemma_kept_prefix(ps, k + 1);
                        let m = keep_nonblank(ps.take(k as int)).len() as int;
                        let recs = log_records(raw_output@);
                        assert(recs == keep_nonblank(ps));
                        assert(keep_nonblank(ps.take(k + 1)) == keep_nonblank(ps.take(k as int)).push(p@));
                        assert(recs.take(m + 1) == keep_nonblank(ps.take(k + 1)));
                        assert(recs.take(m + 1)[m] == recs[m]);
                        assert(recs[m] == p@);
                        assert forall|j: int| 0 <= j < m implies record_valid(#[trigger] recs[j]) by {
                            assert(recs.take(m + 1)[j] == recs[j]);
                            assert(keep_nonblank(ps.take(k + 1))[j] == keep_nonblank(ps.take(k as int))[j]);
                        }
                        assert(!log_valid(raw_output@));
                        assert(log_error(e, raw_output@));
                    }
                    return Err(e);
                },
            }
        }
        k += 1;
    }
    proof {
        assert(ps.take(pieces@.len() as int) =~= ps);
    }
    Ok(nodes)
}

/// A log without any record that holds more than whitespace (the empty log, or one of
/// delimiters and blanks only) reads as no commits, and not as an error.
pub proof fn lemma_blank_log_is_empty(raw: Seq<char>)
    requires
        forall|i: int|
            0 <= i < split_spec(raw, RECORD_DELIMITER).len() ==> is_blank(
                #[trigger] split_spec(raw, RECORD_DELIMITER)[i],
            ),
    ensures
        log_records(raw).len() == 0,
        log_valid(raw),
{
    lemma_all_blank_dropped(split_spec(raw, RECORD_DELIMITER));
}

proof fn lemma_all_blank_dropped(ps: Seq<Seq<char>>)
    requires
        forall|i: int| 0 <= i < ps.len() ==> is_blank(#[trigger] ps[i]),
    ensures
        keep_nonblank(ps).len() == 0,
    decreases ps.len(),
{
    if ps.len() > 0 {
        assert(is_blank(ps[ps.len() - 1]));
        assert forall|i: int| 0 <= i < ps.drop_last().len() implies is_blank(
            #[trigger] ps.drop_last()[i],
        ) by {
            assert(ps.drop_last()[i] == ps[i]);
        }
        lemma_all_blank_dropped(ps.drop_last());
    }
}

/// A record delimiter at the end of a log adds no record: the log reads as the same
/// commits with it and without it.
pub proof fn lemma_trailing_delimiter(raw: Seq<char>)
    ensures
        log_records(raw.push(RECORD_DELIMITER)) == log_records(raw),
        log_valid(raw.push(RECORD_DELIMITER)) == log_valid(raw),
{
    let r2 = raw.push(RECORD_DELIMITER);
    assert(r2.drop_last() =~= raw);
    assert(split_spec(r2, RECORD_DELIMITER) == split_spec(raw, RECORD_DELIMITER).push(
        Seq::empty(),
    ));
    assert(is_blank(Seq::<char>::empty()));
    assert(split_spec(r2, RECORD_DELIMITER).drop_last() =~= split_spec(raw, RECORD_DELIMITER));
}

/// The short hash of every commit read from a record is the first `min(8, len)`
/// characters of its full hash.
pub proof fn lemma_short_oid_prefix(n: CommitNode, rec: Seq<char>)
    requires
        node_matches(n, rec),
    ensures
        n.short_oid@.len() == if n.oid@.len() < 8 { n.oid@.len() } else { 8 },
        n.short_oid@ == n.oid@.take(n.short_oid@.len() as int),
{
    if n.oid@.len() < 8 {
        assert(n.oid@.take(n.oid@.len() as int) =~= n.oid@);
    }
}

/// The records kept from the first `i` pieces begin the records kept from all of them.
proof fn lemma_kept_prefix(ps: Seq<Seq<char>>, i: int)
    requires
        0 <= i <= ps.len(),
    ensures
        keep_nonblank(ps.take(i)).len() <= keep_nonblank(ps).len(),
        keep_nonblank(ps).take(keep_nonblank(ps.take(i)).len() as int) == keep_nonblank(
            ps.take(i),
        ),
    decreases ps.len(),
{
    if i == ps.len() {
        assert(ps.take(i) =~= ps);
        assert(keep_nonblank(ps).take(keep_nonblank(ps).len() as int) =~= keep_nonblank(ps));
    } else {
        assert(ps.take(i) =~= ps.drop_last().take(i));
        lemma_kept_prefix(ps.drop_last(), i);
        let a = keep_nonblank(ps.drop_last());
        let n = keep_nonblank(ps.take(i)).len() as int;
        if !is_blank(ps.last()) {
            assert(a.push(ps.last()).take(n) =~= a.take(n));
        }
    }
}

} // verus!
