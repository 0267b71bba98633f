//! The commit graph: the retained commits, the edges between them, and whether the
//! log held more commits than were asked for.

use vstd::prelude::*;
use crate::error::GitGraphError;
use crate::log::{log_error, log_records, log_valid, nodes_match, parse_git_log, CommitNode};
use crate::text::strs;

verus! {

/// The limit used when none is given.
pub const DEFAULT_LIMIT: usize = 400;

/// The largest limit honoured.
pub const MAX_LIMIT: usize = 2000;

/// A link from a commit to one of its parents.
#[derive(Debug, Clone)]
pub struct GraphEdge {
    pub child: String,
    pub parent: String,
}

/// Commits, the edges from each to its parents, and whether commits were left out.
#[derive(Debug, Clone)]
pub struct GitGraph {
    pub commits: Vec<CommitNode>,
    pub edges: Vec<GraphEdge>,
    pub truncated: bool,
}

/// An edge as a pair (child hash, parent hash).
pub open spec fn edge_view(e: GraphEdge) -> (Seq<char>, Seq<char>) {
    (e.child@, e.parent@)
}

pub open spec fn edge_views(es: Seq<GraphEdge>) -> Seq<(Seq<char>, Seq<char>)> {
    es.map_values(|e: GraphEdge| edge_view(e))
}

/// One edge from `n` to each of its parents, in parent order.
pub open spec fn parent_edges(n: CommitNode) -> Seq<(Seq<char>, Seq<char>)> {
    strs(n.parents@).map_values(|p: Seq<char>| (n.oid@, p))
}

/// The edges of the commits `cs`: commit by commit, parent by parent.
pub open spec fn edges_of(cs: Seq<CommitNode>) -> Seq<(Seq<char>, Seq<char>)>
    decreases cs.len(),
{
    if cs.len() == 0 {
        Seq::empty()
    } else {
        edges_of(cs.drop_last()) + parent_edges(cs.last())
    }
}

/// The number of parents over all of `cs`.
pub open spec fn parent_total(cs: Seq<CommitNode>) -> int
    decreases cs.len(),
{
    if cs.len() == 0 {
        0
    } else {
        parent_total(cs.drop_last()) + cs.last().parents@.len()
    }
}

/// A requested limit brought into `[1, MAX_LIMIT]`.
pub open spec fn clamp_limit(limit: int) -> int {
    if limit < 1 {
        1
    } else if limit > MAX_LIMIT {
        MAX_LIMIT as int
    } else {
        limit
    }
}

/// How many commits to ask the log for: one more than the limit, to see whether
/// there are more.
pub open spec fn fetch_count(limit: int) -> int {
    clamp_limit(limit) + 1
}

/// Whether `parsed` commits, fetched for `limit`, reach the fetch count.
pub open spec fn truncation_flag(parsed: Seq<CommitNode>, limit: int) -> bool {
    parsed.len() >= fetch_count(limit)
}

/// The commits of `parsed`, fetched for `limit`, that the graph keeps.
pub open spec fn kept_commits(parsed: Seq<CommitNode>, limit: int) -> Seq<CommitNode> {
    if parsed.len() > clamp_limit(limit) {
        parsed.take(clamp_limit(limit))
    } else {
        parsed
    }
}

/// `g` is the graph of `commits`, with the given flag.
pub open spec fn graph_of(g: GitGraph, commits: Seq<CommitNode>, truncated: bool) -> bool {
    &&& g.commits@ == commits
    &&& edge_views(g.edges@) == edges_of(commits)
    &&& g.truncated == truncated
}

/// Fetching one commit past the limit tells whether there were more: when the log
/// gives exactly `limit + 1` commits, the graph is truncated to `limit` of them; when
/// it gives fewer, the graph is not truncated and keeps them all.
pub proof fn lemma_truncation(parsed: Seq<CommitNode>, limit: int)
    ensures
        parsed.len() == fetch_count(limit) ==> truncation_flag(parsed, limit) && kept_commits(
            parsed,
            limit,
        ).len() == clamp_limit(limit) && kept_commits(parsed, limit) == parsed.take(
            clamp_limit(limit),
        ),
        parsed.len() < fetch_count(limit) ==> !truncation_flag(parsed, limit) && kept_commits(
            parsed,
            limit,
        ) == parsed,
{
}

/// A graph has as many edges as its commits have parents in all: a merge commit with
/// two parents gives two edges.
pub proof fn lemma_edge_count(cs: Seq<CommitNode>)
    ensures
        edges_of(cs).len() == parent_total(cs),
    decreases cs.len(),
{
    if cs.len() > 0 {
        lemma_edge_count(cs.drop_last());
    }
}

/// A requested limit brought into `[1, MAX_LIMIT]`.
pub fn sanitize_limit(limit: usize) -> (r: usize)
    ensures
        r as int == clamp_limit(limit as int),
        1 <= r <= MAX_LIMIT,
{
    if limit < 1 {
        1
    } else if limit > MAX_LIMIT {
        MAX_LIMIT
    } else {
        limit
    }
}

/// How many commits to ask the log for, given the requested limit.
pub fn fetch_limit(limit: usize) -> (r: usize)
    ensures
        r as int == fetch_count(limit as int),
{
    sanitize_limit(limit) + 1
}

impl GitGraph {
    /// The graph of `commits`: one edge per parent of each commit.
    pub fn new(commits: Vec<CommitNode>, truncated: bool) -> (r: GitGraph)
        ensures
            graph_of(r, commits@, truncated),
    {
        let mut edges: Vec<GraphEdge> = Vec::new();
        let mut i: usize = 0;
        while i < commits.len()
            invariant
                i <= commits@.len(),
                edge_views(edges@) == edges_of(commits@.take(i as int)),
            decreases commits.len() - i,
        {
            let commit = &commits[i];
            let ghost base = edge_views(edges@);
            let mut j: usize = 0;
            while j < commit.parents.len()
                invariant
                    i < commits@.len(),
                    *commit == commits@[i as int],
                    j <= commit.parents@.len(),
                    edge_views(edges@) == base + parent_edges(*commit).take(j as int),
                decreases commit.parents.len() - j,
            {
                let ghost prev = edges@;
                let e = GraphEdge { child: commit.oid.clone(), parent: commit.parents[j].clone() };
                assert(edge_view(e) == parent_edges(*commit)[j as int]);
                edges.push(e);
                assert(edges@ == prev.push(e));
                assert(edge_views(edges@) =~= edge_views(prev).push(edge_view(e)));
                assert(parent_edges(*commit).take(j + 1) =~= parent_edges(*commit).take(
                    j as int,
                ).push(edge_view(e)));
                assert(edge_views(edges@) =~= base + parent_edges(*commit).take(j + 1));
                j += 1;
            }
            proof {
                assert(commits@.take(i + 1).drop_last() =~= commits@.take(i as int));
                assert(parent_edges(*commit).take(j as int) =~= parent_edges(*commit));
            }
            i += 1;
        }
        proof {
            assert(commits@.take(commits@.len() as int) =~= commits@);
        }
        GitGraph { commits, edges, truncated }
    }

    /// The graph of commits parsed from a log that was asked for
    /// `fetch_limit(limit)` entries: past the limit, the extra commit is dropped
    /// and the graph is marked truncated.
    pub fn from_commits(commits: Vec<CommitNode>, limit: usize) -> (r: GitGraph)
        ensures
            graph_of(r, kept_commits(commits@, limit as int), truncation_flag(commits@, limit as int)),
    {
        let sanitized = sanitize_limit(limit);
        let fetch = sanitized + 1;
        let truncated = commits.len() >= fetch;
        let ghost parsed = commits@;
        let mut commits = commits;
        commits.truncate(sanitized);
        proof {
            if parsed.len() > sanitized {
                assert(commits@ =~= parsed.take(sanitized as int));
            } else {
                assert(commits@ =~= parsed);
            }
        }
        GitGraph::new(commits, truncated)
    }

    /// The graph of a log that was asked for `fetch_limit(limit)` entries.
    pub fn from_log(raw_output: &str, limit: usize) -> (r: Result<GitGraph, GitGraphError>)
        ensures
            r is Ok <==> log_valid(raw_output@),
            r is Ok ==> exists|parsed: Seq<CommitNode>|
                nodes_match(parsed, log_records(raw_output@)) && graph_of(
                    r->Ok_0,
                    kept_commits(parsed, limit as int),
                    truncation_flag(parsed, limit as int),
                ),
            r is Ok ==> r->Ok_0.truncated == (log_records(raw_output@).len() >= fetch_count(
                limit as int,
            )),
            r is Ok ==> r->Ok_0.commits@.len() == if log_records(raw_output@).len() > clamp_limit(
                limit as int,
            ) {
                clamp_limit(limit as int)
            } else {
                log_records(raw_output@).len() as int
            },
            r is Err ==> log_error(r->Err_0, raw_output@),
    {
        let commits = match parse_git_log(raw_output) {
            Ok(commits) => commits,
            Err(e) => return Err(e),
        };
        Ok(GitGraph::from_commits(commits, limit))
    }
}

} // verus!
