use git_graph::{
    abbreviate_oid, fetch_limit, parse_git_log, parse_record, sanitize_limit, CommitDecorations,
    CommitNode, GitGraph, GitGraphError, SlashCommandOptions, DEFAULT_LIMIT, FIELD_DELIMITER,
    MAX_LIMIT, RECORD_DELIMITER,
};

fn record(oid: &str, parents: &str, stamp: &str, decorations: &str) -> String {
    let fields = [
        oid,
        parents,
        "Jane Doe",
        "jd@example.com",
        "2 days ago",
        "2024-05-01T10:00:00Z",
        stamp,
        "Initial commit",
        decorations,
    ];
    let mut out = fields.join(&FIELD_DELIMITER.to_string());
    out.push(RECORD_DELIMITER);
    out
}

fn node(oid: &str, parents: &str) -> CommitNode {
    let raw = record(oid, parents, "100", "");
    let mut nodes = parse_git_log(&raw).expect("should parse");
    nodes.remove(0)
}

fn strings(v: &[&str]) -> Vec<String> {
    v.iter().map(|s| s.to_string()).collect()
}

#[test]
fn parse_simple_git_log() {
    let raw = format!(
        "abc123{sep}{sep}Jane Doe{sep}jd@example.com{sep}2 days ago{sep}2024-05-01T10:00:00Z{sep}1714557600{sep}Initial commit{sep}HEAD -> main, origin/main{rec}",
        sep = FIELD_DELIMITER,
        rec = RECORD_DELIMITER
    );
    let parsed = parse_git_log(&raw).expect("should parse");
    assert_eq!(parsed.len(), 1);
    let node = &parsed[0];
    assert_eq!(node.oid, "abc123");
    assert_eq!(node.parents.len(), 0);
    assert_eq!(node.decorations.head.as_deref(), Some("main"));
    assert_eq!(node.decorations.remote_branches, &["origin/main"]);
}

#[test]
fn simple_log_reads_every_field() {
    let raw = "abc123\x1f\x1fJane Doe\x1fjd@example.com\x1f2 days ago\x1f2024-05-01T10:00:00Z\x1f1714557600\x1fInitial commit\x1fHEAD -> main, origin/main\x1e";
    let parsed = parse_git_log(raw).expect("should parse");
    assert_eq!(parsed.len(), 1);
    let n = &parsed[0];
    assert_eq!(n.short_oid, "abc123");
    assert_eq!(n.author, "Jane Doe");
    assert_eq!(n.author_email, "jd@example.com");
    assert_eq!(n.relative_time, "2 days ago");
    assert_eq!(n.committed_at, "2024-05-01T10:00:00Z");
    assert_eq!(n.committed_timestamp, 1714557600);
    assert_eq!(n.summary, "Initial commit");
    assert!(n.decorations.local_branches.is_empty());
    assert!(n.decorations.tags.is_empty());
}

#[test]
fn empty_log_has_no_commits() {
    assert_eq!(parse_git_log("").expect("should parse").len(), 0);
}

#[test]
fn delimiters_only_log_has_no_commits() {
    let raw = "\x1e\x1e \n\x1e\t";
    assert_eq!(parse_git_log(raw).expect("should parse").len(), 0);
}

#[test]
fn trailing_delimiter_adds_no_commit() {
    let mut raw = record("aaa", "", "1", "");
    raw.push_str(&record("bbb", "aaa", "2", ""));
    let with_end = parse_git_log(&raw).expect("should parse");
    raw.pop();
    let without_end = parse_git_log(&raw).expect("should parse");
    assert_eq!(with_end.len(), 2);
    assert_eq!(without_end.len(), 2);
    assert_eq!(with_end[1].oid, "bbb");
    assert_eq!(without_end[1].oid, "bbb");
}

#[test]
fn short_oid_takes_eight_characters() {
    let n = node("0123456789abcdef0123456789abcdef01234567", "");
    assert_eq!(n.short_oid, "01234567");
    assert_eq!(abbreviate_oid("0123456789"), "01234567");
    assert_eq!(abbreviate_oid("01234567"), "01234567");
}

#[test]
fn short_oid_of_short_hash_is_whole_hash() {
    assert_eq!(node("abc", "").short_oid, "abc");
    assert_eq!(abbreviate_oid("a"), "a");
}

#[test]
fn parents_are_split_on_whitespace() {
    let n = node("m1", "p1  p2\tp3 ");
    assert_eq!(n.parents, strings(&["p1", "p2", "p3"]));
}

#[test]
fn decorations_are_classified_by_kind() {
    let d = CommitDecorations::from_raw(
        " HEAD -> main , tag: v1.0, origin/main, feature/x, dev, , tag:  v2 ",
    );
    assert_eq!(d.head.as_deref(), Some("main"));
    assert_eq!(d.tags, strings(&["v1.0", "v2"]));
    assert_eq!(d.remote_branches, strings(&["origin/main", "feature/x"]));
    assert_eq!(d.local_branches, strings(&["dev"]));
}

#[test]
fn empty_decorations_are_empty() {
    let d = CommitDecorations::from_raw("");
    assert_eq!(d.head, None);
    assert!(d.tags.is_empty());
    assert!(d.local_branches.is_empty());
    assert!(d.remote_branches.is_empty());
}

#[test]
fn last_head_token_wins() {
    let d = CommitDecorations::from_raw("HEAD -> one, HEAD -> two");
    assert_eq!(d.head.as_deref(), Some("two"));
    assert!(d.local_branches.is_empty());
}

#[test]
fn duplicate_tags_are_kept() {
    let d = CommitDecorations::from_raw("tag: v1, tag: v1");
    assert_eq!(d.tags, strings(&["v1", "v1"]));
}

#[test]
fn bad_timestamp_fails_whole_log() {
    let mut raw = record("aaa", "", "1714557600", "");
    raw.push_str(&record("bbb", "", "not-a-number", ""));
    raw.push_str(&record("ccc", "", "1714557601", ""));
    match parse_git_log(&raw) {
        Err(GitGraphError::Parse(cause)) => {
            assert!(cause.starts_with("timestamp parse error: "))
        }
        _ => panic!("expected a parse error"),
    }
}

#[test]
fn negative_timestamp_is_read() {
    let n = parse_record(&record("aaa", "", "-42", "")).expect("should parse");
    assert_eq!(n.committed_timestamp, -42);
}

#[test]
fn empty_hash_is_missing_hash() {
    match parse_record(&record("", "", "1", "")) {
        Err(GitGraphError::Parse(cause)) => assert_eq!(cause, "missing commit hash"),
        _ => panic!("expected a parse error"),
    }
}

#[test]
fn short_record_fails_on_missing_timestamp() {
    assert!(matches!(parse_record("abc\x1fdef"), Err(GitGraphError::Parse(_))));
}

#[test]
fn edges_follow_parents() {
    let merge = node("m", "a b");
    let a = node("a", "r");
    let root = node("r", "");
    let g = GitGraph::new(vec![merge, a, root], false);
    assert_eq!(g.edges.len(), 3);
    assert_eq!((g.edges[0].child.as_str(), g.edges[0].parent.as_str()), ("m", "a"));
    assert_eq!((g.edges[1].child.as_str(), g.edges[1].parent.as_str()), ("m", "b"));
    assert_eq!((g.edges[2].child.as_str(), g.edges[2].parent.as_str()), ("a", "r"));
    assert!(!g.truncated);
}

#[test]
fn edges_to_unknown_parents_are_kept() {
    let g = GitGraph::new(vec![node("x", "outside"), node("y", "outside")], true);
    assert_eq!(g.edges.len(), 2);
    assert_eq!(g.edges[1].parent, "outside");
    assert!(g.truncated);
}

#[test]
fn extra_commit_marks_graph_truncated() {
    let commits = vec![node("a", "b"), node("b", "c"), node("c", "")];
    let g = GitGraph::from_commits(commits, 2);
    assert!(g.truncated);
    assert_eq!(g.commits.len(), 2);
    assert_eq!(g.commits[1].oid, "b");
    assert_eq!(g.edges.len(), 2);
}

#[test]
fn fewer_commits_are_all_kept() {
    let commits = vec![node("a", "b"), node("b", "")];
    let g = GitGraph::from_commits(commits, 2);
    assert!(!g.truncated);
    assert_eq!(g.commits.len(), 2);
}

#[test]
fn graph_from_log_truncates() {
    let mut raw = String::new();
    for oid in ["a", "b", "c", "d"] {
        raw.push_str(&record(oid, "", "1", ""));
    }
    let g = GitGraph::from_log(&raw, 3).expect("should parse");
    assert!(g.truncated);
    assert_eq!(g.commits.len(), 3);
    let g = GitGraph::from_log(&raw, 4).expect("should parse");
    assert!(!g.truncated);
    assert_eq!(g.commits.len(), 4);
}

#[test]
fn limits_are_clamped() {
    assert_eq!(sanitize_limit(0), 1);
    assert_eq!(sanitize_limit(7), 7);
    assert_eq!(sanitize_limit(5000), MAX_LIMIT);
    assert_eq!(fetch_limit(10), 11);
    assert_eq!(fetch_limit(0), 2);
    assert_eq!(fetch_limit(usize::MAX), 2001);
}

#[test]
fn options_default_limit() {
    let o = SlashCommandOptions::from_args(&[]).expect("should parse");
    assert_eq!(o.limit, DEFAULT_LIMIT);
    assert_eq!(o.limit, 400);
}

#[test]
fn options_clamp_limit() {
    let read = |s: &str| SlashCommandOptions::from_args(&[s.to_string()]).map(|o| o.limit);
    assert_eq!(read("0").ok(), Some(1));
    assert_eq!(read("-5").ok(), Some(1));
    assert_eq!(read("25").ok(), Some(25));
    assert_eq!(read("+25").ok(), Some(25));
    assert_eq!(read("2001").ok(), Some(2000));
    assert_eq!(read("99999999999").ok(), Some(2000));
}

#[test]
fn options_reject_non_numbers() {
    match SlashCommandOptions::from_args(&["ten".to_string()]) {
        Err(GitGraphError::Parse(cause)) => assert!(cause.starts_with("invalid limit: ")),
        _ => panic!("expected a parse error"),
    }
    assert!(SlashCommandOptions::from_args(&[" 5".to_string()]).is_err());
    assert!(SlashCommandOptions::from_args(&[String::new()]).is_err());
}

#[test]
fn error_messages() {
    assert_eq!(
        GitGraphError::GitBinaryMissing.message(),
        "git executable was not found on PATH"
    );
    assert_eq!(
        GitGraphError::CommandFailed("bad".to_string()).message(),
        "git log exited with an error: bad"
    );
    assert_eq!(
        GitGraphError::Parse("oops".to_string()).message(),
        "failed to parse git output: oops"
    );
    let io = std::io::Error::new(std::io::ErrorKind::NotFound, "gone");
    assert_eq!(GitGraphError::SpawnFailed(io).message(), "failed to run git: gone");
    let utf8 = String::from_utf8(vec![0xff]).unwrap_err();
    assert!(GitGraphError::OutputEncoding(utf8)
        .message()
        .starts_with("git output was not valid UTF-8: "));
}

#[test]
fn options_clamp_integers_of_any_size() {
    let read = |s: &str| SlashCommandOptions::from_args(&[s.to_string()]).map(|o| o.limit);
    assert_eq!(read("99999999999999999999").ok(), Some(2000));
    assert_eq!(read("+99999999999999999999").ok(), Some(2000));
    assert_eq!(read("-99999999999999999999").ok(), Some(1));
    assert_eq!(read("-0").ok(), Some(1));
    assert!(read("-").is_err());
    assert!(read("+").is_err());
    assert!(read("12x").is_err());
    assert!(read("1.5").is_err());
}

#[test]
fn first_failing_record_gives_the_error() {
    let mut raw = record("aaa", "", "1", "");
    raw.push_str(&record("", "", "1", ""));
    raw.push_str(&record("ccc", "", "not-a-number", ""));
    match parse_git_log(&raw) {
        Err(GitGraphError::Parse(cause)) => assert_eq!(cause, "missing commit hash"),
        _ => panic!("expected a parse error"),
    }
    match GitGraph::from_log(&raw, 10) {
        Err(GitGraphError::Parse(cause)) => assert_eq!(cause, "missing commit hash"),
        _ => panic!("expected a parse error"),
    }
}

#[test]
fn default_decorations_are_empty() {
    let d = CommitDecorations::default();
    assert_eq!(d.head, None);
    assert!(d.tags.is_empty() && d.local_branches.is_empty() && d.remote_branches.is_empty());
}
