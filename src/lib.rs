//! Turns the text that `git log` prints into a commit graph: commits with their
//! parents, metadata and ref decorations, and the edge list derived from them.

pub mod decorations;
pub mod error;
pub mod graph;
pub mod log;
pub mod number;
pub mod options;
pub mod text;

pub use decorations::CommitDecorations;
pub use error::GitGraphError;
pub use graph::{fetch_limit, sanitize_limit, GitGraph, GraphEdge, DEFAULT_LIMIT, MAX_LIMIT};
pub use log::{parse_git_log, parse_record, CommitNode, FIELD_DELIMITER, RECORD_DELIMITER};
pub use options::SlashCommandOptions;
pub use text::abbreviate_oid;
