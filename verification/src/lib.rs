//! Core logic of a local supervisor for interactive agent sessions.
//!
//! The crate holds the session/turn runtime of the service: JSON-RPC line
//! handling, the per-turn state machine, event-log and SSE-backlog ordering,
//! token-usage metering, and reconciliation with the agent's own on-disk
//! session archive. All I/O (HTTP, child processes, the file system) lives
//! outside this crate; the functions here are pure decisions and
//! computations over plain values, each with a verified contract.

use vstd::prelude::*;

pub mod backlog;
pub mod events;
pub mod history;
pub mod json;
pub mod meta;
pub mod num;
pub mod paths;
pub mod rollout;
pub mod runs;
pub mod service;
pub mod skills;
pub mod sortutil;
pub mod text;
pub mod timefmt;
pub mod turn;
pub mod usage;

pub use paths::push_unique;
pub use rollout::{
    extract_json_string_field, extract_session_meta_triplet, parse_rollout_session_id,
};
pub use service::now_ms;
pub use skills::{parse_skill_front_matter, unquote_yaml_scalar};
pub use text::{safe_title, should_show_rollout_user_text, strip_tool_citations};
pub use timefmt::{days_from_civil, parse_rfc3339_ms};

verus! {

} // verus!
