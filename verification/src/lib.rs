//! Hotfix branch and release tooling.
//!
//! A hotfix is a point-in-time patch applied to an already-released line. Releases are tagged
//! `v<X.Y.Z>` and hotfixes on top of release `X.Y.Z` are versioned `X.Y.Z-hotfix.<N>` (tagged
//! `vX.Y.Z-hotfix.<N>`). This crate implements:
//!
//! * [`HotfixVersion`], a typed view of `X.Y.Z-hotfix.<N>` with parse, format, and `next()`;
//! * functions that enumerate release and hotfix tags and resolve the next hotfix number for a
//!   given base release;
//! * [`run`], the orchestration that branches off a release tag, cherry-picks a fix, bumps the
//!   version to the next hotfix, commits, tags, and optionally pushes. It decides what to do and
//!   what to say; whoever drives it runs `git` and prints.
//!
//! Cherry-pick conflicts are *never* resolved: a failed apply aborts loudly so the developer
//! resolves the merge by hand. Remote mutation (push) is gated behind an explicit `--push` (or
//! `--register`), so a dry review run cannot move the remote by accident. Both are stated and
//! proved in [`session_laws`]; when a run succeeds, and what is done before a push, in
//! [`completion_laws`]; what a dry run shows, in [`preview_laws`].
pub mod action;
pub mod completion_laws;
pub mod course;
pub mod execution;
pub mod execution_laws;
pub mod notice;
pub mod number;
pub mod option_laws;
pub mod options;
pub mod plan;
pub mod plan_laws;
pub mod preview_laws;
pub mod session;
pub mod session_laws;
pub mod style;
pub mod tag_laws;
pub mod tags;
pub mod text;
pub mod text_laws;
pub mod version;
pub mod version_laws;
pub mod view_laws;
pub mod wording_laws;

pub use crate::action::{git_not_started, git_output, Action};
pub use crate::execution::{execute_one, Execution, Progress, Stage};
pub use crate::notice::Notice;
pub use crate::options::{parse_options, usage, HotfixOptions};
pub use crate::plan::{plan_one, target_bases, HotfixPlan};
pub use crate::session::{ensure_clean_worktree, run, run_list, Job, Request, Session};
pub use crate::tags::{
    existing_hotfix_max, existing_hotfix_max_in, latest_release_tag, latest_release_tag_in,
    list_tags_in, next_hotfix_for_base, next_hotfix_for_base_in, release_tags_since,
    release_tags_since_in, sort_release_tags,
};
pub use crate::version::{
    is_valid_hotfix_tag, is_valid_release_tag, parse_base, HotfixVersion,
};
