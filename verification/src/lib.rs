//! The logic of a local daemon that runs software delivery by agents: it owns
//! the work queue and the `git`/`gh` mechanics of many projects at once.
//!
//! All durable state lives in GitHub, in issues, labels and pull requests. The
//! daemon reads that state, decides what comes next, and carries out the
//! mechanical part by calling `git` and `gh`; what takes judgment it leaves to
//! short-lived agent processes that it spawns.
//!
//! - [`vcs`] is the seam to `git` and `gh`: a trait, the implementation that
//!   runs the two programs, and one in memory. Whatever is done through the
//!   seam is recorded as a history of calls and answers, and every function
//!   that uses it says exactly which calls it makes and how its result follows
//!   from the answers.
//! - [`state`] derives an issue's state from its labels and pull requests, and
//!   finds where that state has drifted apart.
//! - [`claim`], [`schedule`], [`merge`] and [`implement`] decide who works on
//!   an issue, which issue comes next, when it may merge, and how work on it
//!   starts.
//! - [`config`], [`registry`], [`init`], [`installation`] and [`scaffold`] hold
//!   what this machine knows of its projects and how a project is added.
//! - [`instructions`] and [`spawner`] compose an agent's prompt and keep track
//!   of the processes that run.
//! - [`workflow`] says which labels a project uses and what makes an issue ready
//!   to be worked on.
//! - [`board`] and [`server`] answer clients.
//!
//! The remaining modules hold what these share. Reading files, running
//! programs and serving connections belong to the program around this library.

pub mod board;
pub mod claim;
pub mod config;
pub mod failure;
pub mod implement;
pub mod init;
pub mod installation;
pub mod instructions;
pub mod json;
pub mod maps;
pub mod merge;
pub mod numbers;
pub mod ordered;
pub mod paths;
pub mod registry;
pub mod scaffold;
pub mod schedule;
pub mod server;
pub mod spawner;
pub mod state;
pub mod text;
pub mod time;
pub mod vcs;
pub mod workflow;

pub use crate::board::{build_backlog, build_board, issue_url, BacklogRow, BoardRow};
pub use crate::claim::{confirm_claim, write_claim, ClaimError, ClaimResult};
pub use crate::config::{
    global_config_path, project_config_path, Binaries, ClaimConfig, ConfigError, CrossProjectMode,
    GhConfig, GlobalConfig, HarnessConfig, HarnessesConfig, Limits, ListenAddr, MergeMode,
    ProjectConfig, ProjectPointer,
};
pub use crate::implement::{
    finish_implement_setup, start_implement_setup, SpecDecision, StartImplementSetup,
};
pub use crate::init::{InitError, InitOptions};
pub use crate::instructions::{
    compose, interpolate, read_instruction_override, InstructionError,
};
pub use crate::merge::{observe_merge, plan_merge, MergeAction, MergeObservation};
pub use crate::registry::{
    add_project, find_project, find_project_containing, list_projects, remove_project, AddOutcome,
};
pub use crate::scaffold::ScaffoldError;
pub use crate::schedule::{next_action, schedule_order, Candidate};
pub use crate::server::logic::{ClaimHolder, DriftReport, ToolError};
pub use crate::server::{ServeError, BOARD_ISSUE_LIMIT, MCP_PATH};
pub use crate::spawner::{LocalProcessEntry, ProcessSpawner, SpawnError, SpawnKey, SpawnToken};
pub use crate::state::drift::DriftFinding;
pub use crate::state::{derive_issue_state, read_issue_state, Claim, IssueSnapshot, Priority};
pub use crate::vcs::fake::FakeVcs;
pub use crate::vcs::shell::ShellVcs;
pub use crate::vcs::{
    CiConclusion, IssueRef, IssueRelationships, IssueState, PullRequestRef, PullRequestState,
    PullRequestStatus, Vcs, VcsError, Worktree,
};
pub use crate::workflow::{handoff_ready_reached, label_vocabulary, readiness_gap};
