//! A rule engine that files newly created files into directories chosen by
//! glob patterns, with first-match-wins priority and fail-safe rule reloads.

pub mod dispatch;
pub mod pattern;
pub mod rules;
pub mod target;
pub mod watch;

pub use dispatch::{join_path, plan_dispatch, DispatchOutcome, DispatchPlan};
pub use pattern::{InvalidPattern, PatternMatcher};
pub use rules::{CompiledRule, PatternRule, RuleError, RuleFault, RuleSet, Selection};
pub use target::{check_watch_directory, is_valid_target, target_problem, PathFacts, PathProblem};
pub use watch::{FileEvent, LoopAction, ReloadReport, WatchLoop};
