//! The decisions of the watch loop: routing settled file events and replacing
//! the active rule set when the rule file changes.

use crate::dispatch::{file_name_of, move_of, plan_dispatch, plans, DispatchPlan};
use crate::rules::{compiled_rules, dropped_indices, first_match, PatternRule, RuleError, RuleSet};
use crate::target::PathFacts;
use vstd::prelude::*;

verus! {

/// A settled event from the file-change notifier.
pub enum FileEvent {
    /// A file was created at this path.
    Created(String),
    /// The file at this path was written.
    Written(String),
    /// Any other change (removal, rename, metadata); it is ignored.
    Other,
}

/// What the loop does next for one event.
pub enum LoopAction {
    /// Attempt this plan's move, if any, then report the outcome.
    Dispatch(DispatchPlan),
    /// Read and parse the rule file, then hand the result to `apply_reload`.
    Reload,
    /// Nothing to do.
    Ignore,
}

/// How a reload went.
pub enum ReloadReport {
    /// The rule file parsed; its valid rules are now active and the others are reported.
    Replaced { errors: Vec<RuleError> },
    /// The rule file did not parse; the previous rules stay active.
    Kept { reason: String },
}

/// The active rule set after a reload: the rules compiled from the parsed file,
/// or, when it did not parse, the rules that were active before.
pub open spec fn after_reload(
    current: Seq<(Seq<char>, Seq<char>)>,
    parsed: Option<(Seq<(Seq<char>, Seq<char>)>, Seq<PathFacts>)>,
) -> Seq<(Seq<char>, Seq<char>)> {
    match parsed {
        None => current,
        Some((rules, facts)) => compiled_rules(rules, facts),
    }
}

/// The state of the watch loop: the path of the rule file and the active rules.
/// It is owned by the one consumer of the event stream, which alone reads and
/// replaces the rules.
pub struct WatchLoop {
    rule_file: String,
    rules: RuleSet,
}

impl WatchLoop {
    pub closed spec fn rule_file_path(&self) -> Seq<char> {
        self.rule_file@
    }

    pub closed spec fn active(&self) -> Seq<(Seq<char>, Seq<char>)> {
        self.rules@
    }

    pub fn new(rule_file: String, rules: RuleSet) -> (r: WatchLoop)
        ensures
            r.rule_file_path() == rule_file@,
            r.active() == rules@,
    {
        WatchLoop { rule_file, rules }
    }

    /// The rules currently in force.
    pub fn rules(&self) -> (r: &RuleSet)
        ensures
            r@ == self.active(),
    {
        &self.rules
    }

    pub fn rule_file(&self) -> (r: &str)
        ensures
            r@ == self.rule_file_path(),
    {
        self.rule_file.as_str()
    }

    /// Routes one settled event. A created file is classified against the active
    /// rules; a write to the rule file asks for a reload; everything else is
    /// ignored. The state is left as it is, so duplicate or reordered events
    /// cannot corrupt it.
    pub fn on_event(&self, event: &FileEvent) -> (r: LoopAction)
        ensures
            match event {
                FileEvent::Created(path) => match r {
                    LoopAction::Dispatch(p) => plans(self.active(), path@, p),
                    LoopAction::Ignore => file_name_of(path@) is None,
                    LoopAction::Reload => false,
                },
                FileEvent::Written(path) => if path@ == self.rule_file_path() {
                    r is Reload
                } else {
                    r is Ignore
                },
                FileEvent::Other => r is Ignore,
            },
    {
        match event {
            FileEvent::Created(path) => match plan_dispatch(&self.rules, path.as_str()) {
                Some(p) => LoopAction::Dispatch(p),
                None => LoopAction::Ignore,
            },
            FileEvent::Written(path) => {
                if *path == self.rule_file {
                    LoopAction::Reload
                } else {
                    LoopAction::Ignore
                }
            },
            FileEvent::Other => LoopAction::Ignore,
        }
    }

    /// Replaces the active rules with those compiled from a freshly parsed rule
    /// file (`targets` describing each rule's target), or keeps them unchanged
    /// when the file did not parse.
    pub fn apply_reload(&mut self, parsed: Result<(Vec<PatternRule>, Vec<PathFacts>), String>) -> (r: ReloadReport)
        requires
            parsed matches Ok((rules, targets)) ==> rules.len() == targets.len(),
        ensures
            final(self).rule_file_path() == old(self).rule_file_path(),
            final(self).active() == after_reload(
                old(self).active(),
                match parsed {
                    Ok((rules, targets)) => Some((rules@.map_values(|x: PatternRule| x@), targets@)),
                    Err(_) => None,
                },
            ),
            parsed is Ok <==> r is Replaced,
            r matches ReloadReport::Replaced { errors } ==> parsed matches Ok((rules, targets)) && {
                &&& errors@.len() == dropped_indices(
                    rules@.map_values(|x: PatternRule| x@),
                    targets@,
                    rules.len() as int,
                ).len()
                &&& forall|k: int| 0 <= k < errors@.len() ==> (#[trigger] errors@[k]).describes(
                    rules@.map_values(|x: PatternRule| x@),
                    targets@,
                    dropped_indices(rules@.map_values(|x: PatternRule| x@), targets@, rules.len() as int)[k],
                )
            },
            r matches ReloadReport::Kept { reason } ==> parsed matches Err(e) && reason == e,
    {
        match parsed {
            Ok((rules, targets)) => {
                let (set, errors) = RuleSet::compile(&rules, &targets);
                self.rules = set;
                ReloadReport::Replaced { errors }
            },
            Err(reason) => ReloadReport::Kept { reason },
        }
    }
}

/// A reload from a rule file that does not parse leaves the active rules, and
/// so the decision for every file dispatched next, exactly as they were.
pub proof fn lemma_failed_reload_keeps_rules(current: Seq<(Seq<char>, Seq<char>)>, path: Seq<char>, p: DispatchPlan)
    ensures
        after_reload(current, None) == current,
        plans(after_reload(current, None), path, p) == plans(current, path, p),
        forall|name: Seq<char>| #[trigger] first_match(after_reload(current, None), name) == first_match(current, name),
{
}

/// Two creation events for the same path under the same rules plan the same
/// move, from the same source to the same destination: a duplicate event can
/// only repeat that move, never send the file somewhere else.
pub proof fn lemma_duplicate_create_same_move(
    rules: Seq<(Seq<char>, Seq<char>)>,
    path: Seq<char>,
    first: DispatchPlan,
    second: DispatchPlan,
)
    requires
        plans(rules, path, first),
        plans(rules, path, second),
    ensures
        move_of(first) == move_of(second),
{
}

} // verus!
