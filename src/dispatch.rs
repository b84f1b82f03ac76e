//! Classification of a created file and the outcome of moving it.

use crate::pattern::glob_matches;
use crate::rules::{first_match, lemma_first_match_wins, shadowed_rules, RuleSet};
use vstd::prelude::*;

verus! {

/// The final component of a path, as `std::path::Path::file_name` gives it.
pub uninterp spec fn file_name_of(path: Seq<char>) -> Option<Seq<char>>;

/// Relies on `std::path::Path::file_name`: the final component of the path,
/// or none for a root, an empty path or one that ends in `..`.
#[verifier::external_body]
fn base_name(path: &str) -> (r: Option<String>)
    ensures
        match r {
            Some(n) => file_name_of(path@) == Some(n@),
            None => file_name_of(path@) is None,
        },
{
    std::path::Path::new(path).file_name().and_then(|n| n.to_str()).map(|n| n.to_string())
}

/// `name` placed inside directory `dir`, with one separator between them.
pub open spec fn joined(dir: Seq<char>, name: Seq<char>) -> Seq<char> {
    if dir.len() > 0 && dir.last() != '/' {
        dir + seq!['/'] + name
    } else {
        dir + name
    }
}

/// Builds the destination path of a file name inside a directory, as
/// `std::path::Path::join` does for a name that holds no separator.
pub fn join_path(dir: &str, name: &str) -> (r: String)
    ensures
        r@ == joined(dir@, name@),
{
    let n = dir.unicode_len();
    let mut out = String::from_str(dir);
    if n > 0 && dir.get_char(n - 1) != '/' {
        proof {
            reveal_strlit("/");
        }
        out.append("/");
    }
    out.append(name);
    proof {
        if n > 0 {
            assert(dir@.last() == dir@[n - 1]);
        }
    }
    out
}

/// What the dispatcher decided for one created file.
pub enum DispatchPlan {
    /// No rule matches; the file stays where it is.
    NoRuleMatched { filename: String },
    /// Rule `rule` was selected: move `from` to `to` inside `target`.
    Move { rule: usize, filename: String, target: String, from: String, to: String, shadowed: Vec<usize> },
}

/// What became of one created file.
pub enum DispatchOutcome {
    Moved { from: String, to: String },
    NoRuleMatched { filename: String },
    MoveFailed { filename: String, target: String, cause: String },
}

/// Whether `p` is the dispatcher's decision for the file at `path` under `rules`:
/// the first matching rule decides, later matching rules are shadowed, and
/// without a matching rule the file stays in place.
pub open spec fn plans(rules: Seq<(Seq<char>, Seq<char>)>, path: Seq<char>, p: DispatchPlan) -> bool {
    file_name_of(path) matches Some(name) && match first_match(rules, name) {
        None => p matches DispatchPlan::NoRuleMatched { filename } && filename@ == name,
        Some(i) => p matches DispatchPlan::Move { rule, filename, target, from, to, shadowed } && {
            &&& 0 <= i < rules.len()
            &&& rule == i
            &&& filename@ == name
            &&& target@ == rules[i].1
            &&& from@ == path
            &&& to@ == joined(rules[i].1, name)
            &&& shadowed@.map_values(|j: usize| j as int) == shadowed_rules(rules, name, i)
        },
    }
}

/// The move a plan asks for, as source and destination.
pub open spec fn move_of(p: DispatchPlan) -> Option<(Seq<char>, Seq<char>)> {
    match p {
        DispatchPlan::NoRuleMatched { .. } => None,
        DispatchPlan::Move { from, to, .. } => Some((from@, to@)),
    }
}

/// Classifies the file at `path` against `rules`. Nothing is planned for a path
/// without a file name; otherwise the first matching rule decides where the file
/// goes, and later matching rules are listed as shadowed.
pub fn plan_dispatch(rules: &RuleSet, path: &str) -> (r: Option<DispatchPlan>)
    ensures
        r is None <==> file_name_of(path@) is None,
        r matches Some(p) ==> plans(rules@, path@, p),
{
    match base_name(path) {
        None => None,
        Some(filename) => {
            let sel = rules.select(filename.as_str());
            proof {
                lemma_first_match_wins(rules@, filename@);
            }
            match sel.selected {
                None => Some(DispatchPlan::NoRuleMatched { filename }),
                Some(i) => {
                    let rule = rules.get(i);
                    let target = rule.target().to_string();
                    let to = join_path(rule.target(), filename.as_str());
                    let from = path.to_string();
                    Some(DispatchPlan::Move { rule: i, filename, target, from, to, shadowed: sel.shadowed })
                },
            }
        },
    }
}

impl DispatchPlan {
    /// The outcome once the planned move, if any, was attempted: `moved` is what
    /// the move reported. A failed move is reported, never retried.
    pub fn finish(self, moved: Result<(), String>) -> (r: DispatchOutcome)
        ensures
            match self {
                DispatchPlan::NoRuleMatched { filename } => r == (DispatchOutcome::NoRuleMatched { filename }),
                DispatchPlan::Move { filename, target, from, to, .. } => match moved {
                    Ok(_) => r == (DispatchOutcome::Moved { from, to }),
                    Err(cause) => r == (DispatchOutcome::MoveFailed { filename, target, cause }),
                },
            },
    {
        match self {
            DispatchPlan::NoRuleMatched { filename } => DispatchOutcome::NoRuleMatched { filename },
            DispatchPlan::Move { filename, target, from, to, .. } => match moved {
                Ok(_) => DispatchOutcome::Moved { from, to },
                Err(cause) => DispatchOutcome::MoveFailed { filename, target, cause },
            },
        }
    }
}

/// A file whose name matches no rule is reported as unmatched and no move is
/// planned for it: it stays at its original path.
pub proof fn lemma_unmatched_file_stays(
    rules: Seq<(Seq<char>, Seq<char>)>,
    path: Seq<char>,
    name: Seq<char>,
    p: DispatchPlan,
)
    requires
        plans(rules, path, p),
        file_name_of(path) == Some(name),
        forall|j: int| 0 <= j < rules.len() ==> !glob_matches(#[trigger] rules[j].0, name),
    ensures
        p matches DispatchPlan::NoRuleMatched { filename } && filename@ == name,
        move_of(p) is None,
{
    lemma_first_match_wins(rules, name);
}

} // verus!
