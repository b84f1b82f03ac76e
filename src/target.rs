//! Validation of target and watch directories from facts probed on disk.

use vstd::prelude::*;

verus! {

/// What was observed of a path on disk when it was probed.
#[derive(Clone, Copy, Debug, PartialEq, Eq, Structural)]
pub struct PathFacts {
    pub absolute: bool,
    pub exists: bool,
    pub is_dir: bool,
}

/// Why a path cannot serve as a directory to move files into or to watch.
#[derive(Clone, Copy, Debug, PartialEq, Eq, Structural)]
pub enum PathProblem {
    NotAbsolute,
    Missing,
    NotADirectory,
}

/// The first problem of a path, checked in the order: absolute, exists, directory.
pub open spec fn problem_of(facts: PathFacts) -> Option<PathProblem> {
    if !facts.absolute {
        Some(PathProblem::NotAbsolute)
    } else if !facts.exists {
        Some(PathProblem::Missing)
    } else if !facts.is_dir {
        Some(PathProblem::NotADirectory)
    } else {
        None
    }
}

/// A path is a usable directory when it is absolute, exists and is a directory.
pub open spec fn usable_dir(facts: PathFacts) -> bool {
    facts.absolute && facts.exists && facts.is_dir
}

/// The problem that disqualifies a path, if any.
pub fn target_problem(facts: &PathFacts) -> (r: Option<PathProblem>)
    ensures
        r == problem_of(*facts),
        r is None <==> usable_dir(*facts),
{
    if !facts.absolute {
        Some(PathProblem::NotAbsolute)
    } else if !facts.exists {
        Some(PathProblem::Missing)
    } else if !facts.is_dir {
        Some(PathProblem::NotADirectory)
    } else {
        None
    }
}

/// Whether a rule's target may receive files.
pub fn is_valid_target(facts: &PathFacts) -> (r: bool)
    ensures
        r == usable_dir(*facts),
{
    target_problem(facts).is_none()
}

/// Checks the directory to watch before the watch loop starts.
pub fn check_watch_directory(facts: &PathFacts) -> (r: Result<(), PathProblem>)
    ensures
        r is Ok <==> usable_dir(*facts),
        r matches Err(p) ==> problem_of(*facts) == Some(p),
{
    match target_problem(facts) {
        Some(p) => Err(p),
        None => Ok(()),
    }
}

impl PathProblem {
    /// A short description of the problem.
    pub fn describe(&self) -> (r: &'static str)
        ensures
            match self {
                PathProblem::NotAbsolute => r@ == "is not an absolute path"@,
                PathProblem::Missing => r@ == "does not exist"@,
                PathProblem::NotADirectory => r@ == "is not a directory"@,
            },
    {
        match self {
            PathProblem::NotAbsolute => "is not an absolute path",
            PathProblem::Missing => "does not exist",
            PathProblem::NotADirectory => "is not a directory",
        }
    }
}

} // verus!
