//! Rules, their compilation into an ordered rule set, and first-match selection.

use crate::pattern::{glob_matches, pattern_compiles, InvalidPattern, PatternMatcher};
use crate::target::{problem_of, target_problem, usable_dir, PathFacts, PathProblem};
use vstd::prelude::*;

verus! {

/// A rule as declared in the rule file: a glob and the directory it files into.
#[derive(Debug)]
pub struct PatternRule {
    pub pattern: String,
    pub target: String,
}

impl View for PatternRule {
    type V = (Seq<char>, Seq<char>);

    open spec fn view(&self) -> (Seq<char>, Seq<char>) {
        (self.pattern@, self.target@)
    }
}

impl PatternRule {
    pub fn new(pattern: String, target: String) -> (r: PatternRule)
        ensures
            r.pattern == pattern,
            r.target == target,
    {
        PatternRule { pattern, target }
    }

    /// The rules of a fresh rule file: images, documents and audio, each into
    /// the user's directory for that kind of file.
    pub fn examples(pictures: String, documents: String, audio: String) -> (r: Vec<PatternRule>)
        ensures
            r@.len() == 3,
            r@[0]@ == ("*.jpg"@, pictures@),
            r@[1]@ == ("*.pdf"@, documents@),
            r@[2]@ == ("*.mp3"@, audio@),
    {
        let mut v: Vec<PatternRule> = Vec::new();
        v.push(PatternRule { pattern: "*.jpg".to_string(), target: pictures });
        v.push(PatternRule { pattern: "*.pdf".to_string(), target: documents });
        v.push(PatternRule { pattern: "*.mp3".to_string(), target: audio });
        v
    }
}

/// Why a declared rule was left out of a rule set.
pub enum RuleFault {
    InvalidPattern { reason: String },
    InvalidTarget { problem: PathProblem },
}

/// A declared rule that was left out, with its position in the declaration.
pub struct RuleError {
    pub index: usize,
    pub rule: PatternRule,
    pub fault: RuleFault,
}

/// A rule that passed validation: a compiled glob and an existing directory.
pub struct CompiledRule {
    matcher: PatternMatcher,
    target: String,
}

impl View for CompiledRule {
    type V = (Seq<char>, Seq<char>);

    closed spec fn view(&self) -> (Seq<char>, Seq<char>) {
        (self.matcher@, self.target@)
    }
}

impl CompiledRule {
    pub fn pattern(&self) -> (r: &str)
        ensures
            r@ == self@.0,
    {
        self.matcher.pattern()
    }

    pub fn target(&self) -> (r: &str)
        ensures
            r@ == self@.1,
    {
        self.target.as_str()
    }

    pub fn is_match(&self, name: &str) -> (r: bool)
        ensures
            r == glob_matches(self@.0, name@),
    {
        self.matcher.is_match(name)
    }
}

/// An ordered, immutable sequence of compiled rules; earlier rules win.
pub struct RuleSet {
    rules: Vec<CompiledRule>,
}

impl View for RuleSet {
    type V = Seq<(Seq<char>, Seq<char>)>;

    closed spec fn view(&self) -> Seq<(Seq<char>, Seq<char>)> {
        self.rules@.map_values(|r: CompiledRule| r@)
    }
}

/// Whether a declared rule survives validation.
pub open spec fn rule_accepted(rule: (Seq<char>, Seq<char>), facts: PathFacts) -> bool {
    pattern_compiles(rule.0) && usable_dir(facts)
}

/// The rules among the first `n` declared ones that survive, in declaration order.
pub open spec fn kept_rules(
    rules: Seq<(Seq<char>, Seq<char>)>,
    facts: Seq<PathFacts>,
    n: int,
) -> Seq<(Seq<char>, Seq<char>)>
    decreases n,
{
    if n <= 0 {
        Seq::empty()
    } else if rule_accepted(rules[n - 1], facts[n - 1]) {
        kept_rules(rules, facts, n - 1).push(rules[n - 1])
    } else {
        kept_rules(rules, facts, n - 1)
    }
}

/// The positions among the first `n` declared rules that are left out, ascending.
pub open spec fn dropped_indices(
    rules: Seq<(Seq<char>, Seq<char>)>,
    facts: Seq<PathFacts>,
    n: int,
) -> Seq<int>
    decreases n,
{
    if n <= 0 {
        Seq::empty()
    } else if rule_accepted(rules[n - 1], facts[n - 1]) {
        dropped_indices(rules, facts, n - 1)
    } else {
        dropped_indices(rules, facts, n - 1).push(n - 1)
    }
}

/// The rule set compiled from a whole declaration.
pub open spec fn compiled_rules(
    rules: Seq<(Seq<char>, Seq<char>)>,
    facts: Seq<PathFacts>,
) -> Seq<(Seq<char>, Seq<char>)> {
    kept_rules(rules, facts, rules.len() as int)
}

/// The index of the earliest rule among the first `n` whose pattern matches `name`.
pub open spec fn first_match_in(rules: Seq<(Seq<char>, Seq<char>)>, name: Seq<char>, n: int) -> Option<int>
    decreases n,
{
    if n <= 0 {
        None
    } else {
        match first_match_in(rules, name, n - 1) {
            Some(i) => Some(i),
            None => if glob_matches(rules[n - 1].0, name) {
                Some(n - 1)
            } else {
                None
            },
        }
    }
}

/// The rule selected for `name`: the earliest one whose pattern matches.
pub open spec fn first_match(rules: Seq<(Seq<char>, Seq<char>)>, name: Seq<char>) -> Option<int> {
    first_match_in(rules, name, rules.len() as int)
}

/// The indices in `lo..hi` whose patterns match `name`, ascending.
pub open spec fn matches_between(
    rules: Seq<(Seq<char>, Seq<char>)>,
    name: Seq<char>,
    lo: int,
    hi: int,
) -> Seq<int>
    decreases hi - lo,
{
    if hi <= lo {
        Seq::empty()
    } else if glob_matches(rules[hi - 1].0, name) {
        matches_between(rules, name, lo, hi - 1).push(hi - 1)
    } else {
        matches_between(rules, name, lo, hi - 1)
    }
}

/// The rules that also match `name` but are shadowed by the selected rule `sel`.
pub open spec fn shadowed_rules(rules: Seq<(Seq<char>, Seq<char>)>, name: Seq<char>, sel: int) -> Seq<int> {
    matches_between(rules, name, sel + 1, rules.len() as int)
}

proof fn lemma_first_match_in(rules: Seq<(Seq<char>, Seq<char>)>, name: Seq<char>, n: int)
    requires
        0 <= n <= rules.len(),
    ensures
        first_match_in(rules, name, n) matches Some(i) ==> {
            &&& 0 <= i < n
            &&& glob_matches(rules[i].0, name)
            &&& forall|j: int| 0 <= j < i ==> !glob_matches(#[trigger] rules[j].0, name)
        },
        first_match_in(rules, name, n) is None ==> forall|j: int|
            0 <= j < n ==> !glob_matches(#[trigger] rules[j].0, name),
    decreases n,
{
    if n > 0 {
        lemma_first_match_in(rules, name, n - 1);
    }
}

/// The selected rule is the lowest-index rule whose pattern matches: it matches,
/// no earlier rule matches, and no later match can displace it. When nothing is
/// selected, no rule matches.
pub proof fn lemma_first_match_wins(rules: Seq<(Seq<char>, Seq<char>)>, name: Seq<char>)
    ensures
        first_match(rules, name) matches Some(i) ==> {
            &&& 0 <= i < rules.len()
            &&& glob_matches(rules[i].0, name)
            &&& forall|j: int| 0 <= j < rules.len() && glob_matches(#[trigger] rules[j].0, name) ==> i <= j
        },
        first_match(rules, name) is None <==> forall|j: int|
            0 <= j < rules.len() ==> !glob_matches(#[trigger] rules[j].0, name),
{
    lemma_first_match_in(rules, name, rules.len() as int);
    if let Some(i) = first_match(rules, name) {
        assert(forall|j: int| 0 <= j < rules.len() && glob_matches(#[trigger] rules[j].0, name) ==> i <= j);
        assert(!(forall|j: int| 0 <= j < rules.len() ==> !glob_matches(#[trigger] rules[j].0, name)));
    }
}

proof fn lemma_kept_and_dropped(rules: Seq<(Seq<char>, Seq<char>)>, facts: Seq<PathFacts>, n: int)
    requires
        0 <= n <= rules.len(),
        rules.len() == facts.len(),
    ensures
        kept_rules(rules, facts, n).len() + dropped_indices(rules, facts, n).len() == n,
        forall|k: int| 0 <= k < dropped_indices(rules, facts, n).len() ==> {
            let i = #[trigger] dropped_indices(rules, facts, n)[k];
            0 <= i < n && !rule_accepted(rules[i], facts[i])
        },
        forall|i: int| 0 <= i < n && !rule_accepted(#[trigger] rules[i], facts[i])
            ==> dropped_indices(rules, facts, n).contains(i),
    decreases n,
{
    if n > 0 {
        lemma_kept_and_dropped(rules, facts, n - 1);
        let prev = dropped_indices(rules, facts, n - 1);
        if !rule_accepted(rules[n - 1], facts[n - 1]) {
            assert(dropped_indices(rules, facts, n) == prev.push(n - 1));
            assert forall|i: int| 0 <= i < n && !rule_accepted(#[trigger] rules[i], facts[i])
                implies dropped_indices(rules, facts, n).contains(i) by {
                if i < n - 1 {
                    let k = choose|k: int| 0 <= k < prev.len() && prev[k] == i;
                    assert(prev.push(n - 1)[k] == i);
                } else {
                    assert(prev.push(n - 1)[prev.len() as int] == i);
                }
            }
        }
    }
}

/// Compiling `N` declared rules of which `K` are invalid (a bad glob or an
/// unusable target) yields exactly `N - K` rules; the invalid ones are exactly
/// those reported as dropped.
pub proof fn lemma_compiled_count(rules: Seq<(Seq<char>, Seq<char>)>, facts: Seq<PathFacts>)
    requires
        rules.len() == facts.len(),
    ensures
        compiled_rules(rules, facts).len() == rules.len() - dropped_indices(rules, facts, rules.len() as int).len(),
        forall|i: int| 0 <= i < rules.len() ==> (
            dropped_indices(rules, facts, rules.len() as int).contains(i)
                <==> !rule_accepted(#[trigger] rules[i], facts[i])),
{
    let n = rules.len() as int;
    lemma_kept_and_dropped(rules, facts, n);
    let d = dropped_indices(rules, facts, n);
    assert forall|i: int| 0 <= i < rules.len() implies (
        d.contains(i) <==> !rule_accepted(#[trigger] rules[i], facts[i])) by {
        if d.contains(i) {
            let k = choose|k: int| 0 <= k < d.len() && d[k] == i;
            assert(!rule_accepted(rules[d[k]], facts[d[k]]));
        }
    }
}

/// The `c`-th compiled rule is a declared rule, among the first `n`, that was accepted.
spec fn kept_is_accepted(rules: Seq<(Seq<char>, Seq<char>)>, facts: Seq<PathFacts>, n: int, c: int) -> bool {
    exists|i: int| 0 <= i < n && rules[i] == kept_rules(rules, facts, n)[c] && #[trigger] rule_accepted(rules[i], facts[i])
}

proof fn lemma_kept_are_accepted(rules: Seq<(Seq<char>, Seq<char>)>, facts: Seq<PathFacts>, n: int)
    requires
        0 <= n <= rules.len(),
        rules.len() == facts.len(),
    ensures
        forall|c: int| 0 <= c < kept_rules(rules, facts, n).len() ==> #[trigger] kept_is_accepted(rules, facts, n, c),
    decreases n,
{
    if n > 0 {
        lemma_kept_are_accepted(rules, facts, n - 1);
        let prev = kept_rules(rules, facts, n - 1);
        assert forall|c: int| 0 <= c < kept_rules(rules, facts, n).len() implies #[trigger] kept_is_accepted(
            rules,
            facts,
            n,
            c,
        ) by {
            if c < prev.len() {
                assert(kept_is_accepted(rules, facts, n - 1, c));
                let i = choose|i: int|
                    0 <= i < n - 1 && rules[i] == prev[c] && #[trigger] rule_accepted(rules[i], facts[i]);
                assert(kept_rules(rules, facts, n)[c] == prev[c]);
                assert(rules[i] == kept_rules(rules, facts, n)[c]);
            } else {
                assert(rules[n - 1] == kept_rules(rules, facts, n)[c]);
                assert(rule_accepted(rules[n - 1], facts[n - 1]));
            }
        }
    }
}

/// A target found unusable never receives files: when every declared rule
/// that names the same target was described by the same facts, no compiled
/// rule names the target of a rule whose target is unusable.
pub proof fn lemma_unusable_target_excluded(rules: Seq<(Seq<char>, Seq<char>)>, facts: Seq<PathFacts>, k: int)
    requires
        rules.len() == facts.len(),
        0 <= k < rules.len(),
        !usable_dir(facts[k]),
        forall|i: int, j: int|
            #![trigger rules[i], rules[j]]
            0 <= i < rules.len() && 0 <= j < rules.len() && rules[i].1 == rules[j].1 ==> facts[i] == facts[j],
    ensures
        forall|c: int| 0 <= c < compiled_rules(rules, facts).len() ==> (#[trigger] compiled_rules(rules, facts)[c]).1
            != rules[k].1,
{
    let n = rules.len() as int;
    lemma_kept_are_accepted(rules, facts, n);
    assert forall|c: int| 0 <= c < compiled_rules(rules, facts).len() implies (#[trigger] compiled_rules(
        rules,
        facts,
    )[c]).1 != rules[k].1 by {
        assert(kept_is_accepted(rules, facts, n, c));
        let i = choose|i: int|
            0 <= i < n && rules[i] == kept_rules(rules, facts, n)[c] && #[trigger] rule_accepted(rules[i], facts[i]);
        if rules[i].1 == rules[k].1 {
            assert(facts[i] == facts[k]);
        }
    }
}

impl RuleError {
    /// Whether this report describes the declared rule at `index` with the
    /// fault that validation finds in it.
    pub open spec fn describes(&self, rules: Seq<(Seq<char>, Seq<char>)>, facts: Seq<PathFacts>, index: int) -> bool {
        &&& self.index == index
        &&& self.rule@ == rules[index]
        &&& match self.fault {
            RuleFault::InvalidPattern { .. } => !pattern_compiles(rules[index].0),
            RuleFault::InvalidTarget { problem } => pattern_compiles(rules[index].0) && problem_of(facts[index])
                == Some(problem),
        }
    }
}

impl RuleSet {
    /// Compiles the declared rules in order. A rule whose glob does not compile, or
    /// whose target (described by the matching entry of `targets`) is not a usable
    /// directory, is left out and reported; the others keep their order.
    pub fn compile(rules: &Vec<PatternRule>, targets: &Vec<PathFacts>) -> (r: (RuleSet, Vec<RuleError>))
        requires
            rules.len() == targets.len(),
        ensures
            r.0@ == compiled_rules(rules@.map_values(|x: PatternRule| x@), targets@),
            r.1@.len() == dropped_indices(rules@.map_values(|x: PatternRule| x@), targets@, rules.len() as int).len(),
            forall|k: int| 0 <= k < r.1@.len() ==> (#[trigger] r.1@[k]).describes(
                rules@.map_values(|x: PatternRule| x@),
                targets@,
                dropped_indices(rules@.map_values(|x: PatternRule| x@), targets@, rules.len() as int)[k],
            ),
    {
        let ghost decl = rules@.map_values(|x: PatternRule| x@);
        let mut kept: Vec<CompiledRule> = Vec::new();
        let mut errors: Vec<RuleError> = Vec::new();
        let mut i: usize = 0;
        while i < rules.len()
            invariant
                i <= rules.len(),
                rules.len() == targets.len(),
                decl == rules@.map_values(|x: PatternRule| x@),
                kept@.map_values(|c: CompiledRule| c@) == kept_rules(decl, targets@, i as int),
                errors@.len() == dropped_indices(decl, targets@, i as int).len(),
                forall|k: int| 0 <= k < errors@.len() ==> (#[trigger] errors@[k]).describes(
                    decl,
                    targets@,
                    dropped_indices(decl, targets@, i as int)[k],
                ),
            decreases rules.len() - i,
        {
            let rule = &rules[i];
            let facts = &targets[i];
            proof {
                assert(decl[i as int] == rule@);
            }
            match PatternMatcher::compile(rule.pattern.as_str()) {
                Ok(matcher) => {
                    match target_problem(facts) {
                        None => {
                            let c = CompiledRule { matcher, target: rule.target.clone() };
                            kept.push(c);
                            proof {
                                assert(kept@.map_values(|c: CompiledRule| c@) =~= kept_rules(decl, targets@, i as int + 1));
                            }
                        },
                        Some(problem) => {
                            let e = RuleError { index: i, rule: PatternRule { pattern: rule.pattern.clone(), target: rule.target.clone() }, fault: RuleFault::InvalidTarget { problem } };
                            errors.push(e);
                        },
                    }
                },
                Err(InvalidPattern { reason, .. }) => {
                    let e = RuleError { index: i, rule: PatternRule { pattern: rule.pattern.clone(), target: rule.target.clone() }, fault: RuleFault::InvalidPattern { reason } };
                    errors.push(e);
                },
            }
            i = i + 1;
        }
        (RuleSet { rules: kept }, errors)
    }

    pub fn len(&self) -> (r: usize)
        ensures
            r == self@.len(),
    {
        self.rules.len()
    }

    pub fn get(&self, i: usize) -> (r: &CompiledRule)
        requires
            i < self@.len(),
        ensures
            r@ == self@[i as int],
    {
        &self.rules[i]
    }
}

/// The result of matching a file name against a rule set: the selected rule,
/// if any, and the later rules that also match but are shadowed by it.
pub struct Selection {
    pub selected: Option<usize>,
    pub shadowed: Vec<usize>,
}

impl RuleSet {
    /// Walks every rule in order. The first rule that matches `name` is selected;
    /// every later rule that matches too is recorded as shadowed and has no say.
    pub fn select(&self, name: &str) -> (r: Selection)
        ensures
            r.selected matches Some(i) ==> first_match(self@, name@) == Some(i as int),
            r.selected is None ==> first_match(self@, name@) is None,
            r.selected matches Some(i) ==> r.shadowed@.map_values(|j: usize| j as int) == shadowed_rules(
                self@,
                name@,
                i as int,
            ),
            r.selected is None ==> r.shadowed@.len() == 0,
    {
        let mut selected: Option<usize> = None;
        let mut shadowed: Vec<usize> = Vec::new();
        let mut k: usize = 0;
        while k < self.rules.len()
            invariant
                k <= self@.len(),
                self@.len() == self.rules@.len(),
                selected matches Some(i) ==> first_match_in(self@, name@, k as int) == Some(i as int)
                    && i < k && shadowed@.map_values(|j: usize| j as int) == matches_between(
                    self@,
                    name@,
                    i + 1,
                    k as int,
                ),
                selected is None ==> first_match_in(self@, name@, k as int) is None && shadowed@.len() == 0,
            decreases self.rules.len() - k,
        {
            let hit = self.rules[k].is_match(name);
            proof {
                assert(self@[k as int] == self.rules@[k as int]@);
            }
            if hit {
                match selected {
                    None => {
                        selected = Some(k);
                        proof {
                            assert(shadowed@.map_values(|j: usize| j as int) =~= matches_between(
                                self@,
                                name@,
                                k + 1,
                                k + 1,
                            ));
                        }
                    },
                    Some(i) => {
                        shadowed.push(k);
                        proof {
                            assert(shadowed@.map_values(|j: usize| j as int) =~= matches_between(
                                self@,
                                name@,
                                i + 1,
                                k + 1,
                            ));
                        }
                    },
                }
            }
            k = k + 1;
        }
        Selection { selected, shadowed }
    }
}

} // verus!
