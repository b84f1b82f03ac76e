use wurmloch::{
    check_watch_directory, is_valid_target, join_path, plan_dispatch, target_problem, DispatchOutcome,
    DispatchPlan, FileEvent, LoopAction, PathFacts, PathProblem, PatternMatcher, PatternRule, ReloadReport,
    RuleFault, RuleSet, WatchLoop,
};

fn dir() -> PathFacts {
    PathFacts { absolute: true, exists: true, is_dir: true }
}

fn rule(pattern: &str, target: &str) -> PatternRule {
    PatternRule::new(pattern.to_string(), target.to_string())
}

fn set_of(rules: Vec<PatternRule>) -> RuleSet {
    let facts = vec![dir(); rules.len()];
    let (set, errors) = RuleSet::compile(&rules, &facts);
    assert!(errors.is_empty());
    set
}

fn expect_move(plan: &DispatchPlan) -> (usize, String, String, Vec<usize>) {
    match plan {
        DispatchPlan::Move { rule, from, to, shadowed, .. } => (*rule, from.clone(), to.clone(), shadowed.clone()),
        DispatchPlan::NoRuleMatched { .. } => panic!("expected a move"),
    }
}

#[test]
fn earlier_rule_wins_and_later_match_is_shadowed() {
    let set = set_of(vec![rule("*.txt", "/A"), rule("report*.txt", "/B")]);
    let plan = plan_dispatch(&set, "/watch/report1.txt").unwrap();
    let (idx, from, to, shadowed) = expect_move(&plan);
    assert_eq!(idx, 0);
    assert_eq!(from, "/watch/report1.txt");
    assert_eq!(to, "/A/report1.txt");
    assert_eq!(shadowed, vec![1]);
}

#[test]
fn later_rule_selected_when_earlier_does_not_match() {
    let set = set_of(vec![rule("*.pdf", "/Docs"), rule("*.txt", "/A"), rule("*", "/Misc")]);
    let plan = plan_dispatch(&set, "/watch/a.txt").unwrap();
    let (idx, _, to, shadowed) = expect_move(&plan);
    assert_eq!(idx, 1);
    assert_eq!(to, "/A/a.txt");
    assert_eq!(shadowed, vec![2]);
    let sel = set.select("a.txt");
    assert_eq!(sel.selected, Some(1));
}

#[test]
fn unmatched_file_stays_in_place() {
    let set = set_of(vec![rule("*.jpg", "/Pictures")]);
    let plan = plan_dispatch(&set, "/watch/notes.md").unwrap();
    match &plan {
        DispatchPlan::NoRuleMatched { filename } => assert_eq!(filename, "notes.md"),
        DispatchPlan::Move { .. } => panic!("no rule should match"),
    }
    match plan.finish(Ok(())) {
        DispatchOutcome::NoRuleMatched { filename } => assert_eq!(filename, "notes.md"),
        _ => panic!("expected NoRuleMatched"),
    }
}

#[test]
fn invalid_rules_are_dropped_and_reported() {
    let rules = vec![
        rule("*.jpg", "/Pictures"),
        rule("*.pdf", "/nowhere"),
        rule("[abc", "/Docs"),
        rule("*.mp3", "relative/Music"),
        rule("*.txt", "/etc/file"),
    ];
    let facts = vec![
        dir(),
        PathFacts { absolute: true, exists: false, is_dir: false },
        dir(),
        PathFacts { absolute: false, exists: true, is_dir: true },
        PathFacts { absolute: true, exists: true, is_dir: false },
    ];
    let (set, errors) = RuleSet::compile(&rules, &facts);
    assert_eq!(set.len(), 1);
    assert_eq!(set.len(), rules.len() - errors.len());
    assert_eq!(set.get(0).pattern(), "*.jpg");
    assert_eq!(set.get(0).target(), "/Pictures");
    let idx: Vec<usize> = errors.iter().map(|e| e.index).collect();
    assert_eq!(idx, vec![1, 2, 3, 4]);
    assert!(matches!(errors[0].fault, RuleFault::InvalidTarget { problem: PathProblem::Missing }));
    assert!(matches!(&errors[1].fault, RuleFault::InvalidPattern { reason } if !reason.is_empty()));
    assert_eq!(errors[1].rule.pattern, "[abc");
    assert!(matches!(errors[2].fault, RuleFault::InvalidTarget { problem: PathProblem::NotAbsolute }));
    assert!(matches!(errors[3].fault, RuleFault::InvalidTarget { problem: PathProblem::NotADirectory }));
}

#[test]
fn all_rules_invalid_gives_empty_set() {
    let rules = vec![rule("*.jpg", "/gone")];
    let facts = vec![PathFacts { absolute: true, exists: false, is_dir: false }];
    let (set, errors) = RuleSet::compile(&rules, &facts);
    assert_eq!(set.len(), 0);
    assert_eq!(errors.len(), 1);
    let plan = plan_dispatch(&set, "/watch/photo.jpg").unwrap();
    assert!(matches!(plan, DispatchPlan::NoRuleMatched { .. }));
}

#[test]
fn failed_reload_keeps_previous_rules() {
    let mut state = WatchLoop::new("/cfg/rules.yaml".to_string(), set_of(vec![rule("*.jpg", "/Pictures")]));
    let report = state.apply_reload(Err("bad yaml".to_string()));
    assert!(matches!(&report, ReloadReport::Kept { reason } if reason == "bad yaml"));
    assert_eq!(state.rules().len(), 1);
    match state.on_event(&FileEvent::Created("/watch/photo.jpg".to_string())) {
        LoopAction::Dispatch(plan) => assert_eq!(expect_move(&plan).2, "/Pictures/photo.jpg"),
        _ => panic!("expected a dispatch"),
    }
}

#[test]
fn successful_reload_replaces_rules() {
    let mut state = WatchLoop::new("/cfg/rules.yaml".to_string(), set_of(vec![rule("*.jpg", "/Pictures")]));
    let rules = vec![rule("*.jpg", "/Photos"), rule("*.png", "/gone")];
    let facts = vec![dir(), PathFacts { absolute: true, exists: false, is_dir: false }];
    match state.apply_reload(Ok((rules, facts))) {
        ReloadReport::Replaced { errors } => assert_eq!(errors.len(), 1),
        ReloadReport::Kept { .. } => panic!("expected a replacement"),
    }
    assert_eq!(state.rules().len(), 1);
    assert_eq!(state.rules().get(0).target(), "/Photos");
}

#[test]
fn photo_is_moved_into_pictures() {
    let set = set_of(vec![rule("*.jpg", "/Pictures")]);
    let plan = plan_dispatch(&set, "/watch/photo.jpg").unwrap();
    let (_, from, to, _) = expect_move(&plan);
    assert_eq!(from, "/watch/photo.jpg");
    assert_eq!(to, "/Pictures/photo.jpg");
    match plan.finish(Ok(())) {
        DispatchOutcome::Moved { from, to } => {
            assert_eq!(from, "/watch/photo.jpg");
            assert_eq!(to, "/Pictures/photo.jpg");
        }
        _ => panic!("expected Moved"),
    }
}

#[test]
fn duplicate_create_second_move_fails() {
    let state = WatchLoop::new("/cfg/rules.yaml".to_string(), set_of(vec![rule("*.jpg", "/Pictures")]));
    let event = FileEvent::Created("/watch/photo.jpg".to_string());
    let first = match state.on_event(&event) {
        LoopAction::Dispatch(p) => p,
        _ => panic!("expected a dispatch"),
    };
    let second = match state.on_event(&event) {
        LoopAction::Dispatch(p) => p,
        _ => panic!("expected a dispatch"),
    };
    assert_eq!(expect_move(&first).1, expect_move(&second).1);
    assert_eq!(expect_move(&first).2, expect_move(&second).2);
    assert!(matches!(first.finish(Ok(())), DispatchOutcome::Moved { .. }));
    match second.finish(Err("No such file or directory".to_string())) {
        DispatchOutcome::MoveFailed { filename, target, cause } => {
            assert_eq!(filename, "photo.jpg");
            assert_eq!(target, "/Pictures");
            assert_eq!(cause, "No such file or directory");
        }
        _ => panic!("expected MoveFailed"),
    }
    assert_eq!(state.rules().len(), 1);
}

#[test]
fn events_are_routed() {
    let state = WatchLoop::new("/cfg/rules.yaml".to_string(), set_of(vec![rule("*.jpg", "/Pictures")]));
    assert!(matches!(state.on_event(&FileEvent::Written("/cfg/rules.yaml".to_string())), LoopAction::Reload));
    assert!(matches!(state.on_event(&FileEvent::Written("/watch/photo.jpg".to_string())), LoopAction::Ignore));
    assert!(matches!(state.on_event(&FileEvent::Other), LoopAction::Ignore));
    assert!(matches!(state.on_event(&FileEvent::Created("/".to_string())), LoopAction::Ignore));
    assert_eq!(state.rule_file(), "/cfg/rules.yaml");
}

#[test]
fn path_without_file_name_plans_nothing() {
    let set = set_of(vec![rule("*", "/All")]);
    assert!(plan_dispatch(&set, "/").is_none());
    assert!(plan_dispatch(&set, "").is_none());
    assert!(plan_dispatch(&set, "/watch/..").is_none());
}

#[test]
fn matching_uses_base_name_only() {
    let set = set_of(vec![rule("watch*", "/W"), rule("*.jpg", "/Pictures")]);
    let plan = plan_dispatch(&set, "/watch/photo.jpg").unwrap();
    let (idx, _, to, shadowed) = expect_move(&plan);
    assert_eq!(idx, 1);
    assert_eq!(to, "/Pictures/photo.jpg");
    assert!(shadowed.is_empty());
}

#[test]
fn glob_syntax() {
    let q = PatternMatcher::compile("?.txt").ok().unwrap();
    assert!(q.is_match("a.txt"));
    assert!(!q.is_match("ab.txt"));
    let class = PatternMatcher::compile("img[0-9].png").ok().unwrap();
    assert!(class.is_match("img7.png"));
    assert!(!class.is_match("imgx.png"));
    assert_eq!(class.pattern(), "img[0-9].png");
    let star = PatternMatcher::compile("*.jpg").ok().unwrap();
    assert!(star.is_match("photo.jpg"));
    assert!(!star.is_match("photo.jpeg"));
    match PatternMatcher::compile("[a-") {
        Err(e) => {
            assert_eq!(e.pattern, "[a-");
            assert!(!e.reason.is_empty());
        }
        Ok(_) => panic!("expected an invalid pattern"),
    }
}

#[test]
fn paths_are_joined_with_one_separator() {
    assert_eq!(join_path("/Pictures", "photo.jpg"), "/Pictures/photo.jpg");
    assert_eq!(join_path("/Pictures/", "photo.jpg"), "/Pictures/photo.jpg");
    assert_eq!(join_path("", "photo.jpg"), "photo.jpg");
}

#[test]
fn directory_checks_report_first_problem() {
    assert!(is_valid_target(&dir()));
    assert!(check_watch_directory(&dir()).is_ok());
    let relative_missing = PathFacts { absolute: false, exists: false, is_dir: false };
    assert_eq!(target_problem(&relative_missing), Some(PathProblem::NotAbsolute));
    assert_eq!(check_watch_directory(&relative_missing), Err(PathProblem::NotAbsolute));
    let missing = PathFacts { absolute: true, exists: false, is_dir: false };
    assert_eq!(check_watch_directory(&missing), Err(PathProblem::Missing));
    assert!(!is_valid_target(&missing));
    let file = PathFacts { absolute: true, exists: true, is_dir: false };
    assert_eq!(target_problem(&file), Some(PathProblem::NotADirectory));
    assert_eq!(PathProblem::Missing.describe(), "does not exist");
}

#[test]
fn example_rules_cover_images_documents_audio() {
    let ex = PatternRule::examples("/home/u/Pictures".to_string(), "/home/u/Documents".to_string(), "/home/u/Music".to_string());
    assert_eq!(ex.len(), 3);
    assert_eq!(ex[0].pattern, "*.jpg");
    assert_eq!(ex[0].target, "/home/u/Pictures");
    assert_eq!(ex[1].pattern, "*.pdf");
    assert_eq!(ex[1].target, "/home/u/Documents");
    assert_eq!(ex[2].pattern, "*.mp3");
    assert_eq!(ex[2].target, "/home/u/Music");
}

#[test]
fn deeply_nested_alternates_are_rejected_not_fatal() {
    let pattern = format!("{}a{}", "{".repeat(251), "}".repeat(251));
    match PatternMatcher::compile(&pattern) {
        Err(e) => {
            assert_eq!(e.pattern, pattern);
            assert!(!e.reason.is_empty());
        }
        Ok(_) => panic!("expected an invalid pattern"),
    }
    let rules = vec![rule(&pattern, "/A"), rule("*.jpg", "/Pictures")];
    let (set, errors) = RuleSet::compile(&rules, &vec![dir(); 2]);
    assert_eq!(set.len(), 1);
    assert_eq!(errors.len(), 1);
    assert!(matches!(errors[0].fault, RuleFault::InvalidPattern { .. }));
}

#[test]
fn overlong_pattern_is_rejected() {
    let pattern = "a".repeat(4097);
    assert!(PatternMatcher::compile(&pattern).is_err());
    let longest = "a".repeat(4096);
    assert!(PatternMatcher::compile(&longest).is_ok());
}

#[test]
fn reload_reports_dropped_rules() {
    let mut state = WatchLoop::new("/cfg/rules.yaml".to_string(), RuleSet::compile(&vec![], &vec![]).0);
    let rules = vec![rule("[x", "/A"), rule("*.jpg", "/Pictures"), rule("*.png", "/gone")];
    let facts = vec![dir(), dir(), PathFacts { absolute: true, exists: false, is_dir: false }];
    match state.apply_reload(Ok((rules, facts))) {
        ReloadReport::Replaced { errors } => {
            let idx: Vec<usize> = errors.iter().map(|e| e.index).collect();
            assert_eq!(idx, vec![0, 2]);
            assert!(matches!(errors[0].fault, RuleFault::InvalidPattern { .. }));
            assert!(matches!(errors[1].fault, RuleFault::InvalidTarget { problem: PathProblem::Missing }));
        }
        ReloadReport::Kept { .. } => panic!("expected a replacement"),
    }
    assert_eq!(state.rules().len(), 1);
}
