use website::submodule::Submodules;
use website::sync::{SubmoduleSync, SyncAction, SyncEvent, SyncPhase, SyncRun, SyncStage};

fn config() -> Submodules {
    Submodules::parse("[[submodule]]\nname = \"blog\"\nurl = \"https://example.org/blog.git\"\ncommit = \"abc123\"\n")
        .ok()
        .unwrap()
}

fn git(action: &SyncAction) -> (Vec<String>, bool) {
    match action {
        SyncAction::RunGit { args, in_checkout } => (args.clone(), *in_checkout),
        _ => panic!("expected a git command"),
    }
}

fn strings(v: &[&str]) -> Vec<String> {
    v.iter().map(|s| s.to_string()).collect()
}

#[test]
fn start_asks_whether_checkout_exists() {
    let subs = config();
    let (sync, action) = SubmoduleSync::start("/site/submodules", &subs.configs()[0]);
    assert_eq!(sync.checkout_path(), "/site/submodules/blog");
    assert_eq!(sync.current_phase(), SyncPhase::CheckingPath);
    match action {
        SyncAction::CheckPath(p) => assert_eq!(p, "/site/submodules/blog"),
        _ => panic!("expected CheckPath"),
    }
}

#[test]
fn up_to_date_checkout_is_left_alone() {
    let subs = config();
    let (mut sync, _) = SubmoduleSync::start("/s", &subs.configs()[0]);
    let a = sync.step(SyncEvent::PathExists(true));
    assert_eq!(git(&a), (strings(&["rev-parse", "HEAD"]), true));
    let a = sync.step(SyncEvent::CommandSucceeded("abc123\n".to_string()));
    assert!(matches!(a, SyncAction::Finish));
    assert_eq!(sync.current_phase(), SyncPhase::Done);
}

#[test]
fn missing_checkout_is_cloned_fetched_and_reset() {
    let subs = config();
    let (mut sync, _) = SubmoduleSync::start("/s", &subs.configs()[0]);
    let a = sync.step(SyncEvent::PathExists(false));
    assert_eq!(
        git(&a),
        (strings(&["clone", "https://example.org/blog.git", "/s/blog"]), false)
    );
    let a = sync.step(SyncEvent::CommandSucceeded(String::new()));
    assert_eq!(git(&a), (strings(&["rev-parse", "HEAD"]), true));
    let a = sync.step(SyncEvent::CommandSucceeded("fff000\n".to_string()));
    assert_eq!(git(&a), (strings(&["cat-file", "-t", "abc123"]), true));
    let a = sync.step(SyncEvent::CommandFailed);
    assert_eq!(git(&a), (strings(&["fetch", "origin", "abc123"]), true));
    let a = sync.step(SyncEvent::CommandSucceeded(String::new()));
    assert_eq!(git(&a), (strings(&["reset", "--hard", "abc123"]), true));
    let a = sync.step(SyncEvent::CommandSucceeded(String::new()));
    assert!(matches!(a, SyncAction::Finish));
}

#[test]
fn known_commit_is_not_fetched() {
    let subs = config();
    let (mut sync, _) = SubmoduleSync::start("/s", &subs.configs()[0]);
    sync.step(SyncEvent::PathExists(true));
    sync.step(SyncEvent::CommandSucceeded("old\n".to_string()));
    let a = sync.step(SyncEvent::CommandSucceeded("commit\n".to_string()));
    assert_eq!(git(&a), (strings(&["reset", "--hard", "abc123"]), true));
    assert_eq!(sync.current_phase(), SyncPhase::Resetting);
}

#[test]
fn other_object_kind_is_fetched() {
    let subs = config();
    let (mut sync, _) = SubmoduleSync::start("/s", &subs.configs()[0]);
    sync.step(SyncEvent::PathExists(true));
    sync.step(SyncEvent::CommandSucceeded("old\n".to_string()));
    let a = sync.step(SyncEvent::CommandSucceeded("commit".to_string()));
    assert_eq!(git(&a), (strings(&["fetch", "origin", "abc123"]), true));
}

#[test]
fn head_is_compared_after_trimming() {
    let subs = config();
    let (mut sync, _) = SubmoduleSync::start("/s", &subs.configs()[0]);
    sync.step(SyncEvent::PathExists(true));
    let a = sync.step(SyncEvent::CommandSucceeded("  abc123 \n".to_string()));
    assert!(matches!(a, SyncAction::Finish));
}

#[test]
fn failures_name_their_stage() {
    let subs = config();
    let (mut sync, _) = SubmoduleSync::start("/s", &subs.configs()[0]);
    sync.step(SyncEvent::PathExists(false));
    assert!(matches!(sync.step(SyncEvent::CommandFailed), SyncAction::Fail(SyncStage::Clone)));
    assert_eq!(sync.current_phase(), SyncPhase::Failed);

    let (mut sync, _) = SubmoduleSync::start("/s", &subs.configs()[0]);
    sync.step(SyncEvent::PathExists(true));
    assert!(matches!(sync.step(SyncEvent::CommandFailed), SyncAction::Fail(SyncStage::ReadHead)));

    let (mut sync, _) = SubmoduleSync::start("/s", &subs.configs()[0]);
    sync.step(SyncEvent::PathExists(true));
    sync.step(SyncEvent::CommandSucceeded("x".to_string()));
    sync.step(SyncEvent::CommandFailed);
    assert!(matches!(sync.step(SyncEvent::CommandFailed), SyncAction::Fail(SyncStage::Fetch)));

    let (mut sync, _) = SubmoduleSync::start("/s", &subs.configs()[0]);
    sync.step(SyncEvent::PathExists(true));
    sync.step(SyncEvent::CommandSucceeded("x".to_string()));
    sync.step(SyncEvent::CommandSucceeded("commit\n".to_string()));
    assert!(matches!(sync.step(SyncEvent::CommandFailed), SyncAction::Fail(SyncStage::Reset)));
}

#[test]
fn second_run_only_reads_head() {
    let subs = config();
    let (mut sync, _) = SubmoduleSync::start("/s", &subs.configs()[0]);
    let a = sync.step(SyncEvent::PathExists(true));
    assert_eq!(git(&a), (strings(&["rev-parse", "HEAD"]), true));
    let a = sync.step(SyncEvent::CommandSucceeded("abc123\n".to_string()));
    assert!(matches!(a, SyncAction::Finish));
}

#[test]
fn unicode_white_space_is_trimmed() {
    let subs = config();
    let (mut sync, _) = SubmoduleSync::start("/s", &subs.configs()[0]);
    sync.step(SyncEvent::PathExists(true));
    let a = sync.step(SyncEvent::CommandSucceeded("\u{a0}\tabc123\u{2003}\r\n".to_string()));
    assert!(matches!(a, SyncAction::Finish));
}

#[test]
fn expects_only_the_answer_to_the_pending_action() {
    let subs = config();
    let (mut sync, _) = SubmoduleSync::start("/s", &subs.configs()[0]);
    assert!(sync.expects(&SyncEvent::PathExists(true)));
    assert!(!sync.expects(&SyncEvent::CommandFailed));
    sync.step(SyncEvent::PathExists(true));
    assert!(!sync.expects(&SyncEvent::PathExists(false)));
    assert!(sync.expects(&SyncEvent::CommandFailed));
    sync.step(SyncEvent::CommandSucceeded("abc123".to_string()));
    assert!(!sync.expects(&SyncEvent::CommandFailed));
}

fn two() -> Submodules {
    Submodules::parse(
        "[[submodule]]\nname = \"a\"\nurl = \"ua\"\ncommit = \"ca\"\n[[submodule]]\nname = \"b\"\nurl = \"ub\"\ncommit = \"cb\"\n",
    )
    .ok()
    .unwrap()
}

#[test]
fn run_goes_through_submodules_in_order() {
    let subs = two();
    let (mut run, a) = SyncRun::start("/s", &subs);
    assert!(matches!(a, SyncAction::CheckPath(ref p) if p == "/s/a"));
    assert_eq!(run.current_index(), 0);
    run.step(SyncEvent::PathExists(true));
    assert_eq!(run.checkout_path(), "/s/a");
    let a = run.step(SyncEvent::CommandSucceeded("ca\n".to_string()));
    assert!(matches!(a, SyncAction::CheckPath(ref p) if p == "/s/b"));
    assert_eq!(run.current_index(), 1);
    run.step(SyncEvent::PathExists(true));
    let a = run.step(SyncEvent::CommandSucceeded("cb\n".to_string()));
    assert!(matches!(a, SyncAction::Finish));
    assert!(!run.expects(&SyncEvent::CommandFailed));
}

#[test]
fn run_stops_at_the_first_failure() {
    let subs = two();
    let (mut run, _) = SyncRun::start("/s", &subs);
    run.step(SyncEvent::PathExists(true));
    let a = run.step(SyncEvent::CommandFailed);
    assert!(matches!(a, SyncAction::Fail(SyncStage::ReadHead)));
    assert_eq!(run.current_index(), 0);
    assert!(!run.expects(&SyncEvent::PathExists(true)));
}

#[test]
fn run_without_submodules_finishes_at_once() {
    let subs = Submodules::parse("submodule = []").ok().unwrap();
    let (run, a) = SyncRun::start("/s", &subs);
    assert!(matches!(a, SyncAction::Finish));
    assert!(!run.expects(&SyncEvent::PathExists(true)));
}
