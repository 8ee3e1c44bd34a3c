use codecurator::fetch::{
    collect_downloads, fetch_step, path_for, url_for, Branch, FetchAction, FetchEvent, FetchState,
    FetchTarget, BACKOFF_SECONDS,
};

fn target() -> FetchTarget {
    FetchTarget { user: "octocat".to_string(), repo: "Hello-World".to_string(), dir: "./zip".to_string() }
}

#[test]
fn urls_and_paths() {
    let t = target();
    assert_eq!(url_for(&t, Branch::Main), "https://github.com/octocat/Hello-World/archive/refs/heads/main.zip");
    assert_eq!(url_for(&t, Branch::Master), "https://github.com/octocat/Hello-World/archive/refs/heads/master.zip");
    assert_eq!(path_for(&t, None), "./zip/octocat-Hello-World.zip");
    assert_eq!(path_for(&t, Some(&"v1".to_string())), "./zip/octocat-Hello-World_v1.zip");
}

/// Runs one fetch against a fake remote with the given tag, where `existing`
/// tells which paths are on disk; returns the actions taken.
fn run(t: &FetchTarget, tag: Option<&str>, existing: &mut Vec<String>) -> Vec<FetchAction> {
    let mut state = FetchState::Start;
    let mut event = FetchEvent::Begin;
    let mut actions = Vec::new();
    loop {
        let (next, action) = fetch_step(t, state, event);
        state = next;
        event = match &action {
            FetchAction::Probe { .. } => FetchEvent::Probed(tag.map(|s| s.to_string())),
            FetchAction::CheckExists { path } => FetchEvent::CacheChecked(existing.contains(path)),
            FetchAction::Download { .. } => FetchEvent::Downloaded(true),
            FetchAction::CompareWith { .. } => FetchEvent::Compared(false),
            FetchAction::WriteTo { path } => {
                existing.push(path.clone());
                FetchEvent::Written(true)
            },
            FetchAction::Sleep { .. } => FetchEvent::Slept,
            FetchAction::Finish { .. } | FetchAction::Abandon => {
                actions.push(action);
                return actions;
            },
        };
        actions.push(action);
    }
}

#[test]
fn second_fetch_with_same_tag_downloads_nothing() {
    let t = target();
    let mut disk = Vec::new();
    let first = run(&t, Some("abc"), &mut disk);
    assert!(first.iter().any(|a| matches!(a, FetchAction::Download { .. })));
    assert_eq!(disk, vec!["./zip/octocat-Hello-World_abc.zip".to_string()]);
    let second = run(&t, Some("abc"), &mut disk);
    assert!(!second.iter().any(|a| matches!(a, FetchAction::Download { .. })));
    assert!(matches!(second.last(), Some(FetchAction::Finish { path }) if path == "./zip/octocat-Hello-World_abc.zip"));
}

#[test]
fn untagged_fetch_writes_untagged_path() {
    let t = target();
    let mut disk = Vec::new();
    let actions = run(&t, None, &mut disk);
    assert_eq!(disk, vec!["./zip/octocat-Hello-World.zip".to_string()]);
    assert!(matches!(actions.last(), Some(FetchAction::Finish { .. })));
}

#[test]
fn identical_untagged_archive_is_not_rewritten() {
    let t = target();
    let (s, _) = fetch_step(&t, FetchState::Downloading { branch: Branch::Main, target: "x".to_string() }, FetchEvent::Downloaded(true));
    let (s, a) = fetch_step(&t, s, FetchEvent::Compared(true));
    assert!(matches!(s, FetchState::Done { .. }));
    assert!(matches!(a, FetchAction::Finish { path } if path == "./zip/octocat-Hello-World.zip"));
}

#[test]
fn failure_on_main_retries_master_after_backoff() {
    let t = target();
    let (s, a) = fetch_step(&t, FetchState::Downloading { branch: Branch::Main, target: "p".to_string() }, FetchEvent::Downloaded(false));
    assert!(matches!(a, FetchAction::Sleep { seconds } if seconds == BACKOFF_SECONDS));
    assert_eq!(BACKOFF_SECONDS, 1);
    let (s, a) = fetch_step(&t, s, FetchEvent::Slept);
    assert!(matches!(s, FetchState::Probing { branch: Branch::Master }));
    assert!(matches!(a, FetchAction::Probe { url } if url.ends_with("/master.zip")));
    let (s, _) = fetch_step(&t, s, FetchEvent::Probed(None));
    let (s, a) = fetch_step(&t, s, FetchEvent::Downloaded(false));
    assert!(matches!(s, FetchState::Failed));
    assert!(matches!(a, FetchAction::Abandon));
}

#[test]
fn write_failure_on_master_gives_up() {
    let t = target();
    let (s, a) = fetch_step(&t, FetchState::Writing { branch: Branch::Master, target: "p".to_string() }, FetchEvent::Written(false));
    assert!(matches!(s, FetchState::Failed));
    assert!(matches!(a, FetchAction::Abandon));
}

#[test]
fn mismatched_event_gives_up() {
    let t = target();
    let (s, a) = fetch_step(&t, FetchState::Start, FetchEvent::Slept);
    assert!(matches!(s, FetchState::Failed));
    assert!(matches!(a, FetchAction::Abandon));
}

#[test]
fn downloads_are_collected_or_rejected() {
    let r = collect_downloads(vec![None, Some("a".to_string()), None, Some("b".to_string())]);
    assert_eq!(r, Ok(vec!["a".to_string(), "b".to_string()]));
    assert!(collect_downloads(vec![None, None]).is_err());
    assert!(collect_downloads(Vec::new()).is_err());
}
