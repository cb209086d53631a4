use gack::action::Action;
use gack::config::WatchMode;
use gack::model::Modal;
use gack::path::path_components;
use gack::watch::{
    focus_for_mouse, is_relevant_event, is_relevant_path, is_under, mouse_steps,
    refresh_fallback_interval, start_failure_message, target_dir, watcher_interval, MouseKind, MouseStep,
    RefreshSchedule, WatchEvent, WatchPath, WatchPoll, WatchReaction, WatchScope,
};

fn scope() -> WatchScope {
    WatchScope::new(
        WatchPath::new(b"/work/repo".to_vec(), Some(b"/private/work/repo".to_vec())),
        None,
        WatchPath::new(b"/work/repo/.git".to_vec(), None),
        WatchPath::new(b"/work/repo/.git".to_vec(), None),
    )
}

#[test]
fn components_follow_path_rules() {
    let parts = path_components(b"/a//b/./c/");
    assert_eq!(parts, vec![b"/".to_vec(), b"a".to_vec(), b"b".to_vec(), b"c".to_vec()]);
    assert_eq!(path_components(b"./a"), vec![b".".to_vec(), b"a".to_vec()]);
    assert_eq!(path_components(b".a"), vec![b".a".to_vec()]);
    assert!(path_components(b"").is_empty());
}

#[test]
fn is_under_compares_whole_components() {
    assert!(is_under(b"/work/repo/src/lib.rs", b"/work/repo"));
    assert!(is_under(b"/work/repo", b"/work/repo/"));
    assert!(!is_under(b"/work/repository/x", b"/work/repo"));
    assert!(!is_under(b"/work", b"/work/repo"));
}

#[test]
fn relevance_ignores_the_build_directory_but_not_git_metadata() {
    let watched = scope();
    assert_eq!(watched.target.raw, b"/work/repo/target".to_vec());
    assert_eq!(target_dir(b"/work/repo/"), b"/work/repo/target".to_vec());
    assert!(is_relevant_path(b"/work/repo/src/main.rs", &watched));
    assert!(!is_relevant_path(b"/work/repo/target/debug/app", &watched));
    assert!(is_relevant_path(b"/work/repo/.git/index", &watched));
    assert!(is_relevant_path(b"/private/work/repo/file.txt", &watched));
    assert!(!is_relevant_path(b"/elsewhere/file.txt", &watched));
    assert!(is_relevant_event(&[], &watched));
    assert!(!is_relevant_event(&[b"/elsewhere".to_vec()], &watched));
    assert!(is_relevant_event(&[b"/elsewhere".to_vec(), b"/work/repo/a".to_vec()], &watched));
}

#[test]
fn timers_follow_configuration() {
    assert_eq!(refresh_fallback_interval(None), 2500);
    assert_eq!(refresh_fallback_interval(Some(900)), 900);
    assert_eq!(watcher_interval(None), 750_000);
    assert_eq!(watcher_interval(Some(100)), 350_000);
    assert_eq!(watcher_interval(Some(1500)), 750_000);
    assert_eq!(watcher_interval(Some(60_000)), 2_000_000);
}

#[test]
fn watcher_changes_refresh_or_wait_for_dialogs() {
    let mut schedule = RefreshSchedule::new(Some(1500), true);
    assert_eq!(schedule.periodic_ms, None);
    assert_eq!(
        schedule.on_watch_poll(WatchPoll::Event(WatchEvent::Changed), Modal::Closed),
        WatchReaction::Refresh
    );
    assert_eq!(
        schedule.on_watch_poll(WatchPoll::Event(WatchEvent::Changed), Modal::Commit),
        WatchReaction::Idle
    );
    assert!(schedule.pending);
    assert!(!schedule.should_retry(Modal::Palette));
    assert!(schedule.should_retry(Modal::Help));
    schedule.retried();
    assert!(!schedule.pending);
}

#[test]
fn stopped_watcher_falls_back_to_periodic_refresh() {
    let mut schedule = RefreshSchedule::new(None, true);
    let reaction = schedule.on_watch_poll(
        WatchPoll::Event(WatchEvent::Unavailable("gone".to_string())),
        Modal::Closed,
    );
    assert_eq!(
        reaction,
        WatchReaction::Stop("Filesystem watcher unavailable: gone".to_string())
    );
    assert_eq!(schedule.periodic_ms, Some(2500));
    assert!(schedule.periodic_due(2500, Modal::Closed));
    assert!(!schedule.periodic_due(2499, Modal::Closed));
    assert!(!schedule.periodic_due(9000, Modal::Confirm));

    let mut schedule = RefreshSchedule::new(Some(800), true);
    assert_eq!(
        schedule.on_watch_poll(WatchPoll::Disconnected, Modal::Closed),
        WatchReaction::Stop("Filesystem watcher stopped; using periodic refresh".to_string())
    );
    assert_eq!(schedule.periodic_ms, Some(800));

    let mut schedule = RefreshSchedule::new(Some(800), true);
    schedule.without_watcher(WatchMode::Never);
    assert_eq!(schedule.periodic_ms, None);
    schedule.without_watcher(WatchMode::Auto);
    assert_eq!(schedule.periodic_ms, Some(800));
}

#[test]
fn start_failure_is_reported_only_when_asked_for() {
    assert_eq!(
        start_failure_message(WatchMode::Always, "no inotify"),
        Some("Filesystem watcher unavailable: no inotify".to_string())
    );
    assert_eq!(start_failure_message(WatchMode::Auto, "no inotify"), None);
}

#[test]
fn mouse_events_focus_and_select() {
    assert_eq!(focus_for_mouse(80, 50), None);
    assert_eq!(focus_for_mouse(120, 50), Some(Action::FocusDiff));
    assert_eq!(focus_for_mouse(120, 10), Some(Action::FocusChanges));
    assert_eq!(
        mouse_steps(MouseKind::ScrollDown, 120, 40, 60, 5),
        vec![MouseStep::Act(Action::FocusDiff), MouseStep::Act(Action::MoveDown)]
    );
    assert_eq!(
        mouse_steps(MouseKind::LeftDown, 120, 40, 10, 5),
        vec![MouseStep::Act(Action::FocusChanges), MouseStep::SelectVisibleRow(3, 38)]
    );
    assert_eq!(
        mouse_steps(MouseKind::LeftDown, 80, 40, 60, 1),
        vec![MouseStep::Act(Action::FocusChanges)]
    );
    assert!(mouse_steps(MouseKind::Other, 120, 40, 10, 5).is_empty());
}
