use hotfnl::path::HotPath;
use hotfnl::server::{
    paths_touch_rust, AppStatus, HotProjectState, RebuildStatus, ServerAction, ServerEvent,
    RebuildPhase, ServerState, APP_RESPAWNS,
};

fn src_event(paths: &[&str]) -> ServerEvent {
    ServerEvent::SourceEvent { is_modify: true, paths: paths.iter().map(|p| HotPath::parse(p)).collect() }
}

fn tick(rebuild: RebuildStatus, app: AppStatus) -> ServerEvent {
    ServerEvent::Tick { rebuild, app }
}

#[test]
fn rust_paths() {
    let v = vec![HotPath::parse("/a/b.txt"), HotPath::parse("/a/main.rs")];
    assert!(paths_touch_rust(&v));
    assert!(!paths_touch_rust(&vec![HotPath::parse("/a/.rs"), HotPath::parse("/a/rs")]));
    assert!(!paths_touch_rust(&vec![]));
}

#[test]
fn app_starts_once_then_waits() {
    let mut s = ServerState::new();
    assert_eq!(s.restart_budget, APP_RESPAWNS);
    assert_eq!(s.step(tick(RebuildStatus::NotStarted, AppStatus::NotStarted)), ServerAction::SpawnApp);
    assert_eq!(s.step(tick(RebuildStatus::NotStarted, AppStatus::Running)), ServerAction::Wait);
    assert_eq!(s.step(tick(RebuildStatus::NotStarted, AppStatus::Exited)), ServerAction::ForgetApp);
    assert_eq!(s.step(tick(RebuildStatus::NotStarted, AppStatus::NotStarted)), ServerAction::Wait);
}

#[test]
fn source_change_rebuild_and_success() {
    let mut s = ServerState::new();
    assert_eq!(s.step(src_event(&["/p/src/main.rs"])), ServerAction::Notify(HotProjectState::SourceChanged));
    assert_eq!(s.step(src_event(&["/p/src/main.rs"])), ServerAction::Wait);
    assert_eq!(s.step(tick(RebuildStatus::NotStarted, AppStatus::Running)), ServerAction::StartRebuild);
    assert!(!s.src_changed);
    assert_eq!(s.step(tick(RebuildStatus::Running, AppStatus::Running)), ServerAction::Wait);
    assert_eq!(s.step(tick(RebuildStatus::Exited(true), AppStatus::Running)), ServerAction::SaveLib);
    assert_eq!(
        s.step(ServerEvent::LibSaved(Some(1700))),
        ServerAction::FinishRebuild(HotProjectState::BuildSuccess(1700))
    );
    assert_eq!(s.restart_budget, APP_RESPAWNS);
}

#[test]
fn failed_build_and_unsaved_library() {
    let mut s = ServerState::new();
    s.step(src_event(&["/p/src/main.rs"]));
    assert_eq!(s.step(tick(RebuildStatus::NotStarted, AppStatus::Running)), ServerAction::StartRebuild);
    assert_eq!(
        s.step(tick(RebuildStatus::Exited(false), AppStatus::Running)),
        ServerAction::FinishRebuild(HotProjectState::BuildFailed)
    );
    assert_eq!(s.phase, RebuildPhase::Idle);
    s.step(src_event(&["/p/src/main.rs"]));
    s.step(tick(RebuildStatus::NotStarted, AppStatus::Running));
    assert_eq!(s.step(tick(RebuildStatus::Exited(true), AppStatus::Running)), ServerAction::SaveLib);
    assert_eq!(s.step(ServerEvent::LibSaved(None)), ServerAction::FinishRebuild(HotProjectState::BuildFailed));
}

#[test]
fn results_only_for_a_started_rebuild() {
    let mut s = ServerState::new();
    assert_eq!(s.step(tick(RebuildStatus::Exited(true), AppStatus::Running)), ServerAction::Wait);
    assert_eq!(s.step(tick(RebuildStatus::Exited(false), AppStatus::Running)), ServerAction::Wait);
    assert_eq!(s.step(ServerEvent::LibSaved(Some(3))), ServerAction::Wait);
    assert_eq!(s.phase, RebuildPhase::Idle);
}

#[test]
fn change_during_rebuild_restarts_it() {
    let mut s = ServerState::new();
    s.step(src_event(&["/p/src/lib.rs"]));
    assert_eq!(s.step(tick(RebuildStatus::NotStarted, AppStatus::Running)), ServerAction::StartRebuild);
    assert_eq!(s.phase, RebuildPhase::Running);
    s.step(src_event(&["/p/src/lib.rs"]));
    assert_eq!(s.step(tick(RebuildStatus::Running, AppStatus::Running)), ServerAction::KillRebuild);
    assert_eq!(s.phase, RebuildPhase::Idle);
    assert!(s.src_changed);
    assert_eq!(s.step(tick(RebuildStatus::NotStarted, AppStatus::Running)), ServerAction::StartRebuild);
}

#[test]
fn other_files_and_other_events_are_ignored() {
    let mut s = ServerState::new();
    assert_eq!(s.step(src_event(&["/p/README.md"])), ServerAction::Wait);
    let not_modify = ServerEvent::SourceEvent { is_modify: false, paths: vec![HotPath::parse("a.rs")] };
    assert_eq!(s.step(not_modify), ServerAction::Wait);
    assert!(!s.src_changed);
}

#[test]
fn manifest_change_shuts_down() {
    let mut s = ServerState::new();
    assert_eq!(s.step(ServerEvent::CargoChanged { is_modify: true }), ServerAction::Shutdown);
    assert_eq!(s.step(ServerEvent::CargoChanged { is_modify: false }), ServerAction::Wait);
}

#[test]
fn one_respawn_after_a_successful_build() {
    let mut s = ServerState::new();
    s.step(tick(RebuildStatus::NotStarted, AppStatus::NotStarted));
    assert_eq!(s.restart_budget, 0);
    s.step(src_event(&["/p/src/main.rs"]));
    s.step(tick(RebuildStatus::NotStarted, AppStatus::NotStarted));
    s.step(tick(RebuildStatus::Exited(true), AppStatus::NotStarted));
    s.step(ServerEvent::LibSaved(Some(1)));
    assert_eq!(s.step(tick(RebuildStatus::NotStarted, AppStatus::NotStarted)), ServerAction::SpawnApp);
    assert_eq!(s.step(tick(RebuildStatus::NotStarted, AppStatus::NotStarted)), ServerAction::Wait);
}
