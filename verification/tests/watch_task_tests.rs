use hotfnl::hotlib::PatchErr;
use hotfnl::watch_task::{WatchAction, WatchEvent, WatchRequest, WatchTask};

fn request(t: &mut WatchTask<u32>, r: WatchRequest) -> WatchAction<u32> {
    t.step(WatchEvent::Request(r))
}

#[test]
fn new_task_is_idle() {
    let mut t: WatchTask<u32> = WatchTask::new();
    assert!(!t.is_reload && !t.is_rebuild && !t.is_running);
    assert!(t.load_result.is_none());
    assert!(matches!(t.step(WatchEvent::Continue), WatchAction::Idle));
    assert!(!t.is_running);
}

#[test]
fn requests_are_gathered_into_one_delay() {
    let mut t: WatchTask<u32> = WatchTask::new();
    assert!(matches!(request(&mut t, WatchRequest::ReloadLib), WatchAction::StartDelay));
    assert!(t.is_running && t.is_reload);
    assert!(matches!(request(&mut t, WatchRequest::ReloadLib), WatchAction::Wait));
    assert!(matches!(request(&mut t, WatchRequest::Rebuild), WatchAction::Wait));
    assert!(t.is_rebuild && t.is_reload);
}

#[test]
fn rebuild_before_reload_then_apply() {
    let mut t: WatchTask<u32> = WatchTask::new();
    request(&mut t, WatchRequest::ReloadLib);
    request(&mut t, WatchRequest::Rebuild);
    assert!(matches!(t.step(WatchEvent::Continue), WatchAction::Rebuild));
    assert!(!t.is_rebuild && t.is_reload);
    assert!(matches!(t.step(WatchEvent::Continue), WatchAction::Load));
    assert!(!t.is_reload);
    assert!(matches!(t.step(WatchEvent::Loaded(Ok(7))), WatchAction::Pause));
    assert_eq!(t.load_result, Some(7));
    assert!(matches!(t.step(WatchEvent::Continue), WatchAction::Apply(7)));
    assert!(t.load_result.is_none() && t.is_running);
    assert!(matches!(t.step(WatchEvent::Continue), WatchAction::Idle));
    assert!(!t.is_running);
}

#[test]
fn newer_reload_closes_waiting_library() {
    let mut t: WatchTask<u32> = WatchTask::new();
    request(&mut t, WatchRequest::ReloadLib);
    assert!(matches!(t.step(WatchEvent::Continue), WatchAction::Load));
    t.step(WatchEvent::Loaded(Ok(1)));
    assert!(matches!(request(&mut t, WatchRequest::ReloadLib), WatchAction::Wait));
    assert!(matches!(t.step(WatchEvent::Continue), WatchAction::Close(1)));
    assert!(t.load_result.is_none());
    assert!(matches!(t.step(WatchEvent::Closed(true)), WatchAction::Load));
    assert!(matches!(t.step(WatchEvent::Closed(false)), WatchAction::Restart));
    t.step(WatchEvent::Loaded(Ok(2)));
    assert!(matches!(t.step(WatchEvent::Continue), WatchAction::Apply(2)));
}

#[test]
fn load_failures() {
    let mut t: WatchTask<u32> = WatchTask::new();
    request(&mut t, WatchRequest::ReloadLib);
    t.step(WatchEvent::Continue);
    assert!(matches!(
        t.step(WatchEvent::Loaded(Err(PatchErr::FailedLoadLib))),
        WatchAction::ReportError(PatchErr::FailedLoadLib)
    ));
    assert!(matches!(
        t.step(WatchEvent::Loaded(Err(PatchErr::NoGetFunctionsFn))),
        WatchAction::ReportError(PatchErr::NoGetFunctionsFn)
    ));
    assert!(matches!(
        t.step(WatchEvent::Loaded(Err(PatchErr::OtherError))),
        WatchAction::ReportError(PatchErr::OtherError)
    ));
    assert!(matches!(t.step(WatchEvent::Loaded(Err(PatchErr::ToManyChange))), WatchAction::Restart));
    assert!(matches!(
        t.step(WatchEvent::Loaded(Err(PatchErr::FailedCleanLib("busy".to_string())))),
        WatchAction::Restart
    ));
    assert!(t.load_result.is_none());
    assert!(matches!(t.step(WatchEvent::Continue), WatchAction::Idle));
}
