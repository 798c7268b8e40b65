//! The debouncing reload task: requests for a rebuild or a reload are gathered while a
//! short delay runs, then handled in turn, rebuilds first, until nothing is left.
//!
//! The task only decides. Whoever drives it waits the delays, rebuilds, closes and loads
//! libraries and applies them, and tells the task what came of it.
use vstd::prelude::*;
use crate::hotlib::{patch_failure_response, PatchErr, PatchResponse};

verus! {

/// What can be asked of the task.
#[derive(Debug, Clone, Copy, PartialEq, Eq, Structural)]
pub enum WatchRequest {
    /// Rebuild the project.
    Rebuild,
    /// Load the newest library and patch it in.
    ReloadLib,
}

/// What the task is told.
pub enum WatchEvent<L> {
    /// A request arrived.
    Request(WatchRequest),
    /// The delay ended, or the last action was carried out: handle what is pending.
    Continue,
    /// The library that waited to be applied was closed; `true` when that succeeded.
    Closed(bool),
    /// The newest library was loaded together with its function table, or it could not be.
    Loaded(Result<L, PatchErr>),
}

/// What the task asks its driver to do.
pub enum WatchAction<L> {
    /// Nothing: a delay or a round of handling is already under way.
    Wait,
    /// Wait the short delay that gathers requests, then send `Continue`.
    StartDelay,
    /// Rebuild, then send `Continue`.
    Rebuild,
    /// Close this library, loaded earlier and not applied yet, then send `Closed`.
    Close(L),
    /// Load the newest library, then send `Loaded`.
    Load,
    /// Wait a moment, then send `Continue`.
    Pause,
    /// Tell the callbacks that the patch failed, wait a moment, then send `Continue`.
    ReportError(PatchErr),
    /// Apply this library and its function table, then send `Continue`.
    Apply(L),
    /// End the process, so that it is started again with a library that matches it.
    Restart,
    /// Everything is handled: the task is idle until the next request.
    Idle,
}

/// The task's state; `L` is a loaded library with its function table.
pub struct WatchTask<L> {
    /// A reload was asked for and not handled yet.
    pub is_reload: bool,
    /// A rebuild was asked for and not handled yet.
    pub is_rebuild: bool,
    /// A delay or a round of handling is under way.
    pub is_running: bool,
    /// A library that was loaded and is waiting to be applied.
    pub load_result: Option<L>,
}

/// How the task answers a library that could not be loaded: by reporting the error, or
/// by a restart where the process can no longer match its library.
pub open spec fn failure_action<L>(err: PatchErr) -> WatchAction<L> {
    match err {
        PatchErr::ToManyChange | PatchErr::FailedCleanLib(_) => WatchAction::Restart,
        _ => WatchAction::ReportError(err),
    }
}

/// The decision on one event: the next state and the action.
pub open spec fn watch_step<L>(s: WatchTask<L>, event: WatchEvent<L>) -> (WatchTask<L>, WatchAction<L>) {
    match event {
        WatchEvent::Request(r) => {
            let s1 = match r {
                WatchRequest::Rebuild => WatchTask { is_rebuild: true, ..s },
                WatchRequest::ReloadLib => WatchTask { is_reload: true, ..s },
            };
            if s.is_running {
                (s1, WatchAction::Wait)
            } else {
                (WatchTask { is_running: true, ..s1 }, WatchAction::StartDelay)
            }
        },
        WatchEvent::Continue => if s.is_rebuild {
            (WatchTask { is_rebuild: false, ..s }, WatchAction::Rebuild)
        } else if s.is_reload {
            match s.load_result {
                Some(l) => (
                    WatchTask { is_reload: false, load_result: None, ..s },
                    WatchAction::Close(l),
                ),
                None => (WatchTask { is_reload: false, ..s }, WatchAction::Load),
            }
        } else {
            match s.load_result {
                Some(l) => (WatchTask { load_result: None, ..s }, WatchAction::Apply(l)),
                None => (WatchTask { is_running: false, ..s }, WatchAction::Idle),
            }
        },
        WatchEvent::Closed(ok) => if ok {
            (s, WatchAction::Load)
        } else {
            (s, WatchAction::Restart)
        },
        WatchEvent::Loaded(r) => match r {
            Ok(l) => (WatchTask { load_result: Some(l), ..s }, WatchAction::Pause),
            Err(e) => (s, failure_action(e)),
        },
    }
}

impl<L> WatchTask<L> {
    /// An idle task with nothing pending.
    pub fn new() -> (t: Self)
        ensures
            !t.is_reload,
            !t.is_rebuild,
            !t.is_running,
            t.load_result is None,
    {
        WatchTask { is_reload: false, is_rebuild: false, is_running: false, load_result: None }
    }

    /// Decides what to do on `event` (see `watch_step`).
    pub fn step(&mut self, event: WatchEvent<L>) -> (a: WatchAction<L>)
        ensures (*final(self), a) == watch_step(*old(self), event),
    {
        match event {
            WatchEvent::Request(r) => {
                match r {
                    WatchRequest::Rebuild => self.is_rebuild = true,
                    WatchRequest::ReloadLib => self.is_reload = true,
                }
                if self.is_running {
                    WatchAction::Wait
                } else {
                    self.is_running = true;
                    WatchAction::StartDelay
                }
            },
            WatchEvent::Continue => {
                if self.is_rebuild {
                    self.is_rebuild = false;
                    WatchAction::Rebuild
                } else if self.is_reload {
                    self.is_reload = false;
                    match self.load_result.take() {
                        Some(l) => WatchAction::Close(l),
                        None => WatchAction::Load,
                    }
                } else {
                    match self.load_result.take() {
                        Some(l) => WatchAction::Apply(l),
                        None => {
                            self.is_running = false;
                            WatchAction::Idle
                        },
                    }
                }
            },
            WatchEvent::Closed(ok) => if ok {
                WatchAction::Load
            } else {
                WatchAction::Restart
            },
            WatchEvent::Loaded(r) => match r {
                Ok(l) => {
                    self.load_result = Some(l);
                    WatchAction::Pause
                },
                Err(e) => match patch_failure_response(&e) {
                    PatchResponse::Exit => WatchAction::Restart,
                    PatchResponse::ReportError => WatchAction::ReportError(e),
                },
            },
        }
    }
}

/// Requests are gathered: a request is always recorded, and it starts the delay only when
/// no delay or round of handling is under way, which it then marks as under way.
pub proof fn lemma_request_debounced<L>(s: WatchTask<L>, r: WatchRequest)
    ensures
        ({
            let (t, a) = watch_step(s, WatchEvent::Request(r));
            &&& t.is_running
            &&& (a is StartDelay <==> !s.is_running)
            &&& (a is Wait <==> s.is_running)
            &&& (r == WatchRequest::Rebuild ==> t.is_rebuild && t.is_reload == s.is_reload)
            &&& (r == WatchRequest::ReloadLib ==> t.is_reload && t.is_rebuild == s.is_rebuild)
            &&& t.load_result == s.load_result
        }),
{
}

/// Handling goes in a fixed order: a pending rebuild first, then a pending reload (which
/// closes a library still waiting to be applied before loading a newer one), then the
/// waiting library is applied; the task goes idle only when nothing is left.
pub proof fn lemma_handling_order<L>(s: WatchTask<L>)
    ensures
        ({
            let (t, a) = watch_step(s, WatchEvent::Continue);
            &&& s.is_rebuild ==> a is Rebuild && !t.is_rebuild && t.is_reload == s.is_reload
            &&& !s.is_rebuild && s.is_reload ==> !t.is_reload && t.load_result is None && match s.load_result {
                Some(l) => a == WatchAction::Close(l),
                None => a is Load,
            }
            &&& !s.is_rebuild && !s.is_reload && s.load_result is Some ==> a == WatchAction::Apply(
                s.load_result->0,
            ) && t.load_result is None
            &&& (a is Idle <==> !s.is_rebuild && !s.is_reload && s.load_result is None)
            &&& a is Idle ==> !t.is_running
        }),
{
}

/// A library that loads is applied on the next round unless a request came meanwhile; a
/// library that fails to load is reported, or ends the process when the set of functions
/// changed or a library could not be closed.
pub proof fn lemma_loaded_then_applied<L>(s: WatchTask<L>, r: Result<L, PatchErr>)
    ensures
        ({
            let (t, a) = watch_step(s, WatchEvent::Loaded(r));
            match r {
                Ok(l) => a is Pause && t.load_result == Some(l) && (!s.is_rebuild && !s.is_reload
                    ==> watch_step(t, WatchEvent::Continue).1 == WatchAction::Apply(l)),
                Err(e) => t == s && a == (match e {
                    PatchErr::ToManyChange | PatchErr::FailedCleanLib(_) => WatchAction::<L>::Restart,
                    _ => WatchAction::ReportError(e),
                }),
            }
        }),
{
}

/// Whether something is pending: a request, or a library waiting to be applied.
pub open spec fn pending<L>(s: WatchTask<L>) -> bool {
    s.is_reload || s.is_rebuild || s.load_result is Some
}

/// Nothing is left pending while the task is idle: if that holds before an event, it
/// holds after it, provided that a loaded library is reported only during a round, as
/// the driver does.
pub proof fn lemma_nothing_left_idle<L>(s: WatchTask<L>, event: WatchEvent<L>)
    requires
        pending(s) ==> s.is_running,
        event is Loaded ==> s.is_running,
    ensures
        pending(watch_step(s, event).0) ==> watch_step(s, event).0.is_running,
{
}

} // verus!
