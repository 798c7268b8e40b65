//! The decisions of the wrapper process that supervises the app: when to rebuild, what to
//! report to the app, and when to respawn it.
use vstd::prelude::*;
use crate::path::{extension_spec, HotPath, PathPart};

verus! {

/// The states the wrapper reports to the running app.
#[derive(Debug, Clone, Copy, PartialEq, Eq, Structural)]
pub enum HotProjectState {
    /// A watched Rust source file changed.
    SourceChanged,
    /// A rebuild has started.
    Rebuilding,
    /// The rebuild succeeded; the library was saved under this version.
    BuildSuccess(u128),
    /// The rebuild failed.
    BuildFailed,
}

/// How many times the app is respawned after it exits, at start and after each
/// successful rebuild.
pub const APP_RESPAWNS: u32 = 1;

/// What the wrapper sees of the running `cargo build`, if one was started.
#[derive(Debug, Clone, Copy, PartialEq, Eq, Structural)]
pub enum RebuildStatus {
    NotStarted,
    Running,
    Exited(bool),
}

/// What the wrapper sees of the app process, if one was started.
#[derive(Debug, Clone, Copy, PartialEq, Eq, Structural)]
pub enum AppStatus {
    NotStarted,
    Running,
    Exited,
}

/// What happened since the wrapper last decided.
pub enum ServerEvent {
    /// A watched Cargo manifest or lock file saw an event; `is_modify` when it was a change.
    CargoChanged { is_modify: bool },
    /// A watched source path saw an event touching `paths`.
    SourceEvent { is_modify: bool, paths: Vec<HotPath> },
    /// No event for a while; the state of the rebuild and of the app.
    Tick { rebuild: RebuildStatus, app: AppStatus },
    /// The built library was saved, under the version given, or could not be saved.
    LibSaved(Option<u128>),
}

/// What the wrapper does next.
#[derive(Debug, Clone, Copy, PartialEq, Eq, Structural)]
pub enum ServerAction {
    /// Nothing.
    Wait,
    /// Stop the rebuild and the app, and stop with an error: the manifest changed.
    Shutdown,
    /// Send this state to the app.
    Notify(HotProjectState),
    /// Stop the running rebuild (the sources changed again).
    KillRebuild,
    /// Send `Rebuilding` to the app and start `cargo build`.
    StartRebuild,
    /// The build succeeded: save the built library under a new version.
    SaveLib,
    /// The rebuild is over: forget it and send this state to the app.
    FinishRebuild(HotProjectState),
    /// The app exited: forget it.
    ForgetApp,
    /// Start the app again.
    SpawnApp,
}

/// Where the wrapper's rebuild stands.
#[derive(Debug, Clone, Copy, PartialEq, Eq, Structural)]
pub enum RebuildPhase {
    /// No rebuild is under way.
    Idle,
    /// A rebuild was started and has not been seen to end.
    Running,
    /// The rebuild succeeded and its library is being saved.
    Saved,
}

/// The wrapper's own state.
#[derive(Debug, Clone, Copy, PartialEq, Eq, Structural)]
pub struct ServerState {
    /// A source change was seen and no rebuild was started for it yet.
    pub src_changed: bool,
    /// How many more times the app may be started.
    pub restart_budget: u32,
    /// Where the rebuild stands.
    pub phase: RebuildPhase,
}

/// Whether a path names a Rust source file.
pub open spec fn is_rust_file(p: Seq<PathPart>) -> bool {
    extension_spec(p) == Some(seq!['r', 's'])
}

/// Whether any of the paths names a Rust source file.
pub open spec fn touches_rust(paths: Seq<Seq<PathPart>>) -> bool {
    exists|i: int| 0 <= i < paths.len() && is_rust_file(#[trigger] paths[i])
}

/// The status of the rebuild as the wrapper takes it: what the driver reports while a
/// rebuild runs, and not started otherwise.
pub open spec fn seen_rebuild(s: ServerState, rebuild: RebuildStatus) -> RebuildStatus {
    if s.phase == RebuildPhase::Running {
        rebuild
    } else {
        RebuildStatus::NotStarted
    }
}

/// The decision on one event: the next state and the action.
pub open spec fn server_step(s: ServerState, event: ServerEvent) -> (ServerState, ServerAction) {
    match event {
        ServerEvent::CargoChanged { is_modify } => if is_modify {
            (s, ServerAction::Shutdown)
        } else {
            (s, ServerAction::Wait)
        },
        ServerEvent::SourceEvent { is_modify, paths } => if !s.src_changed && is_modify
            && touches_rust(paths@.map_values(|p: HotPath| p@)) {
            (
                ServerState { src_changed: true, ..s },
                ServerAction::Notify(HotProjectState::SourceChanged),
            )
        } else {
            (s, ServerAction::Wait)
        },
        ServerEvent::Tick { rebuild, app } => {
            let r = seen_rebuild(s, rebuild);
            if s.src_changed {
                if r != RebuildStatus::NotStarted {
                    (ServerState { phase: RebuildPhase::Idle, ..s }, ServerAction::KillRebuild)
                } else {
                    (
                        ServerState { src_changed: false, phase: RebuildPhase::Running, ..s },
                        ServerAction::StartRebuild,
                    )
                }
            } else {
                match r {
                    RebuildStatus::Running => (s, ServerAction::Wait),
                    RebuildStatus::Exited(true) => (
                        ServerState { phase: RebuildPhase::Saved, ..s },
                        ServerAction::SaveLib,
                    ),
                    RebuildStatus::Exited(false) => (
                        ServerState { phase: RebuildPhase::Idle, ..s },
                        ServerAction::FinishRebuild(HotProjectState::BuildFailed),
                    ),
                    RebuildStatus::NotStarted => match app {
                        AppStatus::Running => (s, ServerAction::Wait),
                        AppStatus::Exited => (s, ServerAction::ForgetApp),
                        AppStatus::NotStarted => if s.restart_budget > 0 {
                            (
                                ServerState { restart_budget: (s.restart_budget - 1) as u32, ..s },
                                ServerAction::SpawnApp,
                            )
                        } else {
                            (s, ServerAction::Wait)
                        },
                    },
                }
            }
        },
        ServerEvent::LibSaved(version) => if s.phase == RebuildPhase::Saved && !s.src_changed {
            match version {
                Some(v) => (
                    ServerState { restart_budget: APP_RESPAWNS, phase: RebuildPhase::Idle, ..s },
                    ServerAction::FinishRebuild(HotProjectState::BuildSuccess(v)),
                ),
                None => (
                    ServerState { phase: RebuildPhase::Idle, ..s },
                    ServerAction::FinishRebuild(HotProjectState::BuildFailed),
                ),
            }
        } else {
            (s, ServerAction::Wait)
        },
    }
}

/// Whether any of the paths names a Rust source file (its extension is `rs`).
pub fn paths_touch_rust(paths: &Vec<HotPath>) -> (b: bool)
    ensures b == touches_rust(paths@.map_values(|p: HotPath| p@)),
{
    let ghost v = paths@.map_values(|p: HotPath| p@);
    proof {
        reveal_strlit("rs");
    }
    let rs = String::from_str("rs");
    assert(rs@ =~= seq!['r', 's']);
    let n = paths.len();
    let mut i: usize = 0;
    while i < n
        invariant
            i <= n,
            n == paths@.len(),
            v == paths@.map_values(|p: HotPath| p@),
            rs@ == seq!['r', 's'],
            forall|k: int| 0 <= k < i ==> !is_rust_file(#[trigger] v[k]),
        decreases n - i,
    {
        assert(v[i as int] == paths@[i as int]@);
        match paths[i].extension() {
            Some(e) => {
                if e.eq(&rs) {
                    assert(is_rust_file(v[i as int]));
                    return true;
                }
            },
            None => {},
        }
        i = i + 1;
    }
    false
}

impl ServerState {
    /// The state the wrapper starts in: no change seen, no rebuild, the app may be started
    /// once.
    pub fn new() -> (s: Self)
        ensures
            !s.src_changed,
            s.restart_budget == APP_RESPAWNS,
            s.phase == RebuildPhase::Idle,
    {
        ServerState { src_changed: false, restart_budget: APP_RESPAWNS, phase: RebuildPhase::Idle }
    }

    /// Decides what to do on `event` (see `server_step`).
    pub fn step(&mut self, event: ServerEvent) -> (a: ServerAction)
        ensures (*final(self), a) == server_step(*old(self), event),
    {
        match event {
            ServerEvent::CargoChanged { is_modify } => if is_modify {
                ServerAction::Shutdown
            } else {
                ServerAction::Wait
            },
            ServerEvent::SourceEvent { is_modify, paths } => {
                if !self.src_changed && is_modify && paths_touch_rust(&paths) {
                    self.src_changed = true;
                    ServerAction::Notify(HotProjectState::SourceChanged)
                } else {
                    ServerAction::Wait
                }
            },
            ServerEvent::Tick { rebuild, app } => {
                let r = match self.phase {
                    RebuildPhase::Running => rebuild,
                    _ => RebuildStatus::NotStarted,
                };
                if self.src_changed {
                    match r {
                        RebuildStatus::NotStarted => {
                            self.src_changed = false;
                            self.phase = RebuildPhase::Running;
                            ServerAction::StartRebuild
                        },
                        _ => {
                            self.phase = RebuildPhase::Idle;
                            ServerAction::KillRebuild
                        },
                    }
                } else {
                    match r {
                        RebuildStatus::Running => ServerAction::Wait,
                        RebuildStatus::Exited(true) => {
                            self.phase = RebuildPhase::Saved;
                            ServerAction::SaveLib
                        },
                        RebuildStatus::Exited(false) => {
                            self.phase = RebuildPhase::Idle;
                            ServerAction::FinishRebuild(HotProjectState::BuildFailed)
                        },
                        RebuildStatus::NotStarted => match app {
                            AppStatus::Running => ServerAction::Wait,
                            AppStatus::Exited => ServerAction::ForgetApp,
                            AppStatus::NotStarted => {
                                if self.restart_budget > 0 {
                                    self.restart_budget = self.restart_budget - 1;
                                    ServerAction::SpawnApp
                                } else {
                                    ServerAction::Wait
                                }
                            },
                        },
                    }
                }
            },
            ServerEvent::LibSaved(version) => {
                let saved = match self.phase {
                    RebuildPhase::Saved => true,
                    _ => false,
                };
                if saved && !self.src_changed {
                    self.phase = RebuildPhase::Idle;
                    match version {
                        Some(v) => {
                            self.restart_budget = APP_RESPAWNS;
                            ServerAction::FinishRebuild(HotProjectState::BuildSuccess(v))
                        },
                        None => ServerAction::FinishRebuild(HotProjectState::BuildFailed),
                    }
                } else {
                    ServerAction::Wait
                }
            },
        }
    }
}

/// The app is started at most `APP_RESPAWNS` times between two successful builds: the
/// budget never grows past it, each start spends one, and only a saved build renews it.
pub proof fn lemma_restart_budget(s: ServerState, event: ServerEvent)
    requires s.restart_budget <= APP_RESPAWNS,
    ensures
        server_step(s, event).0.restart_budget <= APP_RESPAWNS,
        server_step(s, event).1 == ServerAction::SpawnApp ==> s.restart_budget > 0
            && server_step(s, event).0.restart_budget == s.restart_budget - 1,
        server_step(s, event).0.restart_budget > s.restart_budget ==> event is LibSaved,
{
}

/// A source change is reported once: while a change waits for its rebuild, no further
/// `SourceChanged` is sent, and a rebuild starts only for a waiting change.
pub proof fn lemma_source_change_once(s: ServerState, event: ServerEvent)
    ensures
        server_step(s, event).1 == ServerAction::Notify(HotProjectState::SourceChanged)
            ==> !s.src_changed && server_step(s, event).0.src_changed,
        server_step(s, event).1 == ServerAction::StartRebuild ==> s.src_changed
            && !server_step(s, event).0.src_changed,
{
}

/// The state after a run of steps over `events` from `s`, and the actions taken, in order.
pub open spec fn server_run(s: ServerState, events: Seq<ServerEvent>) -> (ServerState, Seq<ServerAction>)
    decreases events.len(),
{
    if events.len() == 0 {
        (s, Seq::empty())
    } else {
        let (s1, a) = server_step(s, events[0]);
        let (s2, rest) = server_run(s1, events.subrange(1, events.len() as int));
        (s2, seq![a] + rest)
    }
}

/// How many times the actions start the app.
pub open spec fn spawn_count(actions: Seq<ServerAction>) -> nat
    decreases actions.len(),
{
    if actions.len() == 0 {
        0
    } else {
        (if actions[0] == ServerAction::SpawnApp { 1nat } else { 0nat }) + spawn_count(
            actions.subrange(1, actions.len() as int),
        )
    }
}

/// Whether the actions report source changes and start rebuilds in turn, starting with a
/// change waiting for its rebuild when `waiting`: no second `SourceChanged` before the
/// rebuild of the first starts, and no rebuild without a reported change.
pub open spec fn changes_alternate(actions: Seq<ServerAction>, waiting: bool) -> bool
    decreases actions.len(),
{
    if actions.len() == 0 {
        true
    } else {
        let rest = actions.subrange(1, actions.len() as int);
        if actions[0] == ServerAction::Notify(HotProjectState::SourceChanged) {
            !waiting && changes_alternate(rest, true)
        } else if actions[0] == ServerAction::StartRebuild {
            waiting && changes_alternate(rest, false)
        } else {
            changes_alternate(rest, waiting)
        }
    }
}

/// Over any run in which no build is saved, the app is started at most as many times as
/// the budget at the start allows; after a saved build that is `APP_RESPAWNS` (once).
pub proof fn lemma_spawns_between_builds(s: ServerState, events: Seq<ServerEvent>)
    requires
        forall|i: int| 0 <= i < events.len() ==> !(#[trigger] events[i] matches ServerEvent::LibSaved(Some(_))),
    ensures
        spawn_count(server_run(s, events).1) <= s.restart_budget,
    decreases events.len(),
{
    if events.len() > 0 {
        let (s1, a) = server_step(s, events[0]);
        let tail = events.subrange(1, events.len() as int);
        assert forall|i: int| 0 <= i < tail.len() implies !(#[trigger] tail[i] matches ServerEvent::LibSaved(Some(_))) by {
            assert(tail[i] == events[i + 1]);
        }
        lemma_spawns_between_builds(s1, tail);
        let acts = server_run(s, events).1;
        assert(acts.subrange(1, acts.len() as int) =~= server_run(s1, tail).1);
        assert(!(events[0] matches ServerEvent::LibSaved(Some(_))));
    }
}

/// Over any run, source changes are reported and rebuilt in turn: each reported change is
/// followed by the start of its rebuild before the next change is reported.
pub proof fn lemma_changes_alternate(s: ServerState, events: Seq<ServerEvent>)
    ensures
        changes_alternate(server_run(s, events).1, s.src_changed),
    decreases events.len(),
{
    if events.len() > 0 {
        let (s1, a) = server_step(s, events[0]);
        let tail = events.subrange(1, events.len() as int);
        lemma_source_change_once(s, events[0]);
        lemma_changes_alternate(s1, tail);
        let acts = server_run(s, events).1;
        assert(acts.subrange(1, acts.len() as int) =~= server_run(s1, tail).1);
        assert(acts[0] == a);
        if a != ServerAction::Notify(HotProjectState::SourceChanged) && a != ServerAction::StartRebuild {
            assert(s1.src_changed == s.src_changed);
        }
    }
}

/// Whether the actions report to the app in order, from a state where a change is
/// waiting for its rebuild when `waiting`, with the rebuild at `phase`. The states sent
/// (`SourceChanged`, `Rebuilding` at each start of a rebuild, then `BuildSuccess` or
/// `BuildFailed`) follow the pattern `(SourceChanged Rebuilding (BuildSuccess | BuildFailed)?)*
/// SourceChanged?`: a change is reported only when none waits, a rebuild starts only for a
/// waiting change, a result comes only for the rebuild last started and before any new
/// change, and `BuildSuccess` only after that rebuild exited successfully and its library
/// was saved.
pub open spec fn reports_in_order(actions: Seq<ServerAction>, waiting: bool, phase: RebuildPhase) -> bool
    decreases actions.len(),
{
    if actions.len() == 0 {
        true
    } else {
        let rest = actions.subrange(1, actions.len() as int);
        match actions[0] {
            ServerAction::Notify(state) => state == HotProjectState::SourceChanged && !waiting
                && reports_in_order(rest, true, phase),
            ServerAction::StartRebuild => waiting && reports_in_order(rest, false, RebuildPhase::Running),
            ServerAction::KillRebuild => phase == RebuildPhase::Running && reports_in_order(
                rest,
                waiting,
                RebuildPhase::Idle,
            ),
            ServerAction::SaveLib => !waiting && phase == RebuildPhase::Running && reports_in_order(
                rest,
                waiting,
                RebuildPhase::Saved,
            ),
            ServerAction::FinishRebuild(state) => !waiting && match state {
                HotProjectState::BuildSuccess(_) => phase == RebuildPhase::Saved,
                HotProjectState::BuildFailed => phase != RebuildPhase::Idle,
                _ => false,
            } && reports_in_order(rest, waiting, RebuildPhase::Idle),
            _ => reports_in_order(rest, waiting, phase),
        }
    }
}

/// Over any run, what the wrapper reports to the app keeps the order of
/// `reports_in_order`.
pub proof fn lemma_reports_in_order(s: ServerState, events: Seq<ServerEvent>)
    ensures
        reports_in_order(server_run(s, events).1, s.src_changed, s.phase),
    decreases events.len(),
{
    if events.len() > 0 {
        let (s1, a) = server_step(s, events[0]);
        let tail = events.subrange(1, events.len() as int);
        lemma_reports_in_order(s1, tail);
        let acts = server_run(s, events).1;
        assert(acts.subrange(1, acts.len() as int) =~= server_run(s1, tail).1);
        assert(acts[0] == a);
    }
}

/// The library is saved only when the rebuild that runs is seen to exit successfully.
pub proof fn lemma_save_after_success(s: ServerState, event: ServerEvent)
    ensures
        server_step(s, event).1 == ServerAction::SaveLib ==> s.phase == RebuildPhase::Running
            && !s.src_changed && event matches ServerEvent::Tick {
            rebuild: RebuildStatus::Exited(true),
            ..
        },
{
}

/// Only starting the app spends the restart budget, and only a saved build renews it:
/// every other step leaves it as it was.
pub proof fn lemma_budget_spent_only_by_spawn(s: ServerState, event: ServerEvent)
    ensures
        server_step(s, event).1 != ServerAction::SpawnApp && !(event is LibSaved)
            ==> server_step(s, event).0.restart_budget == s.restart_budget,
        server_step(s, event).1 == ServerAction::SpawnApp
            ==> server_step(s, event).0.restart_budget + 1 == s.restart_budget,
        event is LibSaved ==> server_step(s, event).0.restart_budget == s.restart_budget
            || server_step(s, event).0.restart_budget == APP_RESPAWNS,
{
}

} // verus!
