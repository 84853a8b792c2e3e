//! The loop that keeps a served build in step with its sources.

use vstd::prelude::*;

use crate::only::OnlyRenderPlan;
use crate::path;
use crate::path_set;
use crate::path_set::PathSet;
use crate::serve;
use crate::serve::ServeSyncConfig;
use crate::text;

verus! {

/// How long, in milliseconds, the loop waits for a first change before it looks whether to stop.
pub const FIRST_WAIT_MILLIS: u64 = 250;

/// How long, in milliseconds, the loop waits for one more change before it carries out what it has.
pub const SETTLE_MILLIS: u64 = 75;

/// Where the loop stands.
#[derive(Debug, Clone, Copy, PartialEq, Eq, Structural)]
pub enum Phase {
    /// The watcher is being started.
    Starting,
    /// The active repository is being put under watch.
    WatchingActive,
    /// The theme is being put under watch.
    WatchingTheme,
    /// The index of the theme is being put under watch.
    WatchingIndex,
    /// The changes of the active repository are being listed for the first time.
    CapturingActive,
    /// The theme is being brought into the build.
    MaterializingTheme,
    /// The changes of the theme are being listed for the first time.
    CapturingTheme,
    /// The loop waits for an event.
    Waiting,
    /// The loop collects the events that come at once.
    Collecting { active: bool, theme: bool },
    /// The changes of the active repository are being listed.
    ListingActive { theme: bool },
    /// Changes of the active repository are being carried over.
    SyncingActive { theme: bool },
    /// The changes of the theme are being listed.
    ListingTheme,
    /// Changes of the theme are being carried over.
    SyncingTheme,
    /// The loop has ended.
    Stopped,
}

/// What happened.
#[derive(Debug, Clone, PartialEq, Eq)]
pub enum ServeEvent {
    /// What was asked for is done.
    Done,
    /// What was asked for failed.
    Failed(String),
    /// The paths that were asked for, or that changed.
    Paths(Vec<String>),
    /// Putting an index under watch gave these errors, for the file and for the directory above it.
    IndexWatched { file_error: Option<String>, parent_error: Option<String> },
    /// The watcher reported an error of its own.
    WatcherError,
    /// Nothing came in time.
    Timeout,
    /// The watcher is gone.
    Disconnected,
    /// The loop is asked to end.
    StopRequested,
}

/// What is to be done next.
#[derive(Debug, Clone, PartialEq, Eq)]
pub enum ServeAction {
    /// Put a directory, with all below it, under watch.
    Watch(String),
    /// Put an index, and the directory above it, under watch.
    WatchIndex(String),
    /// List the changes of the active repository.
    ListActive(String),
    /// List the changes of the theme.
    ListTheme(String),
    /// Bring the theme into the build.
    MaterializeTheme,
    /// Say that the loop is set up, and wait for an event.
    ReportReady,
    /// Say that the loop cannot be set up, and end.
    ReportFailure(String),
    /// Wait for an event.
    WaitFirst,
    /// Wait for an event that comes at once.
    WaitMore,
    /// Carry these paths of the active repository over, and make pages of them.
    SyncActive(Vec<String>),
    /// Carry these paths of the theme over.
    SyncTheme(Vec<String>),
    /// End.
    Stop,
}

/// What an action stands for.
pub enum ActionView {
    Watch(Seq<char>),
    WatchIndex(Seq<char>),
    ListActive(Seq<char>),
    ListTheme(Seq<char>),
    MaterializeTheme,
    ReportReady,
    ReportFailure(Seq<char>),
    WaitFirst,
    WaitMore,
    SyncActive(Seq<Seq<char>>),
    SyncTheme(Seq<Seq<char>>),
    Stop,
}

impl View for ServeAction {
    type V = ActionView;

    open spec fn view(&self) -> ActionView {
        match self {
            ServeAction::Watch(at) => ActionView::Watch(at@),
            ServeAction::WatchIndex(at) => ActionView::WatchIndex(at@),
            ServeAction::ListActive(at) => ActionView::ListActive(at@),
            ServeAction::ListTheme(at) => ActionView::ListTheme(at@),
            ServeAction::MaterializeTheme => ActionView::MaterializeTheme,
            ServeAction::ReportReady => ActionView::ReportReady,
            ServeAction::ReportFailure(message) => ActionView::ReportFailure(message@),
            ServeAction::WaitFirst => ActionView::WaitFirst,
            ServeAction::WaitMore => ActionView::WaitMore,
            ServeAction::SyncActive(paths) => ActionView::SyncActive(text::views(paths@)),
            ServeAction::SyncTheme(paths) => ActionView::SyncTheme(text::views(paths@)),
            ServeAction::Stop => ActionView::Stop,
        }
    }
}

/// What the loop knows.
pub struct LoopState {
    pub phase: Phase,
    /// The changes of the active repository that the build has.
    pub active: Seq<Seq<char>>,
    /// The changes of the theme that the build has.
    pub theme: Seq<Seq<char>>,
    /// The changes that the build has once those under way are carried over.
    pub pending: Seq<Seq<char>>,
}

/// The loop's next state and what is to be done.
pub struct Transition {
    pub state: LoopState,
    pub action: ActionView,
}

/// Ends the set-up with a failure.
pub open spec fn fail(state: LoopState, message: Seq<char>) -> Transition {
    Transition {
        state: LoopState { phase: Phase::Stopped, ..state },
        action: ActionView::ReportFailure(message),
    }
}

/// Ends the loop.
pub open spec fn stop(state: LoopState) -> Transition {
    Transition { state: LoopState { phase: Phase::Stopped, ..state }, action: ActionView::Stop }
}

/// Goes to a phase with an action.
pub open spec fn enter(state: LoopState, phase: Phase, action: ActionView) -> Transition {
    Transition { state: LoopState { phase, ..state }, action }
}

/// What comes once the active repository is under watch, where it is to be.
pub open spec fn after_active_watch(config: ServeSyncConfig, state: LoopState) -> Transition {
    match config.local_theme {
        Some(theme) => enter(
            state,
            Phase::WatchingTheme,
            ActionView::Watch(theme.theme_source_root@),
        ),
        None => after_watches(config, state),
    }
}

/// What comes once all is under watch.
pub open spec fn after_watches(config: ServeSyncConfig, state: LoopState) -> Transition {
    match config.active_repo {
        Some(active) => enter(
            state,
            Phase::CapturingActive,
            ActionView::ListActive(active.source_root@),
        ),
        None => after_active_capture(config, state),
    }
}

/// What comes once the changes of the active repository are known.
pub open spec fn after_active_capture(config: ServeSyncConfig, state: LoopState) -> Transition {
    match config.local_theme {
        Some(_) => enter(state, Phase::MaterializingTheme, ActionView::MaterializeTheme),
        None => enter(state, Phase::Waiting, ActionView::ReportReady),
    }
}

/// What comes once the changes of the active repository are carried over.
pub open spec fn after_active_sync(
    config: ServeSyncConfig,
    state: LoopState,
    theme: bool,
) -> Transition {
    match config.local_theme {
        Some(local) => if theme {
            enter(state, Phase::ListingTheme, ActionView::ListTheme(local.theme_source_root@))
        } else {
            enter(state, Phase::Waiting, ActionView::WaitFirst)
        },
        None => enter(state, Phase::Waiting, ActionView::WaitFirst),
    }
}

/// What comes once all events are collected.
pub open spec fn after_collecting(
    config: ServeSyncConfig,
    state: LoopState,
    active: bool,
    theme: bool,
) -> Transition {
    match config.active_repo {
        Some(repo) => if active {
            enter(
                state,
                Phase::ListingActive { theme },
                ActionView::ListActive(repo.source_root@),
            )
        } else {
            after_active_sync(config, state, theme)
        },
        None => after_active_sync(config, state, theme),
    }
}

/// Whether changed paths are of the active repository.
pub open spec fn concerns_active(config: ServeSyncConfig, paths: Seq<String>) -> bool {
    match config.active_repo {
        Some(repo) => serve::any_watched(repo.source_root@, paths),
        None => false,
    }
}

/// Whether changed paths are of the theme.
pub open spec fn concerns_theme(config: ServeSyncConfig, paths: Seq<String>) -> bool {
    match config.local_theme {
        Some(theme) => serve::any_watched(theme.theme_source_root@, paths) || serve::any_index(
            theme.theme_index_path@,
            paths,
        ),
        None => false,
    }
}

/// The changes of the active repository that matter to a build.
pub open spec fn active_changes(config: ServeSyncConfig, paths: Seq<String>) -> Seq<Seq<char>> {
    match config.active_repo {
        Some(repo) => path_set::set_of(serve::carried(repo.only_plan, text::views(paths))),
        None => Seq::empty(),
    }
}

/// The message for a step of the set-up that failed.
pub open spec fn setup_message(config: ServeSyncConfig, phase: Phase, cause: Seq<char>) -> Seq<char> {
    match phase {
        Phase::Starting => "unable to start dirty serve watcher: "@ + cause,
        Phase::WatchingActive => text::glued(
            seq![
                "unable to watch `"@,
                config.active_repo->0.source_root@,
                "` for dirty serve changes: "@ + cause,
            ],
        ),
        Phase::WatchingTheme => text::glued(
            seq![
                "unable to watch local theme `"@,
                config.local_theme->0.theme_source_root@,
                "` for serve changes: "@ + cause,
            ],
        ),
        Phase::CapturingActive => "unable to capture initial dirty serve state: "@ + cause,
        Phase::MaterializingTheme => {
            "unable to synchronize initial local theme state after watcher setup: "@ + cause
        },
        _ => "unable to capture initial local theme dirty state: "@ + cause,
    }
}

/// The next state and action of the loop.
pub open spec fn next(config: ServeSyncConfig, state: LoopState, event: ServeEvent) -> Transition {
    match (state.phase, event) {
        (Phase::Starting, ServeEvent::Done) => match config.active_repo {
            Some(repo) => enter(
                state,
                Phase::WatchingActive,
                ActionView::Watch(repo.source_root@),
            ),
            None => after_active_watch(config, state),
        },
        (Phase::WatchingActive, ServeEvent::Done) => after_active_watch(config, state),
        (Phase::WatchingTheme, ServeEvent::Done) => enter(
            state,
            Phase::WatchingIndex,
            ActionView::WatchIndex(config.local_theme->0.theme_index_path@),
        ),
        (Phase::WatchingIndex, ServeEvent::IndexWatched { file_error, parent_error }) => {
            match serve::index_watch_failure(
                config.local_theme->0.theme_index_path@,
                file_error,
                parent_error,
            ) {
                Some(message) => fail(state, message),
                None => after_watches(config, state),
            }
        },
        (Phase::CapturingActive, ServeEvent::Paths(paths)) => after_active_capture(
            config,
            LoopState { active: active_changes(config, paths@), ..state },
        ),
        (Phase::MaterializingTheme, ServeEvent::Done) => enter(
            state,
            Phase::CapturingTheme,
            ActionView::ListTheme(config.local_theme->0.theme_source_root@),
        ),
        (Phase::CapturingTheme, ServeEvent::Paths(paths)) => enter(
            LoopState { theme: path_set::set_of(text::views(paths@)), ..state },
            Phase::Waiting,
            ActionView::ReportReady,
        ),
        (Phase::Starting, ServeEvent::Failed(cause)) => fail(
            state,
            setup_message(config, state.phase, cause@),
        ),
        (Phase::WatchingActive, ServeEvent::Failed(cause)) => fail(
            state,
            setup_message(config, state.phase, cause@),
        ),
        (Phase::WatchingTheme, ServeEvent::Failed(cause)) => fail(
            state,
            setup_message(config, state.phase, cause@),
        ),
        (Phase::CapturingActive, ServeEvent::Failed(cause)) => fail(
            state,
            setup_message(config, state.phase, cause@),
        ),
        (Phase::MaterializingTheme, ServeEvent::Failed(cause)) => fail(
            state,
            setup_message(config, state.phase, cause@),
        ),
        (Phase::CapturingTheme, ServeEvent::Failed(cause)) => fail(
            state,
            setup_message(config, state.phase, cause@),
        ),
        (Phase::Waiting, ServeEvent::Timeout) => enter(
            state,
            Phase::Waiting,
            ActionView::WaitFirst,
        ),
        (Phase::Waiting, ServeEvent::Paths(paths)) => enter(
            state,
            Phase::Collecting {
                active: concerns_active(config, paths@),
                theme: concerns_theme(config, paths@),
            },
            ActionView::WaitMore,
        ),
        (Phase::Waiting, ServeEvent::WatcherError) => enter(
            state,
            Phase::Collecting { active: false, theme: false },
            ActionView::WaitMore,
        ),
        (Phase::Collecting { active, theme }, ServeEvent::Paths(paths)) => enter(
            state,
            Phase::Collecting {
                active: active || concerns_active(config, paths@),
                theme: theme || concerns_theme(config, paths@),
            },
            ActionView::WaitMore,
        ),
        (Phase::Collecting { active, theme }, ServeEvent::WatcherError) => enter(
            state,
            state.phase,
            ActionView::WaitMore,
        ),
        (Phase::Collecting { active, theme }, ServeEvent::Timeout) => after_collecting(
            config,
            state,
            active,
            theme,
        ),
        (Phase::ListingActive { theme }, ServeEvent::Paths(paths)) => {
            let current = active_changes(config, paths@);
            let affected = path_set::with_members(state.active, current);
            if affected.len() == 0 {
                after_active_sync(config, LoopState { active: current, ..state }, theme)
            } else {
                enter(
                    LoopState { pending: current, ..state },
                    Phase::SyncingActive { theme },
                    ActionView::SyncActive(affected),
                )
            }
        },
        (Phase::ListingActive { theme }, ServeEvent::Failed(_)) => after_active_sync(
            config,
            state,
            theme,
        ),
        (Phase::SyncingActive { theme }, ServeEvent::Done) => after_active_sync(
            config,
            LoopState { active: state.pending, pending: Seq::empty(), ..state },
            theme,
        ),
        (Phase::SyncingActive { theme }, ServeEvent::Failed(_)) => after_active_sync(
            config,
            LoopState { pending: Seq::empty(), ..state },
            theme,
        ),
        (Phase::ListingTheme, ServeEvent::Paths(paths)) => {
            let current = path_set::set_of(text::views(paths@));
            let affected = path_set::with_members(state.theme, current);
            if affected.len() == 0 {
                enter(
                    LoopState { theme: current, ..state },
                    Phase::Waiting,
                    ActionView::WaitFirst,
                )
            } else {
                enter(
                    LoopState { pending: current, ..state },
                    Phase::SyncingTheme,
                    ActionView::SyncTheme(affected),
                )
            }
        },
        (Phase::ListingTheme, ServeEvent::Failed(_)) => enter(
            state,
            Phase::Waiting,
            ActionView::WaitFirst,
        ),
        (Phase::SyncingTheme, ServeEvent::Done) => enter(
            LoopState { theme: state.pending, pending: Seq::empty(), ..state },
            Phase::Waiting,
            ActionView::WaitFirst,
        ),
        (Phase::SyncingTheme, ServeEvent::Failed(_)) => enter(
            LoopState { pending: Seq::empty(), ..state },
            Phase::Waiting,
            ActionView::WaitFirst,
        ),
        _ => stop(state),
    }
}

/// The loop that keeps a served build in step with its sources.
#[derive(Debug)]
pub struct ServeLoop {
    config: ServeSyncConfig,
    phase: Phase,
    active: PathSet,
    theme: PathSet,
    pending: PathSet,
}

/// Whether a phase that works on the active repository or the theme has it.
pub open spec fn phase_fits(config: ServeSyncConfig, phase: Phase) -> bool {
    match phase {
        Phase::WatchingActive => config.active_repo is Some,
        Phase::CapturingActive => config.active_repo is Some,
        Phase::ListingActive { .. } => config.active_repo is Some,
        Phase::SyncingActive { .. } => config.active_repo is Some,
        Phase::WatchingTheme => config.local_theme is Some,
        Phase::WatchingIndex => config.local_theme is Some,
        Phase::MaterializingTheme => config.local_theme is Some,
        Phase::CapturingTheme => config.local_theme is Some,
        Phase::ListingTheme => config.local_theme is Some,
        Phase::SyncingTheme => config.local_theme is Some,
        _ => true,
    }
}

impl ServeLoop {
    /// What is kept in step.
    pub closed spec fn settings(&self) -> ServeSyncConfig {
        self.config
    }

    /// What the loop knows.
    pub closed spec fn state(&self) -> LoopState {
        LoopState {
            phase: self.phase,
            active: self.active.texts(),
            theme: self.theme.texts(),
            pending: self.pending.texts(),
        }
    }

    /// Whether the sets of paths are in order, and the phase has what it works on.
    pub closed spec fn wf(&self) -> bool {
        &&& self.active.wf()
        &&& self.theme.wf()
        &&& self.pending.wf()
        &&& phase_fits(self.config, self.phase)
    }

    /// The loop before its watcher is started.
    pub fn new(config: ServeSyncConfig) -> (out: Self)
        ensures
            out.wf(),
            out.settings() == config,
            out.state() == (LoopState {
                phase: Phase::Starting,
                active: Seq::empty(),
                theme: Seq::empty(),
                pending: Seq::empty(),
            }),
    {
        ServeLoop {
            config,
            phase: Phase::Starting,
            active: PathSet::new(),
            theme: PathSet::new(),
            pending: PathSet::new(),
        }
    }

    /// Goes to a phase with an action.
    fn go(&mut self, phase: Phase, action: ServeAction) -> (out: ServeAction)
        requires
            old(self).wf(),
            phase_fits(old(self).settings(), phase),
        ensures
            final(self).wf(),
            final(self).settings() == old(self).settings(),
            final(self).state() == (LoopState { phase, ..old(self).state() }),
            out == action,
    {
        self.phase = phase;
        action
    }

    fn after_active_watch(&mut self) -> (out: ServeAction)
        requires
            old(self).wf(),
        ensures
            final(self).wf(),
            final(self).settings() == old(self).settings(),
            after_active_watch(old(self).settings(), old(self).state()) == (Transition {
                state: final(self).state(),
                action: out@,
            }),
    {
        let target = match &self.config.local_theme {
            Some(theme) => Some(theme.theme_source_root.clone()),
            None => None,
        };
        match target {
            Some(root) => self.go(Phase::WatchingTheme, ServeAction::Watch(root)),
            None => self.after_watches(),
        }
    }

    fn after_watches(&mut self) -> (out: ServeAction)
        requires
            old(self).wf(),
        ensures
            final(self).wf(),
            final(self).settings() == old(self).settings(),
            after_watches(old(self).settings(), old(self).state()) == (Transition {
                state: final(self).state(),
                action: out@,
            }),
    {
        let target = match &self.config.active_repo {
            Some(repo) => Some(repo.source_root.clone()),
            None => None,
        };
        match target {
            Some(root) => self.go(Phase::CapturingActive, ServeAction::ListActive(root)),
            None => self.after_active_capture(),
        }
    }

    fn after_active_capture(&mut self) -> (out: ServeAction)
        requires
            old(self).wf(),
        ensures
            final(self).wf(),
            final(self).settings() == old(self).settings(),
            after_active_capture(old(self).settings(), old(self).state()) == (Transition {
                state: final(self).state(),
                action: out@,
            }),
    {
        if self.config.local_theme.is_some() {
            self.go(Phase::MaterializingTheme, ServeAction::MaterializeTheme)
        } else {
            self.go(Phase::Waiting, ServeAction::ReportReady)
        }
    }

    fn after_active_sync(&mut self, theme: bool) -> (out: ServeAction)
        requires
            old(self).wf(),
        ensures
            final(self).wf(),
            final(self).settings() == old(self).settings(),
            after_active_sync(old(self).settings(), old(self).state(), theme) == (Transition {
                state: final(self).state(),
                action: out@,
            }),
    {
        let target = match &self.config.local_theme {
            Some(local) => if theme {
                Some(local.theme_source_root.clone())
            } else {
                None
            },
            None => None,
        };
        match target {
            Some(root) => self.go(Phase::ListingTheme, ServeAction::ListTheme(root)),
            None => self.go(Phase::Waiting, ServeAction::WaitFirst),
        }
    }

    fn after_collecting(&mut self, active: bool, theme: bool) -> (out: ServeAction)
        requires
            old(self).wf(),
        ensures
            final(self).wf(),
            final(self).settings() == old(self).settings(),
            after_collecting(old(self).settings(), old(self).state(), active, theme) == (
            Transition { state: final(self).state(), action: out@ }),
    {
        let target = match &self.config.active_repo {
            Some(repo) => if active {
                Some(repo.source_root.clone())
            } else {
                None
            },
            None => None,
        };
        match target {
            Some(root) => self.go(Phase::ListingActive { theme }, ServeAction::ListActive(root)),
            None => self.after_active_sync(theme),
        }
    }

    fn concerns_active(&self, paths: &Vec<String>) -> (yes: bool)
        ensures
            yes == concerns_active(self.settings(), paths@),
    {
        match &self.config.active_repo {
            Some(repo) => serve::event_has_watched_source_path(repo.source_root.as_str(), paths),
            None => false,
        }
    }

    fn concerns_theme(&self, paths: &Vec<String>) -> (yes: bool)
        ensures
            yes == concerns_theme(self.settings(), paths@),
    {
        match &self.config.local_theme {
            Some(theme) => serve::event_has_watched_source_path(
                theme.theme_source_root.as_str(),
                paths,
            ) || serve::event_has_theme_index_path(theme.theme_index_path.as_str(), paths),
            None => false,
        }
    }

    fn active_changes(&self, paths: &Vec<String>) -> (out: PathSet)
        ensures
            out.wf(),
            out.texts() == active_changes(self.settings(), paths@),
    {
        match &self.config.active_repo {
            Some(repo) => serve::filter_dirty_paths(paths, &repo.only_plan),
            None => PathSet::new(),
        }
    }

    fn theme_changes(&self, paths: Vec<String>) -> (out: PathSet)
        ensures
            out.wf(),
            out.texts() == path_set::set_of(text::views(paths@)),
    {
        let mut out = PathSet::new();
        out.extend(paths);
        out
    }

    /// Ends the set-up with a failure.
    fn setup_failure(&mut self, cause: &str) -> (out: ServeAction)
        requires
            old(self).wf(),
            matches!(
                old(self).state().phase,
                Phase::Starting | Phase::WatchingActive | Phase::WatchingTheme
                    | Phase::CapturingActive | Phase::MaterializingTheme | Phase::CapturingTheme
            ),
        ensures
            final(self).wf(),
            final(self).settings() == old(self).settings(),
            fail(
                old(self).state(),
                setup_message(old(self).settings(), old(self).state().phase, cause@),
            ) == (Transition { state: final(self).state(), action: out@ }),
    {
        let mut message = String::new();
        match self.phase {
            Phase::Starting => {
                message.append("unable to start dirty serve watcher: ");
                message.append(cause);
            },
            Phase::WatchingActive => {
                let mut tail = "` for dirty serve changes: ".to_owned();
                tail.append(cause);
                if let Some(repo) = &self.config.active_repo {
                    message = text::wrap(
                        "unable to watch `",
                        repo.source_root.as_str(),
                        tail.as_str(),
                    );
                }
            },
            Phase::WatchingTheme => {
                let mut tail = "` for serve changes: ".to_owned();
                tail.append(cause);
                if let Some(theme) = &self.config.local_theme {
                    message = text::wrap(
                        "unable to watch local theme `",
                        theme.theme_source_root.as_str(),
                        tail.as_str(),
                    );
                }
            },
            Phase::CapturingActive => {
                message.append("unable to capture initial dirty serve state: ");
                message.append(cause);
            },
            Phase::MaterializingTheme => {
                message.append(
                    "unable to synchronize initial local theme state after watcher setup: ",
                );
                message.append(cause);
            },
            _ => {
                message.append("unable to capture initial local theme dirty state: ");
                message.append(cause);
            },
        }
        assert(message@ =~= setup_message(self.settings(), self.state().phase, cause@));
        self.go(Phase::Stopped, ServeAction::ReportFailure(message))
    }

    /// Takes what happened, and says what is to be done next.
    pub fn step(&mut self, event: ServeEvent) -> (out: ServeAction)
        requires
            old(self).wf(),
        ensures
            final(self).wf(),
            final(self).settings() == old(self).settings(),
            next(old(self).settings(), old(self).state(), event) == (Transition {
                state: final(self).state(),
                action: out@,
            }),
    {
        match (self.phase, event) {
            (Phase::Starting, ServeEvent::Done) => {
                let target = match &self.config.active_repo {
                    Some(repo) => Some(repo.source_root.clone()),
                    None => None,
                };
                match target {
                    Some(root) => self.go(Phase::WatchingActive, ServeAction::Watch(root)),
                    None => self.after_active_watch(),
                }
            },
            (Phase::WatchingActive, ServeEvent::Done) => self.after_active_watch(),
            (Phase::WatchingTheme, ServeEvent::Done) => {
                let index = match &self.config.local_theme {
                    Some(theme) => theme.theme_index_path.clone(),
                    None => String::new(),
                };
                self.go(Phase::WatchingIndex, ServeAction::WatchIndex(index))
            },
            (Phase::WatchingIndex, ServeEvent::IndexWatched { file_error, parent_error }) => {
                let index = match &self.config.local_theme {
                    Some(theme) => theme.theme_index_path.clone(),
                    None => String::new(),
                };
                match serve::watch_theme_index(index.as_str(), &file_error, &parent_error) {
                    Ok(_) => self.after_watches(),
                    Err(message) => self.go(Phase::Stopped, ServeAction::ReportFailure(message)),
                }
            },
            (Phase::CapturingActive, ServeEvent::Paths(paths)) => {
                self.active = self.active_changes(&paths);
                self.after_active_capture()
            },
            (Phase::MaterializingTheme, ServeEvent::Done) => {
                let root = match &self.config.local_theme {
                    Some(theme) => theme.theme_source_root.clone(),
                    None => String::new(),
                };
                self.go(Phase::CapturingTheme, ServeAction::ListTheme(root))
            },
            (Phase::CapturingTheme, ServeEvent::Paths(paths)) => {
                self.theme = self.theme_changes(paths);
                self.go(Phase::Waiting, ServeAction::ReportReady)
            },
            (Phase::Starting, ServeEvent::Failed(cause)) => self.setup_failure(cause.as_str()),
            (Phase::WatchingActive, ServeEvent::Failed(cause)) => self.setup_failure(
                cause.as_str(),
            ),
            (Phase::WatchingTheme, ServeEvent::Failed(cause)) => self.setup_failure(
                cause.as_str(),
            ),
            (Phase::CapturingActive, ServeEvent::Failed(cause)) => self.setup_failure(
                cause.as_str(),
            ),
            (Phase::MaterializingTheme, ServeEvent::Failed(cause)) => self.setup_failure(
                cause.as_str(),
            ),
            (Phase::CapturingTheme, ServeEvent::Failed(cause)) => self.setup_failure(
                cause.as_str(),
            ),
            (Phase::Waiting, ServeEvent::Timeout) => self.go(
                Phase::Waiting,
                ServeAction::WaitFirst,
            ),
            (Phase::Waiting, ServeEvent::Paths(paths)) => {
                let active = self.concerns_active(&paths);
                let theme = self.concerns_theme(&paths);
                self.go(Phase::Collecting { active, theme }, ServeAction::WaitMore)
            },
            (Phase::Waiting, ServeEvent::WatcherError) => self.go(
                Phase::Collecting { active: false, theme: false },
                ServeAction::WaitMore,
            ),
            (Phase::Collecting { active, theme }, ServeEvent::Paths(paths)) => {
                let active = active || self.concerns_active(&paths);
                let theme = theme || self.concerns_theme(&paths);
                self.go(Phase::Collecting { active, theme }, ServeAction::WaitMore)
            },
            (Phase::Collecting { active, theme }, ServeEvent::WatcherError) => self.go(
                Phase::Collecting { active, theme },
                ServeAction::WaitMore,
            ),
            (Phase::Collecting { active, theme }, ServeEvent::Timeout) => self.after_collecting(
                active,
                theme,
            ),
            (Phase::ListingActive { theme }, ServeEvent::Paths(paths)) => {
                let current = self.active_changes(&paths);
                let affected = serve::affected_dirty_paths(&self.active, &current);
                if affected.is_empty() {
                    self.active = current;
                    self.after_active_sync(theme)
                } else {
                    self.pending = current;
                    self.go(
                        Phase::SyncingActive { theme },
                        ServeAction::SyncActive(affected.to_vec()),
                    )
                }
            },
            (Phase::ListingActive { theme }, ServeEvent::Failed(_)) => self.after_active_sync(
                theme,
            ),
            (Phase::SyncingActive { theme }, ServeEvent::Done) => {
                self.active = self.pending.copy();
                self.pending = PathSet::new();
                self.after_active_sync(theme)
            },
            (Phase::SyncingActive { theme }, ServeEvent::Failed(_)) => {
                self.pending = PathSet::new();
                self.after_active_sync(theme)
            },
            (Phase::ListingTheme, ServeEvent::Paths(paths)) => {
                let current = self.theme_changes(paths);
                let affected = serve::affected_dirty_paths(&self.theme, &current);
                if affected.is_empty() {
                    self.theme = current;
                    self.go(Phase::Waiting, ServeAction::WaitFirst)
                } else {
                    self.pending = current;
                    self.go(Phase::SyncingTheme, ServeAction::SyncTheme(affected.to_vec()))
                }
            },
            (Phase::ListingTheme, ServeEvent::Failed(_)) => self.go(
                Phase::Waiting,
                ServeAction::WaitFirst,
            ),
            (Phase::SyncingTheme, ServeEvent::Done) => {
                self.theme = self.pending.copy();
                self.pending = PathSet::new();
                self.go(Phase::Waiting, ServeAction::WaitFirst)
            },
            (Phase::SyncingTheme, ServeEvent::Failed(_)) => {
                self.pending = PathSet::new();
                self.go(Phase::Waiting, ServeAction::WaitFirst)
            },
            _ => self.go(Phase::Stopped, ServeAction::Stop),
        }
    }
}

/// Whether a plan lets all paths be carried over.
pub open spec fn all_carried(plan: Option<OnlyRenderPlan>, paths: Seq<Seq<char>>) -> bool {
    forall|i: int| 0 <= i < paths.len() ==> serve::is_carried(plan, #[trigger] paths[i])
}

/// Whether the loop knows of no changes of the active repository but those that its plan lets
/// through.
pub open spec fn keeps_to_plan(config: ServeSyncConfig, state: LoopState) -> bool {
    match config.active_repo {
        Some(repo) => {
            &&& all_carried(repo.only_plan, state.active)
            &&& state.phase is SyncingActive ==> all_carried(repo.only_plan, state.pending)
        },
        None => true,
    }
}

proof fn carried_paths_are_carried(plan: Option<OnlyRenderPlan>, paths: Seq<Seq<char>>)
    ensures
        all_carried(plan, serve::carried(plan, paths)),
    decreases paths.len(),
{
    if paths.len() > 0 {
        carried_paths_are_carried(plan, paths.drop_last());
    }
}

proof fn union_is_carried(
    plan: Option<OnlyRenderPlan>,
    start: Seq<Seq<char>>,
    added: Seq<Seq<char>>,
)
    requires
        all_carried(plan, start),
        all_carried(plan, added),
    ensures
        all_carried(plan, path_set::with_members(start, added)),
{
    let all = path_set::with_members(start, added);
    assert forall|i: int| 0 <= i < all.len() implies serve::is_carried(
        plan,
        #[trigger] all[i],
    ) by {
        path_set::members_come_from_somewhere(start, added, i);
        if start.contains(all[i]) {
            let k = choose|k: int| 0 <= k < start.len() && start[k] == all[i];
            assert(serve::is_carried(plan, start[k]));
        } else {
            let k = choose|k: int| 0 <= k < added.len() && added[k] == all[i];
            assert(serve::is_carried(plan, added[k]));
        }
    }
}

/// A loop that knows of no changes but those that its plan lets through carries no others over, and
/// comes to know of no others.
pub proof fn only_planned_changes_are_carried_over(
    config: ServeSyncConfig,
    state: LoopState,
    event: ServeEvent,
)
    requires
        keeps_to_plan(config, state),
    ensures
        keeps_to_plan(config, next(config, state, event).state),
        config.active_repo is Some && next(config, state, event).action is SyncActive ==> all_carried(
            config.active_repo->0.only_plan,
            next(config, state, event).action->SyncActive_0,
        ),
{
    if let Some(repo) = config.active_repo {
        if let ServeEvent::Paths(paths) = event {
            let listed = serve::carried(repo.only_plan, text::views(paths@));
            carried_paths_are_carried(repo.only_plan, text::views(paths@));
            union_is_carried(repo.only_plan, Seq::empty(), listed);
            union_is_carried(repo.only_plan, state.active, active_changes(config, paths@));
        }
    }
}

/// A phase that works on the active repository or the theme is entered only where there is one.
pub proof fn phases_have_their_target(config: ServeSyncConfig, state: LoopState, event: ServeEvent)
    requires
        phase_fits(config, state.phase),
    ensures
        phase_fits(config, next(config, state, event).state.phase),
        next(config, state, event).action is SyncActive ==> config.active_repo is Some,
        next(config, state, event).action is SyncTheme ==> config.local_theme is Some,
        next(config, state, event).action is MaterializeTheme ==> config.local_theme is Some,
{
}

/// The changes of the active repository to carry over are those that the build has and those that
/// are there now.
pub proof fn old_and_new_changes_are_carried_over(
    config: ServeSyncConfig,
    state: LoopState,
    paths: Vec<String>,
    key: Seq<Seq<char>>,
)
    requires
        state.phase is ListingActive,
    ensures
        match next(config, state, ServeEvent::Paths(paths)).action {
            ActionView::SyncActive(affected) => path_set::holds_path(affected, key) == (
            path_set::holds_path(state.active, key) || path_set::holds_path(
                active_changes(config, paths@),
                key,
            )),
            _ => !path_set::holds_path(state.active, key) && !path_set::holds_path(
                active_changes(config, paths@),
                key,
            ),
        },
{
    path_set::added_paths_are_held(state.active, active_changes(config, paths@), key);
}

/// Changes of the active repository that the build has are carried over again after a failure.
pub proof fn failed_changes_are_tried_again(
    config: ServeSyncConfig,
    state: LoopState,
    cause: String,
    theme: bool,
    paths: Vec<String>,
    key: Seq<Seq<char>>,
)
    requires
        state.phase is SyncingActive,
        path_set::holds_path(state.active, key),
    ensures
        ({
            let failed = next(config, state, ServeEvent::Failed(cause)).state;
            let listing = LoopState { phase: Phase::ListingActive { theme }, ..failed };
            let retried = next(config, listing, ServeEvent::Paths(paths)).action;
            retried is SyncActive && path_set::holds_path(retried->SyncActive_0, key)
        }),
{
    let failed = next(config, state, ServeEvent::Failed(cause)).state;
    let listing = LoopState { phase: Phase::ListingActive { theme }, ..failed };
    old_and_new_changes_are_carried_over(config, listing, paths, key);
}

/// Once the changes of the active repository are carried over, the build has those that were listed.
pub proof fn carried_over_changes_are_remembered(
    config: ServeSyncConfig,
    state: LoopState,
    paths: Vec<String>,
)
    requires
        state.phase is ListingActive,
    ensures
        ({
            let listed = next(config, state, ServeEvent::Paths(paths));
            let synced = if listed.action is SyncActive {
                next(config, listed.state, ServeEvent::Done).state
            } else {
                listed.state
            };
            synced.active == active_changes(config, paths@)
        }),
{
}

/// A loop that has ended stays so.
pub proof fn ended_loops_stay_ended(config: ServeSyncConfig, state: LoopState, event: ServeEvent)
    requires
        state.phase is Stopped,
    ensures
        next(config, state, event).state == state,
        next(config, state, event).action is Stop,
{
}

/// An edit below the source of the active repository, whatever came before it and whatever comes with
/// it, has the changes of the repository listed once nothing more comes.
pub proof fn edits_of_the_source_are_picked_up(
    config: ServeSyncConfig,
    state: LoopState,
    paths: Vec<String>,
    i: int,
    later: Vec<String>,
)
    requires
        config.active_repo is Some,
        state.phase is Waiting || state.phase is Collecting,
        0 <= i < paths@.len(),
        serve::is_watched(config.active_repo->0.source_root@, paths@[i]@),
    ensures
        ({
            let seen = next(config, state, ServeEvent::Paths(paths));
            let more = next(config, seen.state, ServeEvent::Paths(later));
            let wrong = next(config, seen.state, ServeEvent::WatcherError);
            let listed = ActionView::ListActive(config.active_repo->0.source_root@);
            &&& seen.action is WaitMore
            &&& more.action is WaitMore
            &&& wrong.action is WaitMore
            &&& next(config, seen.state, ServeEvent::Timeout).action == listed
            &&& next(config, more.state, ServeEvent::Timeout).action == listed
            &&& next(config, wrong.state, ServeEvent::Timeout).action == listed
        }),
{
    assert(concerns_active(config, paths@));
}

/// An edit of the local theme, or of its index, has the changes of the theme listed once nothing more
/// comes: at once where the active repository has none, and behind its changes where it has.
pub proof fn edits_of_the_theme_are_picked_up(
    config: ServeSyncConfig,
    state: LoopState,
    paths: Vec<String>,
    i: int,
    cause: String,
    listed: Vec<String>,
)
    requires
        config.local_theme is Some,
        state.phase is Waiting || state.phase is Collecting,
        0 <= i < paths@.len(),
        serve::is_watched(config.local_theme->0.theme_source_root@, paths@[i]@) || serve::is_index(
            config.local_theme->0.theme_index_path@,
            paths@[i]@,
        ),
    ensures
        ({
            let seen = next(config, state, ServeEvent::Paths(paths));
            let settled = next(config, seen.state, ServeEvent::Timeout);
            let wanted = ActionView::ListTheme(config.local_theme->0.theme_source_root@);
            &&& seen.action is WaitMore
            &&& settled.action == wanted || settled.action is ListActive
            &&& settled.action is ListActive ==> {
                let changes = next(config, settled.state, ServeEvent::Paths(listed));
                &&& next(config, settled.state, ServeEvent::Failed(cause)).action == wanted
                &&& changes.action == wanted || (changes.action is SyncActive && next(
                    config,
                    changes.state,
                    ServeEvent::Done,
                ).action == wanted && next(config, changes.state, ServeEvent::Failed(cause)).action
                    == wanted)
            }
        }),
{
    assert(concerns_theme(config, paths@));
}

/// Changes of the theme are carried over as those of the active repository are: those that the build
/// has and those that are there now; and the build has the listed ones only once they are.
pub proof fn changes_of_the_theme_are_carried_over(
    config: ServeSyncConfig,
    state: LoopState,
    paths: Vec<String>,
    cause: String,
    key: Seq<Seq<char>>,
)
    requires
        state.phase is ListingTheme,
    ensures
        ({
            let listed = next(config, state, ServeEvent::Paths(paths));
            match listed.action {
                ActionView::SyncTheme(affected) => {
                    let done = next(config, listed.state, ServeEvent::Done);
                    let failed = next(config, listed.state, ServeEvent::Failed(cause));
                    &&& path_set::holds_path(affected, key) == (path_set::holds_path(
                        state.theme,
                        key,
                    ) || path_set::holds_path(text::views(paths@), key))
                    &&& done.action is WaitFirst
                    &&& path_set::holds_path(done.state.theme, key) == path_set::holds_path(
                        text::views(paths@),
                        key,
                    )
                    &&& failed.action is WaitFirst
                    &&& failed.state.theme == state.theme
                },
                _ => listed.action is WaitFirst && !path_set::holds_path(state.theme, key)
                    && !path_set::holds_path(text::views(paths@), key),
            }
        }),
{
    let current = path_set::set_of(text::views(paths@));
    path_set::added_paths_are_held(state.theme, current, key);
    path_set::added_paths_are_held(Seq::empty(), text::views(paths@), key);
}

/// Events that are about neither the active repository nor the theme change nothing: the loop waits
/// again. A timeout while it waits does not end it; a request to stop, and the end of the watcher, do.
pub proof fn other_events_change_nothing(
    config: ServeSyncConfig,
    state: LoopState,
    paths: Vec<String>,
)
    requires
        state.phase is Waiting,
        config.active_repo matches Some(repo) ==> forall|i: int|
            0 <= i < paths@.len() ==> !serve::is_watched(
                repo.source_root@,
                (#[trigger] paths@[i])@,
            ),
        config.local_theme matches Some(theme) ==> forall|i: int|
            0 <= i < paths@.len() ==> !serve::is_watched(
                theme.theme_source_root@,
                (#[trigger] paths@[i])@,
            ) && !serve::is_index(theme.theme_index_path@, paths@[i]@),
    ensures
        ({
            let seen = next(config, state, ServeEvent::Paths(paths));
            let settled = next(config, seen.state, ServeEvent::Timeout);
            &&& settled.action is WaitFirst
            &&& settled.state == state
        }),
        next(config, state, ServeEvent::Timeout).action is WaitFirst,
        next(config, state, ServeEvent::Timeout).state == state,
        next(config, state, ServeEvent::StopRequested).action is Stop,
        next(config, state, ServeEvent::Disconnected).action is Stop,
{
}

/// The loop says that it is set up only once everything is under watch and listed: first the active
/// repository is watched, and the theme and its index; behind that the changes of the repository are
/// listed, the theme is brought into the build, and its changes are listed.
#[verifier::rlimit(60)]
pub proof fn setting_up_has_an_order(
    config: ServeSyncConfig,
    state: LoopState,
    paths: Vec<String>,
    no_error: Option<String>,
)
    requires
        no_error is None,
    ensures
        ({
            let done = next(config, state, ServeEvent::Done).action;
            let listed = next(config, state, ServeEvent::Paths(paths)).action;
            let indexed = next(
                config,
                state,
                ServeEvent::IndexWatched { file_error: no_error, parent_error: no_error },
            ).action;
            match (config.active_repo, config.local_theme) {
                (Some(repo), Some(theme)) => {
                    &&& state.phase is Starting ==> done == ActionView::Watch(repo.source_root@)
                    &&& state.phase is WatchingActive ==> done == ActionView::Watch(
                        theme.theme_source_root@,
                    )
                    &&& state.phase is WatchingTheme ==> done == ActionView::WatchIndex(
                        theme.theme_index_path@,
                    )
                    &&& state.phase is WatchingIndex ==> indexed == ActionView::ListActive(
                        repo.source_root@,
                    )
                    &&& state.phase is CapturingActive ==> listed is MaterializeTheme
                    &&& state.phase is MaterializingTheme ==> done == ActionView::ListTheme(
                        theme.theme_source_root@,
                    )
                    &&& state.phase is CapturingTheme ==> listed is ReportReady
                },
                (Some(repo), None) => {
                    &&& state.phase is Starting ==> done == ActionView::Watch(repo.source_root@)
                    &&& state.phase is WatchingActive ==> done == ActionView::ListActive(
                        repo.source_root@,
                    )
                    &&& state.phase is CapturingActive ==> listed is ReportReady
                },
                (None, Some(theme)) => {
                    &&& state.phase is Starting ==> done == ActionView::Watch(
                        theme.theme_source_root@,
                    )
                    &&& state.phase is WatchingTheme ==> done == ActionView::WatchIndex(
                        theme.theme_index_path@,
                    )
                    &&& state.phase is WatchingIndex ==> indexed is MaterializeTheme
                    &&& state.phase is MaterializingTheme ==> done == ActionView::ListTheme(
                        theme.theme_source_root@,
                    )
                    &&& state.phase is CapturingTheme ==> listed is ReportReady
                },
                (None, None) => state.phase is Starting ==> done is ReportReady,
            }
        }),
{
}

/// A step of the set-up that fails ends the loop with a failure, while a step of a loop that is set up
/// does not.
pub proof fn only_the_set_up_can_fail(config: ServeSyncConfig, state: LoopState, cause: String)
    ensures
        state.phase is Starting || state.phase is WatchingActive || state.phase is WatchingTheme
            || state.phase is CapturingActive || state.phase is MaterializingTheme
            || state.phase is CapturingTheme ==> next(
            config,
            state,
            ServeEvent::Failed(cause),
        ).action is ReportFailure,
        state.phase is ListingActive || state.phase is SyncingActive || state.phase is ListingTheme
            || state.phase is SyncingTheme ==> ({
            let out = next(config, state, ServeEvent::Failed(cause));
            &&& out.action is WaitFirst || out.action is ListTheme
            &&& out.state.active == state.active
            &&& out.state.theme == state.theme
        }),
{
}

/// Every change that is listed is carried over, unless a selection leaves it out; and what the build
/// has of earlier changes is carried over with it, so that a change that was taken back is too.
pub proof fn listed_changes_are_carried_over(
    config: ServeSyncConfig,
    state: LoopState,
    paths: Vec<String>,
    i: int,
    old: Seq<char>,
)
    requires
        state.phase is ListingActive,
        config.active_repo is Some,
        0 <= i < paths@.len(),
        config.active_repo->0.only_plan matches Some(plan) ==> plan.syncs(paths@[i]@),
    ensures
        next(config, state, ServeEvent::Paths(paths)).action matches ActionView::SyncActive(affected)
            && path_set::holds_path(affected, path::components_of(paths@[i]@)) && (
        state.active.contains(old) ==> path_set::holds_path(affected, path::components_of(old))),
{
    let repo = config.active_repo->0;
    let all = text::views(paths@);
    let s = paths@[i]@;
    let kept = serve::carried(repo.only_plan, all);
    assert(all[i] == s);
    serve::carried_paths_are_those_of_the_selection(repo.only_plan, all, s);
    let k = choose|k: int| 0 <= k < kept.len() && kept[k] == s;
    assert(path::components_of(kept[k]) == path::components_of(s));
    path_set::added_paths_are_held(Seq::empty(), kept, path::components_of(s));
    old_and_new_changes_are_carried_over(config, state, paths, path::components_of(s));
    if state.active.contains(old) {
        let m = choose|m: int| 0 <= m < state.active.len() && state.active[m] == old;
        assert(path::components_of(state.active[m]) == path::components_of(old));
        old_and_new_changes_are_carried_over(config, state, paths, path::components_of(old));
    }
}

} // verus!
