//! The sync scheduler's decisions: its state machine over periodic polls,
//! manual requests, debounced pushes and shutdown. Timers and the network
//! run outside; they report events here and carry out the actions returned.
use vstd::prelude::*;
use crate::sync_engine::SyncError;

verus! {

/// Obtains the latest valid auth token; `None` when not authenticated.
pub trait TokenProvider {
    fn get_token(&self) -> Option<String>;
}

/// Sync scheduler state.
#[derive(Debug, Clone, Copy, PartialEq, Eq, Structural)]
pub enum SyncState {
    /// Idle, waiting for next sync cycle.
    Idle,
    /// Currently syncing.
    Syncing,
    /// Last sync encountered an error.
    Error,
    /// Network is offline.
    Offline,
    /// User is not logged in, scheduler is dormant.
    Dormant,
}

/// Something that happened to a running scheduler.
#[derive(Debug, Clone, Copy, PartialEq, Eq, Structural)]
pub enum SchedulerEvent {
    /// The 30-second poll interval elapsed.
    PollTick,
    /// A full sync was asked for.
    SyncNowRequested,
    /// A push was asked for (it waits out the 2-second debounce).
    PushRequested,
    /// The debounce delay of a requested push elapsed.
    DebounceElapsed,
    /// The scheduler was asked to stop.
    StopRequested,
}

/// What the scheduler's runner must do next.
#[derive(Debug, Clone, PartialEq, Eq)]
pub enum SchedulerAction {
    /// Run a full sync (push then pull) with this token.
    FullSync(String),
    /// Push pending operations with this token.
    Push(String),
    /// Nothing to run: without a token the scheduler went dormant.
    GoDormant,
    /// Start (or restart) the debounce delay for a push.
    ArmDebounce,
    /// Stop the scheduler, after a final push with this token if there is one.
    Shutdown(Option<String>),
    /// Nothing to do.
    Ignore,
}

/// The number of seconds between periodic syncs.
pub const POLL_INTERVAL_SECS: u64 = 30;

/// The number of seconds a requested push waits.
pub const PUSH_DEBOUNCE_SECS: u64 = 2;

/// The state a finished sync cycle leaves: idle on success; dormant when
/// authentication failed, offline when the network failed, else error.
pub open spec fn state_after_sync(result: Result<(usize, usize), SyncError>) -> SyncState {
    match result {
        Ok(_) => SyncState::Idle,
        Err(SyncError::NotAuthenticated) => SyncState::Dormant,
        Err(SyncError::Transport(_)) => SyncState::Offline,
        Err(_) => SyncState::Error,
    }
}

/// The state a finished push leaves: idle on success, else error.
pub open spec fn state_after_push(result: Result<usize, SyncError>) -> SyncState {
    match result {
        Ok(_) => SyncState::Idle,
        Err(_) => SyncState::Error,
    }
}

/// The decisions of the sync scheduler.
pub struct SchedulerCore {
    state: SyncState,
    running: bool,
    debounce_armed: bool,
}

impl SchedulerCore {
    pub closed spec fn current(&self) -> SyncState {
        self.state
    }

    pub closed spec fn is_running(&self) -> bool {
        self.running
    }

    pub closed spec fn push_waiting(&self) -> bool {
        self.debounce_armed
    }

    /// A scheduler that has not started: dormant.
    pub fn new() -> (s: Self)
        ensures
            s.current() == SyncState::Dormant,
            !s.is_running(),
            !s.push_waiting(),
    {
        SchedulerCore { state: SyncState::Dormant, running: false, debounce_armed: false }
    }

    /// The current state.
    pub fn state(&self) -> (s: SyncState)
        ensures
            s == self.current(),
    {
        self.state
    }

    /// Whether the scheduler runs.
    pub fn running(&self) -> (b: bool)
        ensures
            b == self.is_running(),
    {
        self.running
    }

    /// Starts the scheduler: it becomes idle and syncs at once when a token
    /// is at hand; without one it stays idle and asks to go dormant (see
    /// `go_dormant`). Starting a running scheduler is ignored.
    pub fn start(&mut self, token: Option<String>) -> (a: SchedulerAction)
        ensures
            old(self).is_running() ==> a == SchedulerAction::Ignore && *final(self) == *old(self),
            !old(self).is_running() ==> final(self).is_running() && !final(self).push_waiting() && match token {
                Some(t) => a == SchedulerAction::FullSync(t) && final(self).current() == SyncState::Idle,
                None => a == SchedulerAction::GoDormant && final(self).current() == SyncState::Idle,
            },
    {
        if self.running {
            return SchedulerAction::Ignore;
        }
        self.running = true;
        self.debounce_armed = false;
        self.state = SyncState::Idle;
        match token {
            Some(t) => SchedulerAction::FullSync(t),
            None => SchedulerAction::GoDormant,
        }
    }

    /// Goes dormant for want of a token, as a start without one asks.
    pub fn go_dormant(&mut self)
        ensures
            final(self).current() == SyncState::Dormant,
            final(self).is_running() == old(self).is_running(),
            final(self).push_waiting() == old(self).push_waiting(),
    {
        self.state = SyncState::Dormant;
    }

    /// Decides what an event calls for, given the token at hand.
    ///
    /// A poll tick or a sync request runs a full sync; a push request arms
    /// the debounce; an elapsed debounce runs a push; without a token these
    /// runs become a dormant state instead. A stop request ends the
    /// scheduler, with a final push when a token is at hand. A scheduler
    /// that does not run ignores every event.
    pub fn on_event(&mut self, event: SchedulerEvent, token: Option<String>) -> (a: SchedulerAction)
        ensures
            !old(self).is_running() ==> a == SchedulerAction::Ignore && *final(self) == *old(self),
            old(self).is_running() ==> match event {
                SchedulerEvent::PollTick | SchedulerEvent::SyncNowRequested => match token {
                    Some(t) => a == SchedulerAction::FullSync(t) && *final(self) == *old(self),
                    None => a == SchedulerAction::GoDormant && final(self).current() == SyncState::Dormant
                        && final(self).is_running() && final(self).push_waiting() == old(self).push_waiting(),
                },
                SchedulerEvent::PushRequested => a == SchedulerAction::ArmDebounce && final(self).push_waiting()
                    && final(self).is_running() && final(self).current() == old(self).current(),
                SchedulerEvent::DebounceElapsed => !final(self).push_waiting() && final(self).is_running()
                    && match token {
                    Some(t) => a == SchedulerAction::Push(t) && final(self).current() == old(self).current(),
                    None => a == SchedulerAction::GoDormant && final(self).current() == SyncState::Dormant,
                },
                SchedulerEvent::StopRequested => a == SchedulerAction::Shutdown(token) && !final(self).is_running()
                    && !final(self).push_waiting() && final(self).current() == old(self).current(),
            },
    {
        if !self.running {
            return SchedulerAction::Ignore;
        }
        match event {
            SchedulerEvent::PollTick | SchedulerEvent::SyncNowRequested => match token {
                Some(t) => SchedulerAction::FullSync(t),
                None => {
                    self.state = SyncState::Dormant;
                    SchedulerAction::GoDormant
                },
            },
            SchedulerEvent::PushRequested => {
                self.debounce_armed = true;
                SchedulerAction::ArmDebounce
            },
            SchedulerEvent::DebounceElapsed => {
                self.debounce_armed = false;
                match token {
                    Some(t) => SchedulerAction::Push(t),
                    None => {
                        self.state = SyncState::Dormant;
                        SchedulerAction::GoDormant
                    },
                }
            },
            SchedulerEvent::StopRequested => {
                self.running = false;
                self.debounce_armed = false;
                SchedulerAction::Shutdown(token)
            },
        }
    }

    /// A sync or push is about to run. When another one is still in
    /// progress (`busy`), this one is dropped, which the state reports as
    /// syncing; either way the state is syncing. Returns whether to run.
    pub fn begin_run(&mut self, busy: bool) -> (go: bool)
        ensures
            go == !busy,
            final(self).current() == SyncState::Syncing,
            final(self).is_running() == old(self).is_running(),
            final(self).push_waiting() == old(self).push_waiting(),
    {
        self.state = SyncState::Syncing;
        !busy
    }

    /// Records the end of a full sync cycle.
    pub fn finish_sync(&mut self, result: &Result<(usize, usize), SyncError>)
        ensures
            final(self).current() == state_after_sync(*result),
            final(self).is_running() == old(self).is_running(),
            final(self).push_waiting() == old(self).push_waiting(),
    {
        self.state = match result {
            Ok(_) => SyncState::Idle,
            Err(SyncError::NotAuthenticated) => SyncState::Dormant,
            Err(SyncError::Transport(_)) => SyncState::Offline,
            Err(_) => SyncState::Error,
        };
    }

    /// Records the end of a push.
    pub fn finish_push(&mut self, result: &Result<usize, SyncError>)
        ensures
            final(self).current() == state_after_push(*result),
            final(self).is_running() == old(self).is_running(),
            final(self).push_waiting() == old(self).push_waiting(),
    {
        self.state = match result {
            Ok(_) => SyncState::Idle,
            Err(_) => SyncState::Error,
        };
    }

    /// Records that the scheduler stopped: it is dormant.
    pub fn finish_stop(&mut self)
        ensures
            final(self).current() == SyncState::Dormant,
            !final(self).is_running(),
            !final(self).push_waiting(),
    {
        self.running = false;
        self.debounce_armed = false;
        self.state = SyncState::Dormant;
    }
}

} // verus!
