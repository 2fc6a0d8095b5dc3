//! The manager of the listeners: one for each level of access that is
//! configured. It binds them, with retries; it stops and binds them again
//! when the set of endpoints changes; and it ends when one of them fails or
//! when no more changes can come.
//!
//! The manager does no work on the network itself. It is told what happened,
//! and says what is to be done next.

pub mod services;

pub use crate::config::{ApiManagerConfig, Servers, UpdateEndpoints, WebServerConfig};
pub use crate::manager::services::ServerSetup;
pub use crate::retry::{
    join_starts, with_retries, Retry, RetryAction, RetryEvent, RetryPhase, ServerError,
};

use crate::retry::{outcome_view, retry_start, start_description};
use crate::scope::{ApiAccess, ApiBuilder};
use vstd::prelude::*;

verus! {

/// Where the manager stands.
#[derive(Debug, Clone, Copy, PartialEq, Eq, Structural)]
pub enum ManagerPhase {
    /// No listener is bound: nothing was started yet, or all is over.
    Stopped,
    /// The listeners of a generation are being bound.
    Starting,
    /// The listeners of a generation run.
    Running,
    /// The listeners of a generation are being stopped.
    Stopping,
}

/// What the manager is told.
#[derive(Debug)]
pub enum ManagerEvent<F> {
    /// A new set of endpoints came.
    Update(UpdateEndpoints<F>),
    /// No more sets of endpoints can come.
    UpdatesClosed,
    /// A listener ended, and said so on the channel of a generation.
    ListenerFinished { generation: u64, outcome: Result<(), ServerError> },
    /// The listeners that were to stop have stopped.
    StopFinished,
    /// Binding the listeners of the new generation ended: all are bound, or
    /// one could not be, and then none is.
    StartFinished(Result<(), ServerError>),
}

/// What the manager wants done.
#[derive(Debug, PartialEq, Eq)]
pub enum ManagerAction {
    /// The listeners run: wait for the next event.
    Wait,
    /// The event was not taken, and is lost: it does not belong to the
    /// phase, or it is the report of a listener on the channel of another
    /// generation. Nothing has changed. Events other than the end of what
    /// the manager asked for are to be held back until it waits again.
    Ignored,
    /// Stop these listeners, and report `StopFinished`. The channel for the
    /// reports of listeners is from now on that of `generation`.
    Stop { generation: u64, listeners: Vec<ApiAccess> },
    /// Bind a listener for each of these levels of access, each with its
    /// retries, all or none, and report `StartFinished`.
    Start { generation: u64, levels: Vec<ApiAccess> },
    /// Return this to whoever runs the manager: all is over.
    Finish(Result<(), ServerError>),
}

/// An event as a value of specifications.
pub enum EventView {
    Update,
    UpdatesClosed,
    ListenerFinished { generation: u64, outcome: Result<(), Seq<char>> },
    StopFinished,
    StartFinished(Result<(), Seq<char>>),
}

/// An action as a value of specifications.
pub enum ActionView {
    Wait,
    Ignored,
    Stop { generation: u64, listeners: Seq<ApiAccess> },
    Start { generation: u64, levels: Seq<ApiAccess> },
    Finish(Result<(), Seq<char>>),
}

impl<F> View for ManagerEvent<F> {
    type V = EventView;

    open spec fn view(&self) -> EventView {
        match self {
            ManagerEvent::Update(_) => EventView::Update,
            ManagerEvent::UpdatesClosed => EventView::UpdatesClosed,
            ManagerEvent::ListenerFinished { generation, outcome } => EventView::ListenerFinished {
                generation: *generation,
                outcome: outcome_view(*outcome),
            },
            ManagerEvent::StopFinished => EventView::StopFinished,
            ManagerEvent::StartFinished(outcome) => EventView::StartFinished(
                outcome_view(*outcome),
            ),
        }
    }
}

impl View for ManagerAction {
    type V = ActionView;

    open spec fn view(&self) -> ActionView {
        match self {
            ManagerAction::Wait => ActionView::Wait,
            ManagerAction::Ignored => ActionView::Ignored,
            ManagerAction::Stop { generation, listeners } => ActionView::Stop {
                generation: *generation,
                listeners: listeners@,
            },
            ManagerAction::Start { generation, levels } => ActionView::Start {
                generation: *generation,
                levels: levels@,
            },
            ManagerAction::Finish(outcome) => ActionView::Finish(outcome_view(*outcome)),
        }
    }
}

/// The state of the manager.
pub struct ManagerState {
    pub phase: ManagerPhase,
    /// The generation whose channel the manager listens on.
    pub generation: u64,
    /// The levels of access whose listeners are bound.
    pub listeners: Seq<ApiAccess>,
    /// While the listeners stop: what the manager ends with after that, if
    /// it ends, and nothing if a new generation follows.
    pub after_stop: Option<Result<(), Seq<char>>>,
    /// Whether all is over.
    pub finished: bool,
}

/// The generation after a generation.
pub open spec fn next_generation(generation: u64) -> u64 {
    if generation == u64::MAX {
        0
    } else {
        (generation + 1) as u64
    }
}

/// The state of a manager that was told nothing yet.
pub open spec fn manager_start() -> ManagerState {
    ManagerState {
        phase: ManagerPhase::Stopped,
        generation: 0,
        listeners: Seq::empty(),
        after_stop: None,
        finished: false,
    }
}

/// Whether the manager waits for events of all kinds: no generation is
/// being stopped or bound, and not all is over.
pub open spec fn at_wait_point(state: ManagerState) -> bool {
    !state.finished && (state.phase == ManagerPhase::Stopped || state.phase
        == ManagerPhase::Running)
}

/// The rule of the manager, for the levels of access that are configured.
///
/// At its wait point the manager takes three events. A new set of endpoints
/// opens the channel of the next generation and stops the listeners; when
/// they have stopped, the next generation is bound. The end of the stream of
/// updates stops the listeners, and the manager ends in success. The report
/// of a listener on the channel of the current generation stops the others,
/// and the manager ends with that report. A report on another channel is
/// not looked at, in any phase.
///
/// While listeners stop or are bound, only the end of that is taken.
/// Binding that fails ends the manager with the failure, and no listener is
/// bound then. An event that does not belong to the phase changes nothing,
/// and the manager says that it ignored it.
pub open spec fn manager_next(levels: Seq<ApiAccess>, state: ManagerState, event: EventView) -> (
    ManagerState,
    ActionView,
) {
    if at_wait_point(state) {
        match event {
            EventView::Update => (
                ManagerState {
                    phase: ManagerPhase::Stopping,
                    generation: next_generation(state.generation),
                    after_stop: None,
                    ..state
                },
                ActionView::Stop {
                    generation: next_generation(state.generation),
                    listeners: state.listeners,
                },
            ),
            EventView::UpdatesClosed => (
                ManagerState {
                    phase: ManagerPhase::Stopping,
                    after_stop: Some(Ok(())),
                    ..state
                },
                ActionView::Stop { generation: state.generation, listeners: state.listeners },
            ),
            EventView::ListenerFinished { generation, outcome } => if generation
                == state.generation {
                (
                    ManagerState {
                        phase: ManagerPhase::Stopping,
                        after_stop: Some(outcome),
                        ..state
                    },
                    ActionView::Stop { generation: state.generation, listeners: state.listeners },
                )
            } else {
                (state, ActionView::Ignored)
            },
            _ => (state, ActionView::Ignored),
        }
    } else if state.finished {
        (state, ActionView::Ignored)
    } else if state.phase == ManagerPhase::Stopping {
        match event {
            EventView::StopFinished => match state.after_stop {
                Some(outcome) => (
                    ManagerState {
                        phase: ManagerPhase::Stopped,
                        listeners: Seq::empty(),
                        after_stop: None,
                        finished: true,
                        ..state
                    },
                    ActionView::Finish(outcome),
                ),
                None => (
                    ManagerState {
                        phase: ManagerPhase::Starting,
                        listeners: Seq::empty(),
                        ..state
                    },
                    ActionView::Start { generation: state.generation, levels },
                ),
            },
            _ => (state, ActionView::Ignored),
        }
    } else {
        match event {
            EventView::StartFinished(Ok(_)) => (
                ManagerState { phase: ManagerPhase::Running, listeners: levels, ..state },
                ActionView::Wait,
            ),
            EventView::StartFinished(Err(message)) => (
                ManagerState {
                    phase: ManagerPhase::Stopped,
                    listeners: Seq::empty(),
                    finished: true,
                    ..state
                },
                ActionView::Finish(Err(message)),
            ),
            _ => (state, ActionView::Ignored),
        }
    }
}

/// What holds of the manager at all times: the listeners bound are those
/// that are configured, or none; none is bound unless a generation runs or
/// is being stopped; and what the manager ends with is known exactly while
/// it stops in order to end.
pub open spec fn manager_inv(levels: Seq<ApiAccess>, state: ManagerState) -> bool {
    &&& state.listeners == levels || state.listeners.len() == 0
    &&& (state.phase == ManagerPhase::Stopped || state.phase == ManagerPhase::Starting)
        ==> state.listeners.len() == 0
    &&& state.finished ==> state.phase == ManagerPhase::Stopped
    &&& state.after_stop is Some ==> state.phase == ManagerPhase::Stopping
}

/// The invariant holds at the start and is kept by every event.
pub proof fn lemma_manager_inv(levels: Seq<ApiAccess>, state: ManagerState, event: EventView)
    requires
        manager_inv(levels, state),
    ensures
        manager_inv(levels, manager_start()),
        manager_inv(levels, manager_next(levels, state, event).0),
{
}

/// At most one listener is bound for a level of access, at any time.
pub proof fn lemma_one_listener_per_level(servers: Servers, state: ManagerState, i: int, j: int)
    requires
        manager_inv(servers.spec_levels(), state),
        0 <= i < state.listeners.len(),
        0 <= j < state.listeners.len(),
        state.listeners[i] == state.listeners[j],
    ensures
        i == j,
{
}

/// A report on the channel of another generation than the current one is
/// never taken for a report of the current one: it changes nothing and
/// nothing is done about it, whatever it says and in whatever phase it
/// comes.
pub proof fn lemma_generation_isolation(
    levels: Seq<ApiAccess>,
    state: ManagerState,
    generation: u64,
    outcome: Result<(), Seq<char>>,
)
    requires
        generation != state.generation,
    ensures
        manager_next(levels, state, EventView::ListenerFinished { generation, outcome }) == (
            state,
            ActionView::Ignored,
        ),
{
}

/// An update moves the manager to a generation other than the one whose
/// listeners it stops, so that what those listeners report while they stop
/// and afterwards is not looked at.
pub proof fn lemma_update_opens_new_generation(
    levels: Seq<ApiAccess>,
    state: ManagerState,
    outcome: Result<(), Seq<char>>,
)
    requires
        at_wait_point(state),
    ensures
        ({
            let stopping = manager_next(levels, state, EventView::Update).0;
            let report = EventView::ListenerFinished { generation: state.generation, outcome };
            let starting = manager_next(levels, stopping, EventView::StopFinished).0;
            let running = manager_next(levels, starting, EventView::StartFinished(Ok(()))).0;
            &&& stopping.generation != state.generation
            &&& manager_next(levels, stopping, report) == (stopping, ActionView::Ignored)
            &&& manager_next(levels, starting, report) == (starting, ActionView::Ignored)
            &&& manager_next(levels, running, report) == (running, ActionView::Ignored)
            &&& running.phase == ManagerPhase::Running
            &&& running.listeners == levels
        }),
{
}

/// Binding is all or nothing: after it failed no listener is bound and the
/// manager has ended with the failure; after it succeeded the listeners of
/// all configured levels of access are bound.
pub proof fn lemma_start_all_or_nothing(
    levels: Seq<ApiAccess>,
    state: ManagerState,
    outcome: Result<(), Seq<char>>,
)
    requires
        state.phase == ManagerPhase::Starting,
        !state.finished,
    ensures
        ({
            let (end, action) = manager_next(levels, state, EventView::StartFinished(outcome));
            match outcome {
                Ok(_) => end.phase == ManagerPhase::Running && end.listeners == levels && action
                    == ActionView::Wait,
                Err(message) => end.phase == ManagerPhase::Stopped && end.finished
                    && end.listeners.len() == 0 && action == ActionView::Finish(Err(message)),
            }
        }),
{
}

/// While a generation is being stopped or bound, an update is not taken:
/// generations follow one another and never overlap.
pub proof fn lemma_generations_serialized(levels: Seq<ApiAccess>, state: ManagerState)
    requires
        state.phase == ManagerPhase::Starting || state.phase == ManagerPhase::Stopping,
    ensures
        manager_next(levels, state, EventView::Update) == (state, ActionView::Ignored),
{
}

/// The manager: its setup, the endpoints of the last update, and where it
/// stands.
#[derive(Debug)]
pub struct ApiManager<F> {
    config: ApiManagerConfig<F>,
    servers: Vec<ApiAccess>,
    endpoints: Vec<(String, ApiBuilder<F>)>,
    generation: u64,
    phase: ManagerPhase,
    after_stop: Option<Result<(), ServerError>>,
    finished: bool,
}

impl<F> ApiManager<F> {
    /// Where the manager stands.
    pub closed spec fn state(self) -> ManagerState {
        ManagerState {
            phase: self.phase,
            generation: self.generation,
            listeners: self.servers@,
            after_stop: match self.after_stop {
                Some(outcome) => Some(outcome_view(outcome)),
                None => None,
            },
            finished: self.finished,
        }
    }

    /// What the manager was set up with.
    pub closed spec fn config(self) -> ApiManagerConfig<F> {
        self.config
    }

    /// The endpoints of the last update that was taken.
    pub closed spec fn endpoints(self) -> Vec<(String, ApiBuilder<F>)> {
        self.endpoints
    }

    /// The levels of access that are configured.
    pub open spec fn levels(self) -> Seq<ApiAccess> {
        self.config().servers.spec_levels()
    }

    /// A manager that was told nothing yet: no endpoints but those of its
    /// setup, and no listener.
    pub fn new(config: ApiManagerConfig<F>) -> (manager: Self)
        ensures
            manager.config() == config,
            manager.endpoints()@.len() == 0,
            manager.state() == manager_start(),
    {
        ApiManager {
            config,
            servers: Vec::new(),
            endpoints: Vec::new(),
            generation: 0,
            phase: ManagerPhase::Stopped,
            after_stop: None,
            finished: false,
        }
    }

    pub fn phase(&self) -> (phase: ManagerPhase)
        ensures
            phase == self.state().phase,
    {
        self.phase
    }

    /// The generation whose channel the manager listens on.
    pub fn generation(&self) -> (generation: u64)
        ensures
            generation == self.state().generation,
    {
        self.generation
    }

    /// Whether all is over.
    pub fn is_finished(&self) -> (finished: bool)
        ensures
            finished == self.state().finished,
    {
        self.finished
    }

    /// The levels of access whose listeners are bound.
    pub fn listeners(&self) -> (listeners: &Vec<ApiAccess>)
        ensures
            listeners@ == self.state().listeners,
    {
        &self.servers
    }

    /// What the manager was set up with.
    pub fn configuration(&self) -> (config: &ApiManagerConfig<F>)
        ensures
            *config == self.config(),
    {
        &self.config
    }

    /// The services of the last update that was taken.
    pub fn updated(&self) -> (endpoints: &Vec<(String, ApiBuilder<F>)>)
        ensures
            *endpoints == self.endpoints(),
    {
        &self.endpoints
    }

    /// Takes note of what happened, and says what is to be done next. An
    /// update that is taken replaces the endpoints; nothing else changes
    /// them.
    pub fn step(&mut self, event: ManagerEvent<F>) -> (action: ManagerAction)
        ensures
            (final(self).state(), action@) == manager_next(
                old(self).levels(),
                old(self).state(),
                event@,
            ),
            final(self).config() == old(self).config(),
            final(self).endpoints() == match event {
                ManagerEvent::Update(update) => if at_wait_point(old(self).state()) {
                    update.endpoints()
                } else {
                    old(self).endpoints()
                },
                _ => old(self).endpoints(),
            },
    {
        let waiting = !self.finished && match self.phase {
            ManagerPhase::Stopped => true,
            ManagerPhase::Running => true,
            _ => false,
        };
        if waiting {
            match event {
                ManagerEvent::Update(update) => {
                    self.generation = if self.generation == u64::MAX {
                        0
                    } else {
                        self.generation + 1
                    };
                    self.endpoints = update.into_endpoints();
                    self.phase = ManagerPhase::Stopping;
                    self.after_stop = None;
                    ManagerAction::Stop {
                        generation: self.generation,
                        listeners: copy_levels(&self.servers),
                    }
                },
                ManagerEvent::UpdatesClosed => {
                    self.phase = ManagerPhase::Stopping;
                    self.after_stop = Some(Ok(()));
                    ManagerAction::Stop {
                        generation: self.generation,
                        listeners: copy_levels(&self.servers),
                    }
                },
                ManagerEvent::ListenerFinished { generation, outcome } => {
                    if generation == self.generation {
                        self.phase = ManagerPhase::Stopping;
                        self.after_stop = Some(outcome);
                        ManagerAction::Stop {
                            generation: self.generation,
                            listeners: copy_levels(&self.servers),
                        }
                    } else {
                        ManagerAction::Ignored
                    }
                },
                _ => ManagerAction::Ignored,
            }
        } else if self.finished {
            ManagerAction::Ignored
        } else {
            match (self.phase, event) {
                (ManagerPhase::Stopping, ManagerEvent::StopFinished) => {
                    self.servers = Vec::new();
                    match self.after_stop.take() {
                        Some(outcome) => {
                            self.phase = ManagerPhase::Stopped;
                            self.finished = true;
                            ManagerAction::Finish(outcome)
                        },
                        None => {
                            self.phase = ManagerPhase::Starting;
                            ManagerAction::Start {
                                generation: self.generation,
                                levels: self.config.servers.levels(),
                            }
                        },
                    }
                },
                (ManagerPhase::Starting, ManagerEvent::StartFinished(Ok(_))) => {
                    self.phase = ManagerPhase::Running;
                    self.servers = self.config.servers.levels();
                    ManagerAction::Wait
                },
                (ManagerPhase::Starting, ManagerEvent::StartFinished(Err(error))) => {
                    self.phase = ManagerPhase::Stopped;
                    self.servers = Vec::new();
                    self.finished = true;
                    ManagerAction::Finish(Err(error))
                },
                _ => ManagerAction::Ignored,
            }
        }
    }

    /// What is attempted when the listener of a level of access is bound,
    /// with the retries of the setup; nothing for a level that is not
    /// configured.
    pub fn start_retry(&self, access: ApiAccess) -> (retry: Option<Retry>)
        ensures
            match self.config().servers.config(access) {
                Some(server) => retry matches Some(r) && r@ == retry_start(
                    start_description(access, server.listen_address@),
                    self.config().server_restart_max_retries as int,
                    self.config().server_restart_retry_timeout as int,
                ),
                None => retry is None,
            },
    {
        match self.config.servers.get(access) {
            Some(server) => {
                let mut description = String::from_str("starting ");
                description.append(access.to_string().as_str());
                description.append(" api on ");
                description.append(server.listen_address.as_str());
                Some(
                    with_retries(
                        description,
                        self.config.server_restart_max_retries,
                        self.config.server_restart_retry_timeout,
                    ),
                )
            },
            None => None,
        }
    }
}

/// A list of the same levels of access.
fn copy_levels(levels: &Vec<ApiAccess>) -> (copy: Vec<ApiAccess>)
    ensures
        copy@ == levels@,
{
    let mut copy: Vec<ApiAccess> = Vec::new();
    let mut i: usize = 0;
    while i < levels.len()
        invariant
            i <= levels@.len(),
            copy@ == levels@.take(i as int),
        decreases levels@.len() - i,
    {
        copy.push(levels[i]);
        assert(levels@.take(i + 1) == levels@.take(i as int).push(levels@[i as int]));
        i = i + 1;
    }
    assert(levels@.take(i as int) == levels@);
    copy
}

} // verus!
