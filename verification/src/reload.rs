//! Generations of supervisors and the reload that replaces one generation
//! by the next: the old one is told to shut down, every one of its
//! supervisors is seen to terminate, and only then is the new one spawned.

use crate::config::{
    check_routes, listen_addresses, valid_routes, AppConfig, ConfigError, ConfigErrorView, Routes,
};
use crate::supervisor::{
    supervisor_next, supervisor_step, SupervisorAction, SupervisorEvent, SupervisorState,
};
use vstd::prelude::*;

verus! {

/// The supervisors spawned from one snapshot, with their shutdown signal.
#[derive(Debug, PartialEq, Eq)]
pub struct Generation {
    /// Number of the generation; the first one is 0.
    pub id: u64,
    /// The snapshot that the generation was spawned from.
    pub config: AppConfig,
    /// The state of each route's supervisor, in the order of the snapshot.
    pub states: Vec<SupervisorState>,
    /// Whether the shutdown signal has fired.
    pub signalled: bool,
}

/// Where a generation stands as a whole.
#[derive(Clone, Copy, Debug, PartialEq, Eq, Structural)]
pub enum GenerationPhase {
    /// The shutdown signal has not fired.
    Active,
    /// The signal has fired and some supervisor has yet to terminate.
    Draining,
    /// The signal has fired and every supervisor is terminated.
    Terminated,
}

/// A generation as plain values.
pub struct GenerationView {
    pub id: u64,
    pub routes: Routes,
    pub states: Seq<SupervisorState>,
    pub signalled: bool,
}

impl View for Generation {
    type V = GenerationView;

    open spec fn view(&self) -> GenerationView {
        GenerationView {
            id: self.id,
            routes: self.config@,
            states: self.states@,
            signalled: self.signalled,
        }
    }
}

impl GenerationView {
    /// Every route has its supervisor, and the routes can be served
    /// together: no two of them share a name or a listen address.
    pub open spec fn wf(self) -> bool {
        self.states.len() == self.routes.len() && valid_routes(self.routes)
    }

    /// The generation as it is spawned: every supervisor starting, the
    /// signal not fired.
    pub open spec fn fresh(id: u64, routes: Routes) -> GenerationView {
        GenerationView {
            id,
            routes,
            states: Seq::new(routes.len(), |i: int| SupervisorState::Starting),
            signalled: false,
        }
    }

    /// Every supervisor of the generation is terminated.
    pub open spec fn all_terminated(self) -> bool {
        forall|i: int| 0 <= i < self.states.len() ==> self.states[i] is Terminated
    }

    /// Where the generation stands as a whole.
    pub open spec fn phase(self) -> GenerationPhase {
        if !self.signalled {
            GenerationPhase::Active
        } else if self.all_terminated() {
            GenerationPhase::Terminated
        } else {
            GenerationPhase::Draining
        }
    }

    /// Route `route` holds its listen address.
    pub open spec fn listening(self, route: int) -> bool {
        0 <= route < self.states.len() && self.states[route].listening()
    }

    /// What `event` does to the supervisor of `route`: its next state, under
    /// the generation's signal, and its action; `None` where there is no
    /// such route or its supervisor does not await the event.
    pub open spec fn observe(self, route: int, event: SupervisorEvent) -> Option<
        (GenerationView, SupervisorAction),
    > {
        if 0 <= route < self.states.len() {
            match supervisor_next(self.states[route], event, self.signalled) {
                Some((next, action)) => Some(
                    (GenerationView { states: self.states.update(route, next), ..self }, action),
                ),
                None => None,
            }
        } else {
            None
        }
    }
}

impl Generation {
    /// Spawns generation `id` from `config`.
    pub fn spawn(id: u64, config: AppConfig) -> (generation: Generation)
        ensures
            generation@ == GenerationView::fresh(id, config@),
    {
        let mut states: Vec<SupervisorState> = Vec::new();
        let mut at: usize = 0;
        while at < config.servers.len()
            invariant
                at <= config.servers.len(),
                states.len() == at,
                forall|k: int| 0 <= k < at ==> states@[k] is Starting,
            decreases config.servers.len() - at,
        {
            states.push(SupervisorState::Starting);
            at = at + 1;
        }
        assert(states@ =~= Seq::new(config@.len(), |i: int| SupervisorState::Starting));
        Generation { id, config, states, signalled: false }
    }

    /// Tells whether every supervisor is terminated.
    pub fn all_terminated(&self) -> (all: bool)
        ensures
            all == self@.all_terminated(),
    {
        let mut at: usize = 0;
        while at < self.states.len()
            invariant
                at <= self.states.len(),
                forall|k: int| 0 <= k < at ==> self.states@[k] is Terminated,
            decreases self.states.len() - at,
        {
            if !self.states[at].is_terminated() {
                return false;
            }
            at = at + 1;
        }
        true
    }

    /// Where the generation stands as a whole.
    pub fn phase(&self) -> (phase: GenerationPhase)
        ensures
            phase == self@.phase(),
    {
        if !self.signalled {
            GenerationPhase::Active
        } else if self.all_terminated() {
            GenerationPhase::Terminated
        } else {
            GenerationPhase::Draining
        }
    }

    /// Takes in what happened to the supervisor of `route` and answers with
    /// what that supervisor is to do.
    pub fn observe(&mut self, route: usize, event: SupervisorEvent) -> (action: Option<
        SupervisorAction,
    >)
        ensures
            match old(self)@.observe(route as int, event) {
                Some((after, asked)) => final(self)@ == after && action == Some(asked),
                None => final(self)@ == old(self)@ && action is None,
            },
    {
        if route >= self.states.len() {
            return None;
        }
        match supervisor_step(self.states[route], event, self.signalled) {
            Some((next, action)) => {
                self.states.set(route, next);
                Some(action)
            },
            None => None,
        }
    }
}

/// How far a reload has come.
#[derive(Debug, PartialEq, Eq)]
pub enum Stage {
    /// No reload is under way.
    Idle,
    /// A trigger came in and the configuration is being read.
    Loading,
    /// The current generation has its signal and is being joined; `next`
    /// is the snapshot that follows it.
    Draining { next: AppConfig },
}

/// A stage as plain values.
pub enum StageView {
    Idle,
    Loading,
    Draining { next: Routes },
}

impl View for Stage {
    type V = StageView;

    open spec fn view(&self) -> StageView {
        match self {
            Stage::Idle => StageView::Idle,
            Stage::Loading => StageView::Loading,
            Stage::Draining { next } => StageView::Draining { next: next@ },
        }
    }
}

/// What the reload path reports.
#[derive(Debug, PartialEq, Eq)]
pub enum ReloadEvent {
    /// The configuration has changed.
    Trigger,
    /// The configuration was read and parsed.
    Loaded(AppConfig),
    /// The configuration could not be read or parsed.
    LoadFailed,
    /// The completion tracker has seen every supervisor end.
    Joined,
}

/// A reload event as plain values.
pub enum ReloadEventView {
    Trigger,
    Loaded(Routes),
    LoadFailed,
    Joined,
}

impl View for ReloadEvent {
    type V = ReloadEventView;

    open spec fn view(&self) -> ReloadEventView {
        match self {
            ReloadEvent::Trigger => ReloadEventView::Trigger,
            ReloadEvent::Loaded(config) => ReloadEventView::Loaded(config@),
            ReloadEvent::LoadFailed => ReloadEventView::LoadFailed,
            ReloadEvent::Joined => ReloadEventView::Joined,
        }
    }
}

/// Why a reload was given up. The current generation is untouched.
#[derive(Debug, PartialEq, Eq)]
pub enum ReloadFailure {
    /// The configuration could not be read or parsed.
    LoadFailed,
    /// The configuration was read, and cannot be served.
    Invalid(ConfigError),
    /// The generation numbers are used up.
    GenerationsExhausted,
}

/// What the reload path is asked to do next.
#[derive(Debug, PartialEq, Eq)]
pub enum ReloadAction {
    /// Read the configuration.
    Load,
    /// Tell the operator that the reload failed, and go on serving.
    Report(ReloadFailure),
    /// Fire the shutdown signal of generation `generation` and wait until
    /// every one of its supervisors has ended.
    SignalShutdown { generation: u64 },
    /// Start the supervisors of generation `generation`, which is now the
    /// current one.
    Activate { generation: u64 },
}

/// A reload action as plain values.
pub enum ReloadActionView {
    Load,
    ReportLoadFailed,
    ReportInvalid(ConfigErrorView),
    ReportGenerationsExhausted,
    SignalShutdown { generation: u64 },
    Activate { generation: u64 },
}

impl View for ReloadAction {
    type V = ReloadActionView;

    open spec fn view(&self) -> ReloadActionView {
        match self {
            ReloadAction::Load => ReloadActionView::Load,
            ReloadAction::Report(ReloadFailure::LoadFailed) => ReloadActionView::ReportLoadFailed,
            ReloadAction::Report(ReloadFailure::Invalid(error)) => ReloadActionView::ReportInvalid(
                error@,
            ),
            ReloadAction::Report(ReloadFailure::GenerationsExhausted) =>
                ReloadActionView::ReportGenerationsExhausted,
            ReloadAction::SignalShutdown { generation } => ReloadActionView::SignalShutdown {
                generation: *generation,
            },
            ReloadAction::Activate { generation } => ReloadActionView::Activate {
                generation: *generation,
            },
        }
    }
}

/// The action that was asked for, if any, as plain values.
pub open spec fn asked(action: Option<ReloadAction>) -> Option<ReloadActionView> {
    match action {
        Some(action) => Some(action@),
        None => None,
    }
}

/// The one current generation and the reload that may be replacing it.
#[derive(Debug, PartialEq, Eq)]
pub struct Orchestrator {
    pub current: Generation,
    pub stage: Stage,
}

/// An orchestrator as plain values.
pub struct OrchestratorView {
    pub current: GenerationView,
    pub stage: StageView,
}

impl View for Orchestrator {
    type V = OrchestratorView;

    open spec fn view(&self) -> OrchestratorView {
        OrchestratorView { current: self.current@, stage: self.stage@ }
    }
}

impl OrchestratorView {
    /// The current generation is well formed; its signal has fired exactly
    /// while it is being drained; and the snapshot that waits to follow it
    /// can be served and has a number to go by.
    pub open spec fn wf(self) -> bool {
        &&& self.current.wf()
        &&& match self.stage {
            StageView::Idle => !self.current.signalled,
            StageView::Loading => !self.current.signalled,
            StageView::Draining { next } => self.current.signalled && valid_routes(next)
                && self.current.id < u64::MAX,
        }
    }

    /// How an orchestrator begins: generation 0 of `routes`, no reload.
    pub open spec fn initial(routes: Routes) -> OrchestratorView {
        OrchestratorView { current: GenerationView::fresh(0, routes), stage: StageView::Idle }
    }

    /// The reload rule. A trigger starts a reload when none is under way.
    /// A configuration that cannot be read, parsed or served ends the
    /// reload and leaves the current generation as it is. One that can be
    /// served fires the current generation's signal. When the completion
    /// tracker reports and every supervisor of the current generation is
    /// terminated, the next generation takes its place. Any other event
    /// changes nothing and asks for nothing.
    pub open spec fn next(self, event: ReloadEventView) -> (OrchestratorView, Option<
        ReloadActionView,
    >) {
        match (self.stage, event) {
            (StageView::Idle, ReloadEventView::Trigger) => (
                OrchestratorView { stage: StageView::Loading, ..self },
                Some(ReloadActionView::Load),
            ),
            (StageView::Loading, ReloadEventView::LoadFailed) => (
                OrchestratorView { stage: StageView::Idle, ..self },
                Some(ReloadActionView::ReportLoadFailed),
            ),
            (StageView::Loading, ReloadEventView::Loaded(routes)) => match check_routes(routes) {
                Err(error) => (
                    OrchestratorView { stage: StageView::Idle, ..self },
                    Some(ReloadActionView::ReportInvalid(error)),
                ),
                Ok(_) => if self.current.id == u64::MAX {
                    (
                        OrchestratorView { stage: StageView::Idle, ..self },
                        Some(ReloadActionView::ReportGenerationsExhausted),
                    )
                } else {
                    (
                        OrchestratorView {
                            current: GenerationView { signalled: true, ..self.current },
                            stage: StageView::Draining { next: routes },
                        },
                        Some(ReloadActionView::SignalShutdown { generation: self.current.id }),
                    )
                },
            },
            (StageView::Draining { next }, ReloadEventView::Joined) => if self.current.all_terminated()
                && self.current.id < u64::MAX {
                (
                    OrchestratorView {
                        current: GenerationView::fresh((self.current.id + 1) as u64, next),
                        stage: StageView::Idle,
                    },
                    Some(ReloadActionView::Activate { generation: (self.current.id + 1) as u64 }),
                )
            } else {
                (self, None)
            },
            _ => (self, None),
        }
    }

    /// What `event` does when it comes from the supervisor of `route` in
    /// generation `generation`: nothing, unless that is the current
    /// generation.
    pub open spec fn observe(self, generation: u64, route: int, event: SupervisorEvent) -> Option<
        (OrchestratorView, SupervisorAction),
    > {
        if generation == self.current.id {
            match self.current.observe(route, event) {
                Some((current, action)) => Some((OrchestratorView { current, ..self }, action)),
                None => None,
            }
        } else {
            None
        }
    }
}

impl Orchestrator {
    /// Builds generation 0 from the initial configuration, provided that it
    /// can be served.
    pub fn start(initial: AppConfig) -> (result: Result<Orchestrator, ConfigError>)
        ensures
            match result {
                Ok(orchestrator) => check_routes(initial@) is Ok && orchestrator@
                    == OrchestratorView::initial(initial@) && orchestrator@.wf(),
                Err(error) => check_routes(initial@) == Err::<(), ConfigErrorView>(error@),
            },
    {
        match initial.validate() {
            Err(error) => Err(error),
            Ok(_) => Ok(Orchestrator { current: Generation::spawn(0, initial), stage: Stage::Idle }),
        }
    }

    /// Advances the reload by one event.
    pub fn step(&mut self, event: ReloadEvent) -> (action: Option<ReloadAction>)
        ensures
            (final(self)@, asked(action)) == old(self)@.next(event@),
            old(self)@.wf() ==> final(self)@.wf(),
    {
        match event {
            ReloadEvent::Trigger => {
                match self.stage {
                    Stage::Idle => {},
                    _ => {
                        return None;
                    },
                }
                self.stage = Stage::Loading;
                Some(ReloadAction::Load)
            },
            ReloadEvent::LoadFailed => {
                match self.stage {
                    Stage::Loading => {},
                    _ => {
                        return None;
                    },
                }
                self.stage = Stage::Idle;
                Some(ReloadAction::Report(ReloadFailure::LoadFailed))
            },
            ReloadEvent::Loaded(config) => {
                match self.stage {
                    Stage::Loading => {},
                    _ => {
                        return None;
                    },
                }
                match config.validate() {
                    Err(error) => {
                        self.stage = Stage::Idle;
                        Some(ReloadAction::Report(ReloadFailure::Invalid(error)))
                    },
                    Ok(_) => {
                        if self.current.id == u64::MAX {
                            self.stage = Stage::Idle;
                            Some(ReloadAction::Report(ReloadFailure::GenerationsExhausted))
                        } else {
                            self.current.signalled = true;
                            self.stage = Stage::Draining { next: config };
                            Some(ReloadAction::SignalShutdown { generation: self.current.id })
                        }
                    },
                }
            },
            ReloadEvent::Joined => {
                match self.stage {
                    Stage::Draining { .. } => {},
                    _ => {
                        return None;
                    },
                }
                if !self.current.all_terminated() || self.current.id == u64::MAX {
                    return None;
                }
                let mut stage = Stage::Idle;
                std::mem::swap(&mut self.stage, &mut stage);
                match stage {
                    Stage::Draining { next } => {
                        let generation: u64 = self.current.id + 1;
                        self.current = Generation::spawn(generation, next);
                        Some(ReloadAction::Activate { generation })
                    },
                    _ => None,
                }
            },
        }
    }

    /// Takes in what happened to the supervisor of `route` in generation
    /// `generation` and answers with what that supervisor is to do.
    pub fn observe(&mut self, generation: u64, route: usize, event: SupervisorEvent) -> (action:
        Option<SupervisorAction>)
        ensures
            match old(self)@.observe(generation, route as int, event) {
                Some((after, asked)) => final(self)@ == after && action == Some(asked),
                None => final(self)@ == old(self)@ && action is None,
            },
            old(self)@.wf() ==> final(self)@.wf(),
    {
        if generation != self.current.id {
            return None;
        }
        self.current.observe(route, event)
    }
}

impl OrchestratorView {
    /// The orchestrator after the supervisors of the current generation
    /// have reported `observations`, each a route and what happened to it,
    /// in this order. A report that is not awaited changes nothing.
    pub open spec fn observe_all(self, observations: Seq<(int, SupervisorEvent)>) -> OrchestratorView
        decreases observations.len(),
    {
        if observations.len() == 0 {
            self
        } else {
            let next = match self.observe(self.current.id, observations[0].0, observations[0].1) {
                Some((after, _)) => after,
                None => self,
            };
            next.observe_all(observations.drop_first())
        }
    }
}

/// The reports that all routes from `from` up to `count` are ready.
pub open spec fn ready_reports(from: int, count: int) -> Seq<(int, SupervisorEvent)> {
    Seq::new((count - from) as nat, |i: int| (from + i, SupervisorEvent::Ready))
}

/// Every event keeps a well-formed orchestrator well formed.
pub proof fn lemma_step_keeps_wf(orchestrator: OrchestratorView, event: ReloadEventView)
    requires
        orchestrator.wf(),
    ensures
        orchestrator.next(event).0.wf(),
{
}

/// Every report of a supervisor keeps a well-formed orchestrator well
/// formed, and touches nothing but the state of that one supervisor.
pub proof fn lemma_observe_keeps_wf(
    orchestrator: OrchestratorView,
    generation: u64,
    route: int,
    event: SupervisorEvent,
)
    requires
        orchestrator.wf(),
    ensures
        orchestrator.observe(generation, route, event) matches Some((after, _)) ==> {
            &&& after.wf()
            &&& after.stage == orchestrator.stage
            &&& after.current.id == orchestrator.current.id
            &&& after.current.routes == orchestrator.current.routes
            &&& after.current.signalled == orchestrator.current.signalled
            &&& after.current.states == orchestrator.current.states.update(
                route,
                after.current.states[route],
            )
        },
{
}

/// No two listeners ever hold the same address: all the supervisors that
/// exist belong to the one current generation, and two of its routes that
/// hold their listen addresses at the same time hold different ones.
pub proof fn lemma_listeners_never_collide(orchestrator: OrchestratorView, one: int, other: int)
    requires
        orchestrator.wf(),
        one != other,
        orchestrator.current.listening(one),
        orchestrator.current.listening(other),
    ensures
        orchestrator.current.routes[one].1.listen != orchestrator.current.routes[other].1.listen,
{
    let listens = listen_addresses(orchestrator.current.routes);
    assert(listens[one] != listens[other]);
}

/// Generations follow one another, they never overlap: the current
/// generation gives way only when the completion tracker reports, every
/// one of its supervisors is terminated and so none holds a listener; what
/// takes its place is the waiting snapshot, freshly spawned under the next
/// number.
pub proof fn lemma_handover_is_sequential(orchestrator: OrchestratorView, event: ReloadEventView)
    requires
        orchestrator.wf(),
        orchestrator.next(event).0.current.id != orchestrator.current.id,
    ensures
        event is Joined,
        orchestrator.current.phase() is Terminated,
        forall|route: int| !orchestrator.current.listening(route),
        orchestrator.stage matches StageView::Draining { next } && orchestrator.next(event).0
            == (OrchestratorView {
            current: GenerationView::fresh((orchestrator.current.id + 1) as u64, next),
            stage: StageView::Idle,
        }),
        orchestrator.next(event).0.current.id == orchestrator.current.id + 1,
{
}

/// As long as the generation stays, no event of the reload path touches
/// its routes or its supervisors.
pub proof fn lemma_reload_path_leaves_supervisors(
    orchestrator: OrchestratorView,
    event: ReloadEventView,
)
    requires
        orchestrator.next(event).0.current.id == orchestrator.current.id,
        !(event is Joined),
    ensures
        orchestrator.next(event).0.current.routes == orchestrator.current.routes,
        orchestrator.next(event).0.current.states == orchestrator.current.states,
{
}

/// A reload whose configuration cannot be read, parsed or served leaves
/// the current generation exactly as it is, its supervisors serving as
/// before, and ends with a report to the operator.
pub proof fn lemma_failed_reload_changes_nothing(
    orchestrator: OrchestratorView,
    event: ReloadEventView,
)
    requires
        orchestrator.stage is Loading,
        event is LoadFailed || (event matches ReloadEventView::Loaded(routes) && !valid_routes(
            routes,
        )),
    ensures
        orchestrator.next(event).0 == (OrchestratorView { stage: StageView::Idle, ..orchestrator }),
        orchestrator.next(event).1 is Some,
        orchestrator.next(event).1.unwrap() is ReportLoadFailed || orchestrator.next(
            event,
        ).1.unwrap() is ReportInvalid,
{
}

/// Reports of supervisors leave the reload where it is, and the current
/// generation its number, routes and signal.
pub proof fn lemma_observe_all_keeps(
    orchestrator: OrchestratorView,
    observations: Seq<(int, SupervisorEvent)>,
)
    requires
        orchestrator.wf(),
    ensures
        orchestrator.observe_all(observations).wf(),
        orchestrator.observe_all(observations).stage == orchestrator.stage,
        orchestrator.observe_all(observations).current.id == orchestrator.current.id,
        orchestrator.observe_all(observations).current.routes == orchestrator.current.routes,
        orchestrator.observe_all(observations).current.signalled
            == orchestrator.current.signalled,
    decreases observations.len(),
{
    if observations.len() > 0 {
        let next = match orchestrator.observe(
            orchestrator.current.id,
            observations[0].0,
            observations[0].1,
        ) {
            Some((after, _)) => after,
            None => orchestrator,
        };
        lemma_observe_all_keeps(next, observations.drop_first());
    }
}

/// A reload with a configuration that can be served: the trigger asks for
/// the configuration, the configuration fires the current generation's
/// signal, and once its supervisors have reported themselves terminated
/// and the completion tracker has reported, the current generation is the
/// new snapshot under the next number, every supervisor starting.
pub proof fn lemma_reload_replaces_generation(
    orchestrator: OrchestratorView,
    routes: Routes,
    observations: Seq<(int, SupervisorEvent)>,
)
    requires
        orchestrator.wf(),
        orchestrator.stage is Idle,
        orchestrator.current.id < u64::MAX,
        valid_routes(routes),
        orchestrator.next(ReloadEventView::Trigger).0.next(
            ReloadEventView::Loaded(routes),
        ).0.observe_all(observations).current.all_terminated(),
    ensures
        orchestrator.next(ReloadEventView::Trigger).1 == Some(ReloadActionView::Load),
        orchestrator.next(ReloadEventView::Trigger).0.next(ReloadEventView::Loaded(routes)).1
            == Some(ReloadActionView::SignalShutdown { generation: orchestrator.current.id }),
        orchestrator.next(ReloadEventView::Trigger).0.next(
            ReloadEventView::Loaded(routes),
        ).0.observe_all(observations).next(ReloadEventView::Joined) == (
            OrchestratorView {
                current: GenerationView::fresh((orchestrator.current.id + 1) as u64, routes),
                stage: StageView::Idle,
            },
            Some(
                ReloadActionView::Activate { generation: (orchestrator.current.id + 1) as u64 },
            ),
        ),
{
    let loading = orchestrator.next(ReloadEventView::Trigger).0;
    let draining = loading.next(ReloadEventView::Loaded(routes)).0;
    assert(draining.stage == StageView::Draining { next: routes });
    lemma_observe_all_keeps(draining, observations);
}

/// In a generation whose signal has not fired, a starting route that
/// reports ready serves, on the listen address that the snapshot gives it.
pub proof fn lemma_ready_route_listens(orchestrator: OrchestratorView, route: int)
    requires
        orchestrator.wf(),
        !orchestrator.current.signalled,
        0 <= route < orchestrator.current.states.len(),
        orchestrator.current.states[route] is Starting,
    ensures
        orchestrator.observe(orchestrator.current.id, route, SupervisorEvent::Ready) matches Some(
            (after, action),
        ) && action is Serve && after.current.listening(route) && after.current.routes
            == orchestrator.current.routes,
{
}

proof fn lemma_routes_come_up_from(orchestrator: OrchestratorView, from: int)
    requires
        orchestrator.wf(),
        !orchestrator.current.signalled,
        0 <= from <= orchestrator.current.states.len(),
        forall|i: int| 0 <= i < from ==> orchestrator.current.states[i] is Serving,
        forall|i: int|
            from <= i < orchestrator.current.states.len() ==> orchestrator.current.states[i]
                is Starting,
    ensures
        orchestrator.observe_all(
            ready_reports(from, orchestrator.current.states.len() as int),
        ).current.states =~= Seq::new(
            orchestrator.current.states.len(),
            |i: int| SupervisorState::Serving,
        ),
    decreases orchestrator.current.states.len() - from,
{
    let count = orchestrator.current.states.len() as int;
    let reports = ready_reports(from, count);
    if from < count {
        let next = orchestrator.observe(orchestrator.current.id, from, SupervisorEvent::Ready);
        assert(reports[0] == (from, SupervisorEvent::Ready));
        assert(reports.drop_first() =~= ready_reports(from + 1, count));
        lemma_routes_come_up_from(next.unwrap().0, from + 1);
    }
}

/// After a reload all the new listeners are open on their configured
/// addresses: when every route of a freshly spawned generation reports
/// ready, every supervisor serves, and the routes are those of the
/// snapshot.
pub proof fn lemma_every_route_comes_up(id: u64, routes: Routes)
    requires
        valid_routes(routes),
    ensures
        ({
            let spawned = OrchestratorView {
                current: GenerationView::fresh(id, routes),
                stage: StageView::Idle,
            };
            let up = spawned.observe_all(ready_reports(0, routes.len() as int));
            &&& up.current.routes == routes
            &&& up.current.states.len() == routes.len()
            &&& forall|route: int| 0 <= route < routes.len() ==> up.current.listening(route)
        }),
{
    let spawned = OrchestratorView {
        current: GenerationView::fresh(id, routes),
        stage: StageView::Idle,
    };
    lemma_routes_come_up_from(spawned, 0);
    lemma_observe_all_keeps(spawned, ready_reports(0, routes.len() as int));
}

/// Once the signal of a generation has fired, none of its supervisors
/// begins to accept connections.
pub proof fn lemma_signalled_generation_opens_nothing(
    generation: GenerationView,
    route: int,
    event: SupervisorEvent,
)
    requires
        generation.signalled,
        0 <= route < generation.states.len(),
        !generation.states[route].accepting(),
    ensures
        generation.observe(route, event) matches Some((after, _)) ==> !after.states[route].accepting(),
{
}

} // verus!
