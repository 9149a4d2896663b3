//! The supervisor: starts its children in order, decides what happens when
//! one of them terminates, and stops them all in reverse order.
//!
//! The caller runs the children and the clock. It performs each action the
//! supervisor hands back (start these, stop those) and reports each outcome
//! (a child started or failed to start, a child terminated at a time).
use vstd::prelude::*;
use crate::config::{SupervisorConfig, SupervisorError, valid_freq};
use crate::limiter::{RestartLimiter, evaluate_batch, lemma_zero_budget_denies};
use crate::registry::{ChildRegistry, ChildSpec, RestartType, ids_of};
use crate::strategy::{RestartStrategy, affected_at, affected_spec, failed_slot, reverse, reversed, stops_spec};

verus! {

/// The life of a supervisor. `Failed` is final.
#[derive(Clone, Copy, Debug, PartialEq, Eq, Structural)]
pub enum SupervisorStatus {
    Created,
    Starting,
    Running,
    Stopped,
    Failed,
}

/// The state of one child as the supervisor sees it.
#[derive(Clone, Copy, Debug, PartialEq, Eq, Structural)]
pub enum ChildStatus {
    Starting,
    Running,
    Stopped,
}

/// How a child terminated: on its own, or by an error.
#[derive(Clone, Copy, Debug, PartialEq, Eq, Structural)]
pub enum Termination {
    Normal,
    /// By an error; the caller's code for its cause.
    Abnormal(u64),
}

/// One restart decision, for an observer to record: the child whose
/// termination caused it, how it terminated, the strategy applied, and
/// whether the restart budget permitted the restarts.
#[derive(Clone, Copy, Debug, PartialEq, Eq, Structural)]
pub struct FailureEvent {
    pub child_id: u64,
    pub cause: Termination,
    pub strategy: RestartStrategy,
    pub allowed: bool,
}

/// The next step of startup.
#[derive(Debug, PartialEq, Eq)]
pub enum StartStep {
    /// Start this child and report the outcome.
    Next(u64),
    /// Every child has started.
    Done,
    /// A child failed to start: stop these, in this order, and report the
    /// error.
    Abort { stop: Vec<u64>, error: SupervisorError },
}

/// What to do after a child terminated.
#[derive(Debug, PartialEq, Eq)]
pub enum ExitAction {
    /// Nothing: the supervisor is not running, or the child is not its own.
    Ignore,
    /// The child is gone for good and has left the registry.
    Remove,
    /// Stop the children of `stop` in that order, then start those of
    /// `start` in that order. The child that terminated is in `start` but
    /// not in `stop`: it has already stopped.
    Restart { stop: Vec<u64>, start: Vec<u64> },
    /// The restart budget is exhausted: stop the children of `stop` in that
    /// order and report `error` to the parent.
    Escalate { stop: Vec<u64>, error: SupervisorError },
}

/// The action to take after a termination, and the event it gave rise to.
#[derive(Debug, PartialEq, Eq)]
pub struct ExitResponse {
    pub action: ExitAction,
    pub event: Option<FailureEvent>,
}

/// A child with this restart type that terminated this way leaves the
/// registry and is not restarted.
pub open spec fn removed_on_exit(rt: RestartType, kind: Termination) -> bool {
    rt == RestartType::Temporary || (rt == RestartType::Transient && kind == Termination::Normal)
}

/// The children that are running, in start order, for a supervisor in
/// `status` that has started the first `started` of `ids`.
pub open spec fn running_of(status: SupervisorStatus, ids: Seq<u64>, started: int) -> Seq<u64> {
    match status {
        SupervisorStatus::Running => ids,
        SupervisorStatus::Starting => ids.subrange(0, started),
        _ => Seq::<u64>::empty(),
    }
}

/// The status of a supervisor in `status` once it has been stopped.
pub open spec fn status_after_stop(status: SupervisorStatus) -> SupervisorStatus {
    match status {
        SupervisorStatus::Running => SupervisorStatus::Stopped,
        SupervisorStatus::Starting => SupervisorStatus::Stopped,
        other => other,
    }
}

/// Stopping a stopped supervisor changes nothing and stops no child.
pub proof fn lemma_stop_idempotent(status: SupervisorStatus, ids: Seq<u64>, started: int)
    ensures
        status_after_stop(status_after_stop(status)) == status_after_stop(status),
        running_of(status_after_stop(status), ids, started) == Seq::<u64>::empty(),
        running_of(SupervisorStatus::Stopped, ids, started) == Seq::<u64>::empty(),
{
}

/// What happens when the child at position `i` of the running supervisor
/// `pre` terminates with `kind` at time `now`, leaving `post` and handing
/// back `r`. A child that is not to be restarted leaves the registry.
/// Otherwise each restart that the strategy calls for is evaluated against
/// the budget: if all are permitted they are handed back, else the other
/// children are to be stopped and the supervisor fails.
pub open spec fn exit_outcome(
    pre: Supervisor,
    i: int,
    kind: Termination,
    now: u64,
    post: Supervisor,
    r: ExitResponse,
) -> bool {
    let id = pre.ids()[i];
    let strategy = pre.config_spec().strategy_spec();
    if removed_on_exit(pre.children()[i].restart_type, kind) {
        &&& r.action == ExitAction::Remove
        &&& r.event is None
        &&& post.children() == pre.children().remove(i)
        &&& post.status_spec() == SupervisorStatus::Running
        &&& post.stamps() == pre.stamps()
    } else {
        let aff = affected_spec(strategy, i, pre.ids());
        let batch = evaluate_batch(pre.stamps(), pre.max_restarts_spec(), pre.period_spec(), now, aff.len());
        &&& post.children() == pre.children()
        &&& post.stamps() == batch.0
        &&& r.event == Some(FailureEvent { child_id: id, cause: kind, strategy, allowed: batch.1 })
        &&& batch.1 ==> {
            &&& post.status_spec() == SupervisorStatus::Running
            &&& r.action matches ExitAction::Restart { stop, start }
            &&& start@ == aff
            &&& stop@ == stops_spec(strategy, i, pre.ids())
        }
        &&& !batch.1 ==> {
            &&& post.status_spec() == SupervisorStatus::Failed
            &&& r.action matches ExitAction::Escalate { stop, error }
            &&& stop@ == reversed(pre.ids().remove(i))
            &&& error == SupervisorError::RestartDenied { spec_id: id, window: pre.period_spec() }
        }
    }
}

/// With a budget of zero restarts, any termination that calls for a
/// restart is denied and fails the supervisor at once.
pub proof fn lemma_zero_budget_fails_supervisor(
    pre: Supervisor,
    i: int,
    kind: Termination,
    now: u64,
    post: Supervisor,
    r: ExitResponse,
)
    requires
        pre.max_restarts_spec() == 0,
        0 <= i < pre.ids().len(),
        !removed_on_exit(pre.children()[i].restart_type, kind),
        exit_outcome(pre, i, kind, now, post, r),
    ensures
        post.status_spec() == SupervisorStatus::Failed,
        r.action is Escalate,
        r.event matches Some(e) && !e.allowed,
{
    let aff = affected_spec(pre.config_spec().strategy_spec(), i, pre.ids());
    assert(aff.len() >= 1);
    lemma_zero_budget_denies(pre.stamps(), pre.period_spec(), now, aff.len());
}

/// Once a restart has been denied the supervisor has failed, and every
/// later termination it is told of, at any time and of any child, is
/// ignored: no further restart is made.
pub proof fn lemma_denied_supervisor_restarts_no_more(
    pre: Supervisor,
    i: int,
    kind: Termination,
    now: u64,
    post: Supervisor,
    r: ExitResponse,
    later_id: u64,
)
    requires
        0 <= i < pre.ids().len(),
        !removed_on_exit(pre.children()[i].restart_type, kind),
        exit_outcome(pre, i, kind, now, post, r),
        r.event matches Some(e) && !e.allowed,
    ensures
        post.status_spec() == SupervisorStatus::Failed,
        !(post.status_spec() == SupervisorStatus::Running && post.ids().contains(later_id)),
        post.running() == Seq::<u64>::empty(),
{
}

/// A supervisor: a configuration, its children in start order, and the
/// restart times that count against its budget.
pub struct Supervisor {
    config: SupervisorConfig,
    registry: ChildRegistry,
    limiter: RestartLimiter,
    status: SupervisorStatus,
    started: usize,
    forced: Vec<u64>,
}

impl Supervisor {
    pub closed spec fn config_spec(&self) -> SupervisorConfig {
        self.config
    }

    /// The child specifications, in start order.
    pub closed spec fn children(&self) -> Seq<ChildSpec> {
        self.registry@
    }

    pub closed spec fn status_spec(&self) -> SupervisorStatus {
        self.status
    }

    /// During startup, the number of children started so far.
    pub closed spec fn started_spec(&self) -> int {
        self.started as int
    }

    /// The children that had to be killed because they did not stop within
    /// their shutdown timeout, in the order they were reported: warnings,
    /// not failures.
    pub closed spec fn forced_spec(&self) -> Seq<u64> {
        self.forced@
    }

    /// The restart times that count against the budget, oldest first.
    pub closed spec fn stamps(&self) -> Seq<u64> {
        self.limiter.stamps_spec()
    }

    /// The ids of the children, in start order.
    pub open spec fn ids(&self) -> Seq<u64> {
        ids_of(self.children())
    }

    pub open spec fn running(&self) -> Seq<u64> {
        running_of(self.status_spec(), self.ids(), self.started_spec())
    }

    pub open spec fn max_restarts_spec(&self) -> u64 {
        self.config_spec().freq_spec().0
    }

    pub open spec fn period_spec(&self) -> u64 {
        self.config_spec().freq_spec().1
    }

    pub closed spec fn wf(&self) -> bool {
        &&& self.config.wf()
        &&& self.registry.wf()
        &&& self.limiter.wf()
        &&& self.limiter.max_restarts_spec() == self.config.freq_spec().0
        &&& self.limiter.period_spec() == self.config.freq_spec().1
        &&& self.status == SupervisorStatus::Starting ==> self.started < self.registry@.len()
        &&& self.status == SupervisorStatus::Created ==> self.limiter.stamps_spec().len() == 0
    }

    /// The ids of the children are unique.
    pub proof fn lemma_ids_unique(&self)
        requires
            self.wf(),
        ensures
            self.ids().no_duplicates(),
    {
    }

    /// A supervisor not yet started, with no children.
    pub fn with_config(config: SupervisorConfig) -> (r: Supervisor)
        requires
            config.wf(),
        ensures
            r.wf(),
            r.config_spec() == config,
            r.status_spec() == SupervisorStatus::Created,
            r.children() == Seq::<ChildSpec>::empty(),
            r.stamps() == Seq::<u64>::empty(),
            r.forced_spec() == Seq::<u64>::empty(),
    {
        let freq = config.max_restart_freq();
        Supervisor {
            config,
            registry: ChildRegistry::new(),
            limiter: RestartLimiter::new(freq.0, freq.1),
            status: SupervisorStatus::Created,
            started: 0,
            forced: Vec::new(),
        }
    }

    /// A supervisor with the default configuration: `OneForOne`, with at
    /// most one restart a minute.
    pub fn new() -> (r: Supervisor)
        ensures
            r.wf(),
            r.config_spec().strategy_spec() == RestartStrategy::OneForOne,
            r.config_spec().freq_spec() == (1u64, 60u64),
            r.status_spec() == SupervisorStatus::Created,
            r.children() == Seq::<ChildSpec>::empty(),
            r.stamps() == Seq::<u64>::empty(),
    {
        let config: SupervisorConfig = SupervisorConfig::default();
        Supervisor::with_config(config)
    }

    /// The same supervisor under the restart strategy `rs`.
    pub fn restart_strategy(self, rs: RestartStrategy) -> (r: Supervisor)
        requires
            self.wf(),
            self.status_spec() == SupervisorStatus::Created,
        ensures
            r.wf(),
            r.config_spec().strategy_spec() == rs,
            r.config_spec().freq_spec() == self.config_spec().freq_spec(),
            r.status_spec() == SupervisorStatus::Created,
            r.children() == self.children(),
            r.stamps() == self.stamps(),
    {
        let config = self.config.with_strategy(rs);
        Supervisor { config, ..self }
    }

    /// The same supervisor with the restart budget `mrf`: at most `mrf.0`
    /// restarts within any window of `mrf.1` time units.
    pub fn max_restart_freq(self, mrf: (u64, u64)) -> (r: Supervisor)
        requires
            self.wf(),
            self.status_spec() == SupervisorStatus::Created,
            valid_freq(mrf),
        ensures
            r.wf(),
            r.config_spec().strategy_spec() == self.config_spec().strategy_spec(),
            r.config_spec().freq_spec() == mrf,
            r.status_spec() == SupervisorStatus::Created,
            r.children() == self.children(),
            r.stamps() == Seq::<u64>::empty(),
    {
        let config = self.config.with_freq(mrf);
        Supervisor { config, limiter: RestartLimiter::new(mrf.0, mrf.1), ..self }
    }

    pub fn config(&self) -> (r: SupervisorConfig)
        ensures
            r == self.config_spec(),
    {
        self.config
    }

    pub fn status(&self) -> (r: SupervisorStatus)
        ensures
            r == self.status_spec(),
    {
        self.status
    }

    /// The ids of the children, in start order.
    pub fn child_ids(&self) -> (r: Vec<u64>)
        ensures
            r@ == self.ids(),
    {
        self.registry.ids()
    }

    /// The specification of the child `id`, if it is registered.
    pub fn child_spec(&self, id: u64) -> (r: Option<ChildSpec>)
        ensures
            r is None <==> !self.ids().contains(id),
            r matches Some(c) ==> c.id == id && self.children().contains(c),
    {
        self.registry.lookup(id)
    }

    /// The status of the child at position `i` in start order.
    pub open spec fn child_status_spec(&self, i: int) -> ChildStatus {
        match self.status_spec() {
            SupervisorStatus::Running => ChildStatus::Running,
            SupervisorStatus::Starting => if i < self.started_spec() {
                ChildStatus::Running
            } else if i == self.started_spec() {
                ChildStatus::Starting
            } else {
                ChildStatus::Stopped
            },
            _ => ChildStatus::Stopped,
        }
    }

    /// The status of the child `id`, if it is registered.
    pub fn child_status(&self, id: u64) -> (r: Option<ChildStatus>)
        requires
            self.wf(),
        ensures
            r is None <==> !self.ids().contains(id),
            r matches Some(st) ==> exists|i: int|
                0 <= i < self.ids().len() && self.ids()[i] == id && st == self.child_status_spec(i),
    {
        match self.registry.position(id) {
            None => None,
            Some(i) => {
                let st = match self.status {
                    SupervisorStatus::Running => ChildStatus::Running,
                    SupervisorStatus::Starting => if i < self.started {
                        ChildStatus::Running
                    } else if i == self.started {
                        ChildStatus::Starting
                    } else {
                        ChildStatus::Stopped
                    },
                    _ => ChildStatus::Stopped,
                };
                proof {
                    assert(self.ids()[i as int] == id);
                    assert(st == self.child_status_spec(i as int));
                }
                Some(st)
            },
        }
    }

    /// Registers `spec` after the children already registered; refused with
    /// `DuplicateChildId` when its id is taken.
    pub fn add_child(&mut self, spec: ChildSpec) -> (r: Result<(), SupervisorError>)
        requires
            old(self).wf(),
            old(self).status_spec() == SupervisorStatus::Created,
        ensures
            final(self).wf(),
            final(self).config_spec() == old(self).config_spec(),
            final(self).status_spec() == SupervisorStatus::Created,
            final(self).stamps() == old(self).stamps(),
            r is Ok <==> !old(self).ids().contains(spec.id),
            r is Ok ==> final(self).children() == old(self).children().push(spec),
            r is Err ==> final(self).children() == old(self).children()
                && r == Err::<(), SupervisorError>(SupervisorError::DuplicateChildId { id: spec.id }),
    {
        self.registry.insert(spec)
    }

    /// A supervisor not yet started, with the configuration `config` and
    /// the children of `specs` in that order; refused with
    /// `DuplicateChildId` when two of them share an id.
    pub fn build(config: SupervisorConfig, specs: &Vec<ChildSpec>) -> (r: Result<Supervisor, SupervisorError>)
        requires
            config.wf(),
        ensures
            r is Ok <==> ids_of(specs@).no_duplicates(),
            r matches Ok(sup) ==> sup.wf() && sup.config_spec() == config
                && sup.status_spec() == SupervisorStatus::Created && sup.children() == specs@
                && sup.stamps().len() == 0,
            r matches Err(e) ==> exists|i: int, j: int|
                0 <= i < j < specs@.len() && specs@[i].id == specs@[j].id
                    && e == (SupervisorError::DuplicateChildId { id: specs@[j].id }),
    {
        let mut sup = Supervisor::with_config(config);
        let mut k: usize = 0;
        while k < specs.len()
            invariant
                k <= specs@.len(),
                sup.wf(),
                sup.config_spec() == config,
                sup.status_spec() == SupervisorStatus::Created,
                sup.stamps() == Seq::<u64>::empty(),
                sup.children() == specs@.subrange(0, k as int),
            decreases specs@.len() - k,
        {
            let spec = specs[k];
            match sup.add_child(spec) {
                Ok(()) => {},
                Err(e) => {
                    proof {
                        let j = choose|j: int| 0 <= j < sup.ids().len() && sup.ids()[j] == spec.id;
                        assert(specs@[j].id == sup.ids()[j]);
                        assert(!ids_of(specs@).no_duplicates()) by {
                            assert(ids_of(specs@)[j] == ids_of(specs@)[k as int]);
                        }
                    }
                    return Err(e);
                },
            }
            k = k + 1;
            proof {
                assert(sup.children() =~= specs@.subrange(0, k as int));
            }
        }
        proof {
            assert(specs@.subrange(0, specs@.len() as int) =~= specs@);
            sup.lemma_ids_unique();
        }
        Ok(sup)
    }

    /// Begins startup. Children start one at a time in registration order:
    /// the first one is handed back, or `Done` when there are none.
    pub fn start(&mut self) -> (r: StartStep)
        requires
            old(self).wf(),
            old(self).status_spec() == SupervisorStatus::Created,
        ensures
            final(self).wf(),
            final(self).config_spec() == old(self).config_spec(),
            final(self).children() == old(self).children(),
            final(self).stamps() == old(self).stamps(),
            old(self).ids().len() == 0 ==> r == StartStep::Done && final(self).status_spec()
                == SupervisorStatus::Running,
            old(self).ids().len() > 0 ==> r == StartStep::Next(old(self).ids()[0])
                && final(self).status_spec() == SupervisorStatus::Starting
                && final(self).started_spec() == 0,
    {
        if self.registry.len() == 0 {
            self.status = SupervisorStatus::Running;
            StartStep::Done
        } else {
            let ids = self.registry.ids();
            self.status = SupervisorStatus::Starting;
            self.started = 0;
            StartStep::Next(ids[0])
        }
    }

    /// Takes the outcome of starting the child last handed out. On success
    /// the next child is handed back, or `Done` after the last. On failure
    /// the children already started are to be stopped in reverse order, no
    /// later child starts, and the supervisor has failed with
    /// `StartupFailure` with the cause given.
    pub fn child_start_result(&mut self, result: Result<(), u64>) -> (r: StartStep)
        requires
            old(self).wf(),
            old(self).status_spec() == SupervisorStatus::Starting,
        ensures
            final(self).wf(),
            final(self).config_spec() == old(self).config_spec(),
            final(self).children() == old(self).children(),
            final(self).stamps() == old(self).stamps(),
            result is Ok && old(self).started_spec() + 1 < old(self).ids().len() ==> r == StartStep::Next(
                old(self).ids()[old(self).started_spec() + 1],
            ) && final(self).status_spec() == SupervisorStatus::Starting
                && final(self).started_spec() == old(self).started_spec() + 1,
            result is Ok && old(self).started_spec() + 1 == old(self).ids().len() ==> r == StartStep::Done
                && final(self).status_spec() == SupervisorStatus::Running,
            result is Err ==> final(self).status_spec() == SupervisorStatus::Failed,
            result matches Err(cause) ==> (r matches StartStep::Abort { stop, error } && stop@ == reversed(
                old(self).ids().subrange(0, old(self).started_spec()),
            ) && error == (SupervisorError::StartupFailure {
                spec_id: old(self).ids()[old(self).started_spec()],
                cause,
            })),
    {
        let ids = self.registry.ids();
        let k = self.started;
        match result {
            Ok(()) => {
                if k < ids.len() - 1 {
                    self.started = k + 1;
                    StartStep::Next(ids[k + 1])
                } else {
                    self.status = SupervisorStatus::Running;
                    StartStep::Done
                }
            },
            Err(cause) => {
                let mut done: Vec<u64> = Vec::new();
                let mut j: usize = 0;
                while j < k
                    invariant
                        j <= k,
                        k < ids@.len(),
                        done@ == ids@.subrange(0, j as int),
                    decreases k - j,
                {
                    done.push(ids[j]);
                    j = j + 1;
                    proof {
                        assert(done@ =~= ids@.subrange(0, j as int));
                    }
                }
                let stop = reverse(&done);
                self.status = SupervisorStatus::Failed;
                StartStep::Abort { stop, error: SupervisorError::StartupFailure { spec_id: ids[k], cause } }
            },
        }
    }

    /// Stops the supervisor: the running children are handed back in
    /// reverse start order, to be stopped in that order. On a supervisor
    /// that is not running or starting this changes nothing and hands back
    /// no child. A child that does not stop within its shutdown timeout is
    /// killed, and reported through `record_forced_termination`.
    pub fn stop(&mut self) -> (r: Vec<u64>)
        requires
            old(self).wf(),
        ensures
            final(self).wf(),
            final(self).forced_spec() == old(self).forced_spec(),
            final(self).config_spec() == old(self).config_spec(),
            final(self).children() == old(self).children(),
            final(self).stamps() == old(self).stamps(),
            final(self).status_spec() == status_after_stop(old(self).status_spec()),
            r@ == reversed(old(self).running()),
            final(self).running() == Seq::<u64>::empty(),
    {
        let ids = self.registry.ids();
        let running = match self.status {
            SupervisorStatus::Running => ids,
            SupervisorStatus::Starting => {
                let mut done: Vec<u64> = Vec::new();
                let mut j: usize = 0;
                while j < self.started
                    invariant
                        j <= self.started,
                        self.started < ids@.len(),
                        done@ == ids@.subrange(0, j as int),
                    decreases self.started - j,
                {
                    done.push(ids[j]);
                    j = j + 1;
                    proof {
                        assert(done@ =~= ids@.subrange(0, j as int));
                    }
                }
                done
            },
            _ => Vec::new(),
        };
        proof {
            assert(running@ =~= self.running());
        }
        let r = reverse(&running);
        match self.status {
            SupervisorStatus::Running | SupervisorStatus::Starting => {
                self.status = SupervisorStatus::Stopped;
            },
            _ => {},
        }
        r
    }

    /// Takes the termination of the child `id`, of the given kind, at time
    /// `now`, and decides what follows (see `exit_outcome`). A supervisor
    /// that is not running, or a child it does not hold, is ignored.
    pub fn on_child_exit(&mut self, id: u64, kind: Termination, now: u64) -> (r: ExitResponse)
        requires
            old(self).wf(),
        ensures
            final(self).wf(),
            final(self).config_spec() == old(self).config_spec(),
            !(old(self).status_spec() == SupervisorStatus::Running && old(self).ids().contains(id)) ==> {
                &&& r.action == ExitAction::Ignore
                &&& r.event is None
                &&& final(self).children() == old(self).children()
                &&& final(self).status_spec() == old(self).status_spec()
                &&& final(self).stamps() == old(self).stamps()
            },
            old(self).status_spec() == SupervisorStatus::Running && old(self).ids().contains(id) ==> exists|i: int|
                0 <= i < old(self).ids().len() && old(self).ids()[i] == id
                    && exit_outcome(*old(self), i, kind, now, *final(self), r),
    {
        let ignore = ExitResponse { action: ExitAction::Ignore, event: None };
        if self.status != SupervisorStatus::Running {
            return ignore;
        }
        let i = match self.registry.position(id) {
            None => {
                return ignore;
            },
            Some(i) => i,
        };
        let ghost pre = *self;
        proof {
            assert(pre.ids()[i as int] == id);
        }
        let child = self.registry.get(i);
        let removed = match child.restart_type {
            RestartType::Temporary => true,
            RestartType::Transient => kind == Termination::Normal,
            RestartType::Permanent => false,
        };
        if removed {
            self.registry.remove_at(i);
            return ExitResponse { action: ExitAction::Remove, event: None };
        }
        let ids = self.registry.ids();
        let strategy = self.config.restart_strategy();
        let aff = affected_at(strategy, i, &ids);
        let allowed = self.limiter.record_batch(now, aff.len());
        let event = FailureEvent { child_id: id, cause: kind, strategy, allowed };
        if allowed {
            let mut others = affected_at(strategy, i, &ids);
            let slot: usize = match strategy {
                RestartStrategy::OneForAll => i,
                _ => 0,
            };
            others.remove(slot);
            let stop = reverse(&others);
            ExitResponse { action: ExitAction::Restart { stop, start: aff }, event: Some(event) }
        } else {
            let mut others = ids;
            others.remove(i);
            let stop = reverse(&others);
            self.status = SupervisorStatus::Failed;
            let window = self.config.max_restart_freq().1;
            ExitResponse {
                action: ExitAction::Escalate {
                    stop,
                    error: SupervisorError::RestartDenied { spec_id: id, window },
                },
                event: Some(event),
            }
        }
    }

    /// Records that the child `id` did not stop within its shutdown timeout
    /// and had to be killed: a warning, which changes nothing else. Returns
    /// whether `id` is a child of this supervisor; other ids are not
    /// recorded.
    pub fn record_forced_termination(&mut self, id: u64) -> (r: bool)
        requires
            old(self).wf(),
        ensures
            final(self).wf(),
            final(self).config_spec() == old(self).config_spec(),
            final(self).children() == old(self).children(),
            final(self).status_spec() == old(self).status_spec(),
            final(self).started_spec() == old(self).started_spec(),
            final(self).stamps() == old(self).stamps(),
            r == old(self).ids().contains(id),
            r ==> final(self).forced_spec() == old(self).forced_spec().push(id),
            !r ==> final(self).forced_spec() == old(self).forced_spec(),
    {
        match self.registry.position(id) {
            None => false,
            Some(_) => {
                self.forced.push(id);
                true
            },
        }
    }

    /// The children recorded as killed after their shutdown timeout, in the
    /// order they were reported.
    pub fn forced_terminations(&self) -> (r: &Vec<u64>)
        ensures
            r@ == self.forced_spec(),
    {
        &self.forced
    }
}

} // verus!
