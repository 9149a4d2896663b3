//! Supervisor configuration and the errors of the library.
use vstd::prelude::*;
use crate::strategy::RestartStrategy;

verus! {

/// What can go wrong when a supervisor is built, started or run.
#[derive(Clone, Copy, Debug, PartialEq, Eq, Structural)]
pub enum SupervisorError {
    /// A restart budget of some restarts over a window of length zero.
    InvalidConfig,
    /// Two children share an id.
    DuplicateChildId { id: u64 },
    /// A child failed to start, for the reason the caller gave as `cause`;
    /// the children started before it were stopped.
    StartupFailure { spec_id: u64, cause: u64 },
    /// The restart budget is exhausted; the supervisor has failed.
    RestartDenied { spec_id: u64, window: u64 },
}

/// A restart budget `(max_restarts, period)` is valid unless it allows some
/// restarts within a window of length zero.
pub open spec fn valid_freq(mrf: (u64, u64)) -> bool {
    mrf.0 == 0 || mrf.1 > 0
}

/// How a supervisor restarts its children, and how often it may.
#[derive(Clone, Copy, Debug, PartialEq, Eq)]
pub struct SupervisorConfig {
    restart_strategy: RestartStrategy,
    max_restart_freq: (u64, u64),
}

impl SupervisorConfig {
    pub closed spec fn strategy_spec(&self) -> RestartStrategy {
        self.restart_strategy
    }

    pub closed spec fn freq_spec(&self) -> (u64, u64) {
        self.max_restart_freq
    }

    /// A configuration validated at construction.
    pub open spec fn wf(&self) -> bool {
        valid_freq(self.freq_spec())
    }

    /// A configuration with the given strategy and restart budget; refused
    /// with `InvalidConfig` when the budget allows restarts within a window
    /// of length zero.
    pub fn new(restart_strategy: RestartStrategy, max_restart_freq: (u64, u64)) -> (r: Result<
        SupervisorConfig,
        SupervisorError,
    >)
        ensures
            r is Ok <==> valid_freq(max_restart_freq),
            r matches Ok(c) ==> c.wf() && c.strategy_spec() == restart_strategy && c.freq_spec()
                == max_restart_freq,
            r matches Err(e) ==> e == SupervisorError::InvalidConfig,
    {
        if max_restart_freq.0 > 0 && max_restart_freq.1 == 0 {
            Err(SupervisorError::InvalidConfig)
        } else {
            Ok(SupervisorConfig { restart_strategy, max_restart_freq })
        }
    }

    pub fn restart_strategy(&self) -> (r: RestartStrategy)
        ensures
            r == self.strategy_spec(),
    {
        self.restart_strategy
    }

    pub fn max_restart_freq(&self) -> (r: (u64, u64))
        ensures
            r == self.freq_spec(),
    {
        self.max_restart_freq
    }

    /// The same configuration under another strategy.
    pub fn with_strategy(self, restart_strategy: RestartStrategy) -> (r: SupervisorConfig)
        ensures
            r.strategy_spec() == restart_strategy,
            r.freq_spec() == self.freq_spec(),
    {
        SupervisorConfig { restart_strategy, ..self }
    }

    /// The same configuration with another restart budget.
    pub fn with_freq(self, max_restart_freq: (u64, u64)) -> (r: SupervisorConfig)
        requires
            valid_freq(max_restart_freq),
        ensures
            r.wf(),
            r.strategy_spec() == self.strategy_spec(),
            r.freq_spec() == max_restart_freq,
    {
        SupervisorConfig { max_restart_freq, ..self }
    }
}

impl Default for SupervisorConfig {
    /// `OneForOne`, with at most one restart a minute.
    fn default() -> (r: SupervisorConfig)
        ensures
            r.wf(),
            r.strategy_spec() == RestartStrategy::OneForOne,
            r.freq_spec() == (1u64, 60u64),
    {
        SupervisorConfig { restart_strategy: RestartStrategy::OneForOne, max_restart_freq: (1, 60) }
    }
}

} // verus!
