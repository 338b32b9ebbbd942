//! The four risk regimes and the rules by which one follows another.
use vstd::prelude::*;
use crate::command::TradingEngineCommand;
use crate::effect::{Alert, Effect};
use crate::manager::RiskManager;

verus! {

/// A risk regime. Exactly one is active in a manager at any time.
#[derive(Clone, Copy, Debug, PartialEq, Eq, Structural)]
pub enum RiskState {
    /// The aggregate is below the warning level.
    Normal,
    /// The aggregate is at or above the warning level and below the limit.
    Warning,
    /// The aggregate is at or above the limit.
    Breach,
    /// The engine has been told to stop. No regime follows this one.
    Shutdown,
}

/// Whether an aggregate of `var` is at least six fifths of `limit`, the mark
/// at which a breach turns into a shutdown.
pub open spec fn at_shutdown_mark(var: int, limit: int) -> bool {
    5 * var >= 6 * limit
}

/// The regime that follows `state` when the aggregate is `var`, or `None` if
/// `state` stays. Only the rules of `state` itself are consulted, so a single
/// evaluation moves by one regime at most: from `Normal` or `Warning` an
/// aggregate beyond the shutdown mark leads to `Breach`, not to `Shutdown`.
pub open spec fn transition(state: RiskState, var: int, warning: int, limit: int) -> Option<
    RiskState,
> {
    match state {
        RiskState::Normal => if warning <= var < limit {
            Some(RiskState::Warning)
        } else if var >= limit {
            Some(RiskState::Breach)
        } else {
            None
        },
        RiskState::Warning => if var < warning {
            Some(RiskState::Normal)
        } else if var >= limit {
            Some(RiskState::Breach)
        } else {
            None
        },
        RiskState::Breach => if warning <= var < limit {
            Some(RiskState::Warning)
        } else if var < warning {
            Some(RiskState::Normal)
        } else if at_shutdown_mark(var, limit) {
            Some(RiskState::Shutdown)
        } else {
            None
        },
        RiskState::Shutdown => None,
    }
}

/// The regime that is active after `state` has been evaluated at `var`.
pub open spec fn next_state(state: RiskState, var: int, warning: int, limit: int) -> RiskState {
    match transition(state, var, warning, limit) {
        Some(next) => next,
        None => state,
    }
}

impl RiskState {
    /// The directive that this regime sends while it is active.
    pub open spec fn directive(self) -> TradingEngineCommand {
        match self {
            RiskState::Normal => TradingEngineCommand::ExecuteTrade,
            RiskState::Warning => TradingEngineCommand::ExecuteTrade,
            RiskState::Breach => TradingEngineCommand::NoTrade,
            RiskState::Shutdown => TradingEngineCommand::StopEngine,
        }
    }

    /// What entering this regime calls for: the entry hook, then the regime's
    /// notification if it has one. Entering `Shutdown` also sends the stop
    /// directive at once.
    pub open spec fn entry_effects(self) -> Seq<Effect> {
        match self {
            RiskState::Normal => seq![Effect::Enter(RiskState::Normal)],
            RiskState::Warning => seq![
                Effect::Enter(RiskState::Warning),
                Effect::Notify(Alert::WarningLevel),
            ],
            RiskState::Breach => seq![
                Effect::Enter(RiskState::Breach),
                Effect::Notify(Alert::LimitBreach),
            ],
            RiskState::Shutdown => seq![
                Effect::Enter(RiskState::Shutdown),
                Effect::Notify(Alert::Shutdown),
                Effect::Send(TradingEngineCommand::StopEngine),
            ],
        }
    }

    /// Evaluates this regime's rules against the aggregate and the thresholds
    /// of `context`, and returns the regime to move to, if any.
    pub fn check_var(&self, context: &RiskManager) -> (next: Option<RiskState>)
        ensures
            next == transition(
                *self,
                context@.current_var,
                context@.warning_level,
                context@.var_limit,
            ),
    {
        let var: i128 = context.current_var();
        let warning: i128 = context.warning_level() as i128;
        let limit: i128 = context.var_limit() as i128;
        match self {
            RiskState::Normal => {
                if var >= warning && var < limit {
                    Some(RiskState::Warning)
                } else if var >= limit {
                    Some(RiskState::Breach)
                } else {
                    None
                }
            },
            RiskState::Warning => {
                if var < warning {
                    Some(RiskState::Normal)
                } else if var >= limit {
                    Some(RiskState::Breach)
                } else {
                    None
                }
            },
            RiskState::Breach => {
                if var < limit && var >= warning {
                    Some(RiskState::Warning)
                } else if var < warning {
                    Some(RiskState::Normal)
                } else if context.should_shutdown() {
                    Some(RiskState::Shutdown)
                } else {
                    None
                }
            },
            RiskState::Shutdown => None,
        }
    }

    /// Fires the entry hook of this regime.
    pub fn enter_state(&self) -> (effects: Vec<Effect>)
        ensures
            effects@ == self.entry_effects(),
    {
        let mut effects: Vec<Effect> = Vec::new();
        effects.push(Effect::Enter(*self));
        match self {
            RiskState::Normal => {},
            RiskState::Warning => {
                effects.push(Effect::Notify(Alert::WarningLevel));
            },
            RiskState::Breach => {
                effects.push(Effect::Notify(Alert::LimitBreach));
            },
            RiskState::Shutdown => {
                effects.push(Effect::Notify(Alert::Shutdown));
                effects.push(Effect::Send(self.send_command()));
            },
        }
        effects
    }

    /// Fires the exit hook of this regime.
    pub fn exit_state(&self) -> (effect: Effect)
        ensures
            effect == Effect::Exit(*self),
    {
        Effect::Exit(*self)
    }

    /// The directive that this regime sends.
    pub fn send_command(&self) -> (cmd: TradingEngineCommand)
        ensures
            cmd == self.directive(),
    {
        match self {
            RiskState::Normal => TradingEngineCommand::ExecuteTrade,
            RiskState::Warning => TradingEngineCommand::ExecuteTrade,
            RiskState::Breach => TradingEngineCommand::NoTrade,
            RiskState::Shutdown => TradingEngineCommand::StopEngine,
        }
    }
}

} // verus!
