//! The risk manager: thresholds, book, aggregate and active regime.
use vstd::prelude::*;
use crate::aggregate::lemma_sum_empty;
use crate::book::PositionBook;
use crate::command::TradingEngineCommand;
use crate::effect::Effect;
use crate::model::RiskModel;
use crate::state::RiskState;

verus! {

/// Why a pair of thresholds is refused.
#[derive(Clone, Copy, Debug, PartialEq, Eq, Structural)]
pub enum ConfigError {
    /// The limit is zero or negative.
    NonPositiveLimit,
    /// The warning level is zero or negative.
    NonPositiveWarning,
    /// The warning level is not below the limit.
    WarningNotBelowLimit,
}

/// The fault in a pair of thresholds, if there is one. The limit is judged
/// first, then the warning level, then their order.
pub open spec fn config_fault(var_limit: int, warning_level: int) -> Option<ConfigError> {
    if var_limit <= 0 {
        Some(ConfigError::NonPositiveLimit)
    } else if warning_level <= 0 {
        Some(ConfigError::NonPositiveWarning)
    } else if warning_level >= var_limit {
        Some(ConfigError::WarningNotBelowLimit)
    } else {
        None
    }
}

/// Watches the aggregate Value-at-Risk of a book of positions and keeps the
/// risk regime that follows from it.
///
/// Amounts are whole numbers of the smallest unit in which risk is booked.
#[derive(Debug)]
pub struct RiskManager {
    state: RiskState,
    var_limit: i64,
    warning_level: i64,
    current_var: i128,
    positions: PositionBook,
}

impl View for RiskManager {
    type V = RiskModel;

    closed spec fn view(&self) -> RiskModel {
        RiskModel {
            state: self.state,
            var_limit: self.var_limit as int,
            warning_level: self.warning_level as int,
            current_var: self.current_var as int,
            positions: self.positions@,
        }
    }
}

impl RiskManager {
    /// A manager with the given thresholds, an empty book and no risk, in the
    /// regime `Normal`. Thresholds that are not positive, or a warning level
    /// that is not below the limit, are refused.
    pub fn new(var_limit: i64, warning_level: i64) -> (made: Result<RiskManager, ConfigError>)
        ensures
            match config_fault(var_limit as int, warning_level as int) {
                Some(fault) => made == Err::<RiskManager, ConfigError>(fault),
                None => made is Ok && made->Ok_0@ == RiskModel::initial(
                    var_limit as int,
                    warning_level as int,
                ) && made->Ok_0@.wf(),
            },
    {
        if var_limit <= 0 {
            Err(ConfigError::NonPositiveLimit)
        } else if warning_level <= 0 {
            Err(ConfigError::NonPositiveWarning)
        } else if warning_level >= var_limit {
            Err(ConfigError::WarningNotBelowLimit)
        } else {
            let manager = RiskManager {
                state: RiskState::Normal,
                var_limit,
                warning_level,
                current_var: 0,
                positions: PositionBook::new(),
            };
            proof {
                lemma_sum_empty::<Seq<char>>();
                manager.positions.lemma_finite();
            }
            Ok(manager)
        }
    }

    /// The active regime.
    pub fn state(&self) -> (state: RiskState)
        ensures
            state == self@.state,
    {
        self.state
    }

    /// The limit on the aggregate.
    pub fn var_limit(&self) -> (limit: i64)
        ensures
            limit == self@.var_limit,
    {
        self.var_limit
    }

    /// The level from which the aggregate calls for a warning.
    pub fn warning_level(&self) -> (level: i64)
        ensures
            level == self@.warning_level,
    {
        self.warning_level
    }

    /// The aggregate as last computed.
    pub fn current_var(&self) -> (var: i128)
        ensures
            var == self@.current_var,
    {
        self.current_var
    }

    /// The book.
    pub fn positions(&self) -> (book: &PositionBook)
        ensures
            book@ == self@.positions,
    {
        &self.positions
    }

    /// Computes the aggregate anew as the sum of all contributions in the
    /// book.
    pub fn update_var(&mut self)
        ensures
            final(self)@ == old(self)@.recomputed(),
            final(self)@.var_is_sum(),
            old(self)@.wf() ==> final(self)@.wf(),
    {
        proof {
            self.positions.lemma_finite();
        }
        self.current_var = self.positions.total();
    }

    /// Books `var_contribution` under `position_id`, overwriting what was
    /// booked under it before. The aggregate is computed anew, the active
    /// regime's rules are evaluated once, and the directive of the regime that
    /// is then active is sent.
    pub fn add_position(&mut self, position_id: &str, var_contribution: i64) -> (effects: Vec<
        Effect,
    >)
        ensures
            final(self)@ == old(self)@.added(position_id@, var_contribution as int),
            effects@ == old(self)@.add_effects(position_id@, var_contribution as int),
            final(self)@.var_is_sum(),
            old(self)@.wf() ==> final(self)@.wf(),
    {
        self.positions.insert(position_id, var_contribution);
        self.update_var();
        let mut effects = self.check_state();
        effects.push(Effect::Send(self.send_command()));
        effects
    }

    /// Takes `position_id` out of the book; nothing is wrong if it is not
    /// there. The aggregate is computed anew, the active regime's rules are
    /// evaluated once, and the directive of the regime that is then active is
    /// sent.
    pub fn remove_position(&mut self, position_id: &str) -> (effects: Vec<Effect>)
        ensures
            final(self)@ == old(self)@.removed(position_id@),
            effects@ == old(self)@.remove_effects(position_id@),
            final(self)@.var_is_sum(),
            old(self)@.wf() ==> final(self)@.wf(),
    {
        self.positions.remove(position_id);
        self.update_var();
        let mut effects = self.check_state();
        effects.push(Effect::Send(self.send_command()));
        effects
    }

    /// The directive of the active regime, to be put on the command channel.
    pub fn send_command(&self) -> (cmd: TradingEngineCommand)
        ensures
            cmd == self@.directive(),
    {
        self.state.send_command()
    }

    /// Evaluates the active regime's rules once. If they name another regime,
    /// the manager changes to it; the effects of the change are returned.
    pub fn check_state(&mut self) -> (effects: Vec<Effect>)
        ensures
            final(self)@ == old(self)@.checked(),
            effects@ == old(self)@.check_effects(),
            old(self)@.wf() ==> final(self)@.wf(),
    {
        let state = self.state;
        match state.check_var(&*self) {
            Some(next) => self.change_state(next),
            None => Vec::new(),
        }
    }

    /// Replaces the active regime by `new_state`. The exit hook of the old
    /// regime fires before the replacement, the entry hook of the new one
    /// after it.
    pub fn change_state(&mut self, new_state: RiskState) -> (effects: Vec<Effect>)
        ensures
            final(self)@ == old(self)@.in_state(new_state),
            effects@ == old(self)@.change_effects(new_state),
            old(self)@.wf() ==> final(self)@.wf(),
    {
        let mut effects: Vec<Effect> = Vec::new();
        effects.push(self.state.exit_state());
        self.state = new_state;
        let mut entered = self.state.enter_state();
        effects.append(&mut entered);
        effects
    }

    /// Whether the aggregate has reached six fifths of the limit.
    pub fn should_shutdown(&self) -> (shutdown: bool)
        ensures
            shutdown == self@.should_shutdown(),
    {
        // An aggregate of size 2^66 or more outweighs six times any limit;
        // below that size, five times the aggregate fits.
        let mark: i128 = 6 * (self.var_limit as i128);
        if self.current_var >= 0x4_0000_0000_0000_0000 {
            true
        } else if self.current_var <= -0x4_0000_0000_0000_0000 {
            false
        } else {
            5 * self.current_var >= mark
        }
    }
}

} // verus!
