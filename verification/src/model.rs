//! The mathematical model of a risk manager.
//!
//! The contracts of [`crate::manager::RiskManager`] say what each call does to
//! this model and which effects it returns.
use vstd::prelude::*;
use crate::aggregate::sum_of;
use crate::command::TradingEngineCommand;
use crate::effect::Effect;
use crate::state::{at_shutdown_mark, next_state, transition, RiskState};

verus! {

/// A risk manager as a mathematical value.
pub struct RiskModel {
    /// The active regime.
    pub state: RiskState,
    /// The limit on the aggregate.
    pub var_limit: int,
    /// The level from which the aggregate calls for a warning.
    pub warning_level: int,
    /// The aggregate as last computed.
    pub current_var: int,
    /// The book: contribution by position identifier.
    pub positions: Map<Seq<char>, int>,
}

impl RiskModel {
    /// The manager as it is created: no position, no risk, regime `Normal`.
    pub open spec fn initial(var_limit: int, warning_level: int) -> RiskModel {
        RiskModel {
            state: RiskState::Normal,
            var_limit,
            warning_level,
            current_var: 0,
            positions: Map::empty(),
        }
    }

    /// The thresholds are positive and the warning level lies below the limit.
    pub open spec fn thresholds_valid(self) -> bool {
        0 < self.warning_level < self.var_limit
    }

    /// The aggregate is the sum of the contributions in the book.
    pub open spec fn var_is_sum(self) -> bool {
        &&& self.positions.dom().finite()
        &&& self.current_var == sum_of(self.positions)
    }

    /// Validity: `new` makes a valid manager, and every call on a valid
    /// manager leaves it valid.
    pub open spec fn wf(self) -> bool {
        &&& self.thresholds_valid()
        &&& self.var_is_sum()
    }

    /// Whether the aggregate has reached the shutdown mark.
    pub open spec fn should_shutdown(self) -> bool {
        at_shutdown_mark(self.current_var, self.var_limit)
    }

    /// The same manager with `positions` as its book.
    pub open spec fn with_positions(self, positions: Map<Seq<char>, int>) -> RiskModel {
        RiskModel { positions, ..self }
    }

    /// The same manager with the aggregate computed anew from the book.
    pub open spec fn recomputed(self) -> RiskModel {
        RiskModel { current_var: sum_of(self.positions), ..self }
    }

    /// The same manager in the regime `state`.
    pub open spec fn in_state(self, state: RiskState) -> RiskModel {
        RiskModel { state, ..self }
    }

    /// The regime that the active one moves to at the present aggregate, if
    /// any.
    pub open spec fn transition(self) -> Option<RiskState> {
        transition(self.state, self.current_var, self.warning_level, self.var_limit)
    }

    /// The manager after one evaluation of the active regime's rules.
    pub open spec fn checked(self) -> RiskModel {
        self.in_state(next_state(self.state, self.current_var, self.warning_level, self.var_limit))
    }

    /// What a change to the regime `state` calls for: the exit hook of the
    /// active regime, then what entering `state` calls for.
    pub open spec fn change_effects(self, state: RiskState) -> Seq<Effect> {
        seq![Effect::Exit(self.state)] + state.entry_effects()
    }

    /// What one evaluation of the active regime's rules calls for: nothing if
    /// the regime stays, else the effects of the change.
    pub open spec fn check_effects(self) -> Seq<Effect> {
        match self.transition() {
            Some(next) => self.change_effects(next),
            None => Seq::empty(),
        }
    }

    /// The directive of the active regime.
    pub open spec fn directive(self) -> TradingEngineCommand {
        self.state.directive()
    }

    /// The manager after the book has become `positions`: the aggregate is
    /// computed anew, then the active regime's rules are evaluated once.
    pub open spec fn rebooked(self, positions: Map<Seq<char>, int>) -> RiskModel {
        self.with_positions(positions).recomputed().checked()
    }

    /// What the change of the book to `positions` calls for: the effects of
    /// the evaluation, then the directive of the regime that is active after
    /// it.
    pub open spec fn rebook_effects(self, positions: Map<Seq<char>, int>) -> Seq<Effect> {
        self.with_positions(positions).recomputed().check_effects().push(
            Effect::Send(self.rebooked(positions).directive()),
        )
    }

    /// The manager after `contribution` has been booked under `id`.
    pub open spec fn added(self, id: Seq<char>, contribution: int) -> RiskModel {
        self.rebooked(self.positions.insert(id, contribution))
    }

    /// What booking `contribution` under `id` calls for.
    pub open spec fn add_effects(self, id: Seq<char>, contribution: int) -> Seq<Effect> {
        self.rebook_effects(self.positions.insert(id, contribution))
    }

    /// The manager after `id` has been taken out of the book.
    pub open spec fn removed(self, id: Seq<char>) -> RiskModel {
        self.rebooked(self.positions.remove(id))
    }

    /// What taking `id` out of the book calls for.
    pub open spec fn remove_effects(self, id: Seq<char>) -> Seq<Effect> {
        self.rebook_effects(self.positions.remove(id))
    }
}

} // verus!
