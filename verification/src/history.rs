//! What holds of a manager over whole runs of updates to its book.
//!
//! An update books a contribution or takes a position out. The statements
//! here are about the model of the manager, which the contracts of
//! [`crate::manager::RiskManager`] tie to the code.
use vstd::prelude::*;
use crate::aggregate::{lemma_sum_empty, lemma_sum_insert, lemma_sum_remove, share};
use crate::command::TradingEngineCommand;
use crate::effect::{alerts, directives, occurrences, Alert, Effect};
use crate::model::RiskModel;
use crate::state::{at_shutdown_mark, next_state, RiskState};

verus! {

/// One update to the book of a manager.
pub enum Update {
    /// `contribution` is booked under `id`.
    Add { id: Seq<char>, contribution: int },
    /// `id` is taken out of the book.
    Remove { id: Seq<char> },
}

impl Update {
    /// The book after this update to `positions`.
    pub open spec fn rebook(self, positions: Map<Seq<char>, int>) -> Map<Seq<char>, int> {
        match self {
            Update::Add { id, contribution } => positions.insert(id, contribution),
            Update::Remove { id } => positions.remove(id),
        }
    }

    /// By how much this update moves the sum of `positions`.
    pub open spec fn delta(self, positions: Map<Seq<char>, int>) -> int {
        match self {
            Update::Add { id, contribution } => contribution - share(positions, id),
            Update::Remove { id } => -share(positions, id),
        }
    }
}

impl RiskModel {
    /// The manager after `update`.
    pub open spec fn applied(self, update: Update) -> RiskModel {
        match update {
            Update::Add { id, contribution } => self.added(id, contribution),
            Update::Remove { id } => self.removed(id),
        }
    }

    /// What `update` calls for.
    pub open spec fn effects_of(self, update: Update) -> Seq<Effect> {
        match update {
            Update::Add { id, contribution } => self.add_effects(id, contribution),
            Update::Remove { id } => self.remove_effects(id),
        }
    }

    /// The manager after all of `updates`, the first of them first.
    pub open spec fn replayed(self, updates: Seq<Update>) -> RiskModel
        decreases updates.len(),
    {
        if updates.len() == 0 {
            self
        } else {
            self.replayed(updates.drop_last()).applied(updates.last())
        }
    }

    /// Everything that the run `updates` calls for, in order.
    pub open spec fn run_effects(self, updates: Seq<Update>) -> Seq<Effect>
        decreases updates.len(),
    {
        if updates.len() == 0 {
            Seq::empty()
        } else {
            self.run_effects(updates.drop_last()) + self.replayed(updates.drop_last()).effects_of(
                updates.last(),
            )
        }
    }

    /// The active regime fits the aggregate: `Normal` below the warning level,
    /// `Warning` from there to below the limit, `Breach` from the limit on.
    /// Of `Shutdown` nothing is asked.
    pub open spec fn regime_in_band(self) -> bool {
        match self.state {
            RiskState::Normal => self.current_var < self.warning_level,
            RiskState::Warning => self.warning_level <= self.current_var < self.var_limit,
            RiskState::Breach => self.var_limit <= self.current_var,
            RiskState::Shutdown => true,
        }
    }

    /// Whether `update` takes the manager into `Shutdown` from another
    /// regime.
    pub open spec fn enters_shutdown(self, update: Update) -> bool {
        self.state != RiskState::Shutdown && self.applied(update).state == RiskState::Shutdown
    }
}

/// An update changes the book as it says and nothing but the book, the
/// aggregate and the regime.
pub proof fn lemma_update_frame(m: RiskModel, update: Update)
    ensures
        m.applied(update).positions == update.rebook(m.positions),
        m.applied(update).var_limit == m.var_limit,
        m.applied(update).warning_level == m.warning_level,
{
}

/// After every update the aggregate is the exact sum of the contributions that
/// are then in the book, whatever it was before.
pub proof fn lemma_update_recomputes(m: RiskModel, update: Update)
    requires
        m.positions.dom().finite(),
    ensures
        m.applied(update).var_is_sum(),
{
}

/// An update moves a correct aggregate by the difference between what the
/// position contributes after it and what it contributed before.
pub proof fn lemma_update_moves_var(m: RiskModel, update: Update)
    requires
        m.var_is_sum(),
    ensures
        m.applied(update).current_var == m.current_var + update.delta(m.positions),
{
    match update {
        Update::Add { id, contribution } => {
            lemma_sum_insert(m.positions, id, contribution);
        },
        Update::Remove { id } => {
            lemma_sum_remove(m.positions, id);
        },
    }
}

/// A valid manager stays valid over any run of updates: the thresholds stay
/// as they are, and the aggregate is the sum of the book at every point.
pub proof fn lemma_replay_keeps_valid(m: RiskModel, updates: Seq<Update>)
    requires
        m.wf(),
    ensures
        m.replayed(updates).wf(),
        m.replayed(updates).var_limit == m.var_limit,
        m.replayed(updates).warning_level == m.warning_level,
    decreases updates.len(),
{
    if updates.len() > 0 {
        lemma_replay_keeps_valid(m, updates.drop_last());
        lemma_update_recomputes(m.replayed(updates.drop_last()), updates.last());
    }
}

/// The regime after an update is the one that the rules of the regime before
/// it name for the new aggregate: one evaluation, one step at most.
pub proof fn lemma_update_takes_one_step(m: RiskModel, update: Update)
    ensures
        m.applied(update).state == next_state(
            m.state,
            m.applied(update).current_var,
            m.warning_level,
            m.var_limit,
        ),
{
}

/// No update leads from `Normal` or `Warning` straight to `Shutdown`, however
/// far the aggregate has moved.
pub proof fn lemma_shutdown_only_from_breach(m: RiskModel, update: Update)
    requires
        m.enters_shutdown(update),
    ensures
        m.state == RiskState::Breach,
        at_shutdown_mark(m.applied(update).current_var, m.var_limit),
{
}

/// With valid thresholds, the regime after an update fits the new aggregate.
/// A regime of `Breach` may stand although the aggregate is at the shutdown
/// mark: that step is taken by the next evaluation.
pub proof fn lemma_update_settles_band(m: RiskModel, update: Update)
    requires
        m.thresholds_valid(),
    ensures
        m.applied(update).regime_in_band(),
{
}

/// From its creation on, over any run of updates, the regime of a manager fits
/// its aggregate.
pub proof fn lemma_replay_settles_band(var_limit: int, warning_level: int, updates: Seq<Update>)
    requires
        0 < warning_level < var_limit,
    ensures
        RiskModel::initial(var_limit, warning_level).replayed(updates).regime_in_band(),
    decreases updates.len(),
{
    let start = RiskModel::initial(var_limit, warning_level);
    if updates.len() > 0 {
        lemma_sum_empty::<Seq<char>>();
        lemma_replay_keeps_valid(start, updates.drop_last());
        lemma_update_settles_band(start.replayed(updates.drop_last()), updates.last());
    }
}

/// `Shutdown` is final: no run of updates leads out of it.
pub proof fn lemma_shutdown_is_final(m: RiskModel, updates: Seq<Update>)
    requires
        m.state == RiskState::Shutdown,
    ensures
        m.replayed(updates).state == RiskState::Shutdown,
    decreases updates.len(),
{
    if updates.len() > 0 {
        lemma_shutdown_is_final(m, updates.drop_last());
    }
}

/// The directives of a list of effects that ends in `effect`.
proof fn lemma_directives_push(effects: Seq<Effect>, effect: Effect)
    ensures
        directives(effects.push(effect)) == match effect {
            Effect::Send(cmd) => directives(effects).push(cmd),
            _ => directives(effects),
        },
{
    assert(effects.push(effect).drop_last() =~= effects);
}

/// The notifications of a list of effects that ends in `effect`.
proof fn lemma_alerts_push(effects: Seq<Effect>, effect: Effect)
    ensures
        alerts(effects.push(effect)) == match effect {
            Effect::Notify(alert) => alerts(effects).push(alert),
            _ => alerts(effects),
        },
{
    assert(effects.push(effect).drop_last() =~= effects);
}

/// The directives and notifications among the effects of a change of regime:
/// entering `Shutdown` sends the stop directive, entering any other regime
/// sends nothing; `Warning`, `Breach` and `Shutdown` notify once on entry.
proof fn lemma_change_effects(m: RiskModel, state: RiskState)
    ensures
        directives(m.change_effects(state)) == if state == RiskState::Shutdown {
            seq![TradingEngineCommand::StopEngine]
        } else {
            Seq::<TradingEngineCommand>::empty()
        },
        alerts(m.change_effects(state)) == match state {
            RiskState::Normal => Seq::<Alert>::empty(),
            RiskState::Warning => seq![Alert::WarningLevel],
            RiskState::Breach => seq![Alert::LimitBreach],
            RiskState::Shutdown => seq![Alert::Shutdown],
        },
{
    let none = Seq::<Effect>::empty();
    let exit = Effect::Exit(m.state);
    let enter = Effect::Enter(state);
    lemma_directives_push(none, exit);
    lemma_alerts_push(none, exit);
    lemma_directives_push(none.push(exit), enter);
    lemma_alerts_push(none.push(exit), enter);
    let hooks = none.push(exit).push(enter);
    match state {
        RiskState::Normal => {
            assert(m.change_effects(state) =~= hooks);
        },
        RiskState::Warning => {
            let notify = Effect::Notify(Alert::WarningLevel);
            lemma_directives_push(hooks, notify);
            lemma_alerts_push(hooks, notify);
            assert(m.change_effects(state) =~= hooks.push(notify));
        },
        RiskState::Breach => {
            let notify = Effect::Notify(Alert::LimitBreach);
            lemma_directives_push(hooks, notify);
            lemma_alerts_push(hooks, notify);
            assert(m.change_effects(state) =~= hooks.push(notify));
        },
        RiskState::Shutdown => {
            let notify = Effect::Notify(Alert::Shutdown);
            let stop = Effect::Send(TradingEngineCommand::StopEngine);
            lemma_directives_push(hooks, notify);
            lemma_alerts_push(hooks, notify);
            lemma_directives_push(hooks.push(notify), stop);
            lemma_alerts_push(hooks.push(notify), stop);
            assert(m.change_effects(state) =~= hooks.push(notify).push(stop));
        },
    }
}

/// The effects of an update end with the directive of the regime that is
/// active after it. Any change of regime that the update brings comes before
/// that directive.
pub proof fn lemma_directive_follows_transition(m: RiskModel, update: Update)
    ensures
        m.effects_of(update).len() > 0,
        m.effects_of(update).last() == Effect::Send(m.applied(update).state.directive()),
        m.effects_of(update).drop_last() == m.with_positions(
            update.rebook(m.positions),
        ).recomputed().check_effects(),
{
}

/// An update that does not take the manager into `Shutdown` sends exactly one
/// directive: that of the regime that is active after it.
pub proof fn lemma_one_directive(m: RiskModel, update: Update)
    requires
        !m.enters_shutdown(update),
    ensures
        directives(m.effects_of(update)) == seq![m.applied(update).state.directive()],
{
    let before = m.with_positions(update.rebook(m.positions)).recomputed();
    let last = Effect::Send(m.applied(update).state.directive());
    lemma_directives_push(before.check_effects(), last);
    match before.transition() {
        Some(next) => {
            lemma_change_effects(before, next);
        },
        None => {},
    }
}

/// An update that takes the manager into `Shutdown` sends the stop directive
/// twice, once on entry and once as the directive of the new regime, and
/// notifies of the shutdown once.
pub proof fn lemma_shutdown_entry(m: RiskModel, update: Update)
    requires
        m.enters_shutdown(update),
    ensures
        directives(m.effects_of(update)) == seq![
            TradingEngineCommand::StopEngine,
            TradingEngineCommand::StopEngine,
        ],
        alerts(m.effects_of(update)) == seq![Alert::Shutdown],
{
    let before = m.with_positions(update.rebook(m.positions)).recomputed();
    let last = Effect::Send(TradingEngineCommand::StopEngine);
    lemma_directives_push(before.check_effects(), last);
    lemma_alerts_push(before.check_effects(), last);
    lemma_change_effects(before, RiskState::Shutdown);
}

/// A manager in `Shutdown` answers every update with the stop directive and
/// nothing else.
pub proof fn lemma_shutdown_repeats_stop(m: RiskModel, update: Update)
    requires
        m.state == RiskState::Shutdown,
    ensures
        m.effects_of(update) == seq![Effect::Send(TradingEngineCommand::StopEngine)],
{
}

/// Taking out a position that the book does not hold leaves the book and a
/// correct aggregate as they are. The active regime's rules are still
/// evaluated, and the directive of the regime that is then active is sent.
pub proof fn lemma_remove_absent(m: RiskModel, id: Seq<char>)
    requires
        m.var_is_sum(),
        !m.positions.contains_key(id),
    ensures
        m.removed(id) == m.checked(),
        m.removed(id).positions == m.positions,
        m.removed(id).current_var == m.current_var,
        m.remove_effects(id) == m.check_effects().push(Effect::Send(m.checked().directive())),
{
    assert(m.positions.remove(id) =~= m.positions);
}

/// Where the regime's rules name no other regime for the present aggregate,
/// taking out a position that the book does not hold changes nothing at all,
/// and the directive of the active regime is sent once more.
pub proof fn lemma_remove_absent_settled(m: RiskModel, id: Seq<char>)
    requires
        m.var_is_sum(),
        !m.positions.contains_key(id),
        m.transition() is None,
    ensures
        m.removed(id) == m,
        m.remove_effects(id) == seq![Effect::Send(m.directive())],
{
    lemma_remove_absent(m, id);
}

/// The directives of two lists of effects, one after the other.
proof fn lemma_directives_concat(first: Seq<Effect>, second: Seq<Effect>)
    ensures
        directives(first + second) == directives(first) + directives(second),
    decreases second.len(),
{
    if second.len() > 0 {
        let front = second.drop_last();
        lemma_directives_concat(first, front);
        assert((first + second).drop_last() =~= first + front);
    }
}

/// The notifications of two lists of effects, one after the other.
proof fn lemma_alerts_concat(first: Seq<Effect>, second: Seq<Effect>)
    ensures
        alerts(first + second) == alerts(first) + alerts(second),
    decreases second.len(),
{
    if second.len() > 0 {
        let front = second.drop_last();
        lemma_alerts_concat(first, front);
        assert((first + second).drop_last() =~= first + front);
    }
}

/// Occurrences add up over two lists, one after the other.
proof fn lemma_occurrences_concat<A>(first: Seq<A>, second: Seq<A>, item: A)
    ensures
        occurrences(first + second, item) == occurrences(first, item) + occurrences(second, item),
    decreases second.len(),
{
    if second.len() > 0 {
        lemma_occurrences_concat(first, second.drop_last(), item);
        assert((first + second).drop_last() =~= first + second.drop_last());
    }
}

/// An item is in one list after another if and only if it is in one of the
/// two.
proof fn lemma_contains_concat<A>(first: Seq<A>, second: Seq<A>, item: A)
    ensures
        (first + second).contains(item) <==> first.contains(item) || second.contains(item),
{
    let both = first + second;
    if first.contains(item) {
        let i = choose|i: int| 0 <= i < first.len() && first[i] == item;
        assert(both[i] == item);
    }
    if second.contains(item) {
        let i = choose|i: int| 0 <= i < second.len() && second[i] == item;
        assert(both[first.len() + i] == item);
    }
    if both.contains(item) {
        let i = choose|i: int| 0 <= i < both.len() && both[i] == item;
        if i < first.len() {
            assert(first[i] == item);
        } else {
            assert(second[i - first.len()] == item);
        }
    }
}

/// An update notifies of a shutdown once if it takes the manager into
/// `Shutdown`, and not at all otherwise.
pub proof fn lemma_shutdown_alert_on_entry(m: RiskModel, update: Update)
    ensures
        occurrences(alerts(m.effects_of(update)), Alert::Shutdown) == if m.enters_shutdown(update) {
            1nat
        } else {
            0nat
        },
{
    let before = m.with_positions(update.rebook(m.positions)).recomputed();
    let last = Effect::Send(m.applied(update).state.directive());
    lemma_alerts_push(before.check_effects(), last);
    reveal_with_fuel(occurrences, 3);
    match before.transition() {
        Some(next) => {
            lemma_change_effects(before, next);
        },
        None => {},
    }
}

/// An update sends the stop directive if and only if it leaves the manager in
/// `Shutdown`.
pub proof fn lemma_stop_sent_in_shutdown(m: RiskModel, update: Update)
    ensures
        directives(m.effects_of(update)).contains(TradingEngineCommand::StopEngine) <==> m.applied(
            update,
        ).state == RiskState::Shutdown,
{
    let sent = directives(m.effects_of(update));
    if m.enters_shutdown(update) {
        lemma_shutdown_entry(m, update);
        assert(sent[0] == TradingEngineCommand::StopEngine);
    } else {
        lemma_one_directive(m, update);
        assert(sent[0] == m.applied(update).state.directive());
    }
}

/// Over any run of updates, a shutdown is notified exactly once if the run
/// takes the manager into `Shutdown`, and never otherwise. The stop directive
/// is among the directives of the run if and only if the manager is in
/// `Shutdown` at its end, so an engine that is served those directives halts
/// in exactly that case.
pub proof fn lemma_run_shutdown(m: RiskModel, updates: Seq<Update>)
    ensures
        occurrences(alerts(m.run_effects(updates)), Alert::Shutdown) == if m.state
            != RiskState::Shutdown && m.replayed(updates).state == RiskState::Shutdown {
            1nat
        } else {
            0nat
        },
        directives(m.run_effects(updates)).contains(TradingEngineCommand::StopEngine) <==> (
        updates.len() > 0 && m.replayed(updates).state == RiskState::Shutdown),
    decreases updates.len(),
{
    if updates.len() > 0 {
        let front = updates.drop_last();
        let mid = m.replayed(front);
        let step = mid.effects_of(updates.last());
        lemma_run_shutdown(m, front);
        lemma_shutdown_alert_on_entry(mid, updates.last());
        lemma_stop_sent_in_shutdown(mid, updates.last());
        lemma_alerts_concat(m.run_effects(front), step);
        lemma_directives_concat(m.run_effects(front), step);
        lemma_occurrences_concat(alerts(m.run_effects(front)), alerts(step), Alert::Shutdown);
        if m.state == RiskState::Shutdown {
            lemma_shutdown_is_final(m, front);
        }
        lemma_contains_concat(
            directives(m.run_effects(front)),
            directives(step),
            TradingEngineCommand::StopEngine,
        );
    }
}

} // verus!
