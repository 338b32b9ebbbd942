//! What a change of the risk picture asks the surrounding program to do.
//!
//! The manager performs no output of its own. Each of its steps returns the
//! effects it calls for, in the order in which they have to be carried out.
use vstd::prelude::*;
use crate::command::TradingEngineCommand;
use crate::state::RiskState;

verus! {

/// A notification for the people who watch the portfolio.
#[derive(Clone, Copy, Debug, PartialEq, Eq, Structural)]
pub enum Alert {
    /// The aggregate has reached the warning level.
    WarningLevel,
    /// The aggregate has reached the limit.
    LimitBreach,
    /// The aggregate is far enough above the limit to stop the engine.
    Shutdown,
}

impl Alert {
    /// The text of the notification.
    pub open spec fn text(self) -> Seq<char> {
        match self {
            Alert::WarningLevel => "Warning Level reached. Increased monitoring and trading limitations are in effect."@,
            Alert::LimitBreach => "Limit Breach! New trades are blocked. Positions may be closed."@,
            Alert::Shutdown => "Shutdown initiated due to extreme risk levels."@,
        }
    }

    /// The text of the notification.
    pub fn message(&self) -> (text: &'static str)
        ensures
            text@ == self.text(),
    {
        match self {
            Alert::WarningLevel => "Warning Level reached. Increased monitoring and trading limitations are in effect.",
            Alert::LimitBreach => "Limit Breach! New trades are blocked. Positions may be closed.",
            Alert::Shutdown => "Shutdown initiated due to extreme risk levels.",
        }
    }
}

/// One thing to carry out.
#[derive(Clone, Copy, Debug, PartialEq, Eq, Structural)]
pub enum Effect {
    /// The exit hook of a regime has fired.
    Exit(RiskState),
    /// The entry hook of a regime has fired.
    Enter(RiskState),
    /// A notification has to be dispatched.
    Notify(Alert),
    /// A directive has to be put on the command channel.
    Send(TradingEngineCommand),
}

/// The directives among `effects`, in order.
pub open spec fn directives(effects: Seq<Effect>) -> Seq<TradingEngineCommand>
    decreases effects.len(),
{
    if effects.len() == 0 {
        Seq::empty()
    } else {
        match effects.last() {
            Effect::Send(cmd) => directives(effects.drop_last()).push(cmd),
            _ => directives(effects.drop_last()),
        }
    }
}

/// The notifications among `effects`, in order.
pub open spec fn alerts(effects: Seq<Effect>) -> Seq<Alert>
    decreases effects.len(),
{
    if effects.len() == 0 {
        Seq::empty()
    } else {
        match effects.last() {
            Effect::Notify(alert) => alerts(effects.drop_last()).push(alert),
            _ => alerts(effects.drop_last()),
        }
    }
}

/// How often `item` occurs in `items`.
pub open spec fn occurrences<A>(items: Seq<A>, item: A) -> nat
    decreases items.len(),
{
    if items.len() == 0 {
        0
    } else {
        occurrences(items.drop_last(), item) + if items.last() == item {
            1nat
        } else {
            0nat
        }
    }
}

} // verus!
