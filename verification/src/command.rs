//! Directives that the risk manager issues to the trading engine.
use vstd::prelude::*;

verus! {

/// What the trading engine is told to do.
#[derive(Clone, Copy, Debug, PartialEq, Eq, Structural)]
pub enum TradingEngineCommand {
    /// Trading may go on.
    ExecuteTrade,
    /// No new trade may be placed.
    NoTrade,
    /// The engine has to stop for good.
    StopEngine,
}

} // verus!
