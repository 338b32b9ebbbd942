//! The trading engine: the consumer at the far end of the command channel.
//!
//! The engine takes directives one at a time, in the order in which they
//! arrive. What it decides is here; waiting for the next directive and acting
//! on the decision is left to the program that runs it.
use vstd::prelude::*;
use crate::command::TradingEngineCommand;

verus! {

/// What the engine does with one directive.
#[derive(Clone, Copy, Debug, PartialEq, Eq, Structural)]
pub enum EngineAction {
    /// A trade is carried out.
    Trade,
    /// Nothing is traded.
    Hold,
    /// The engine shuts down. It takes no directive after this one.
    Halt,
    /// The directive came after the engine had shut down and is dropped.
    Drop,
}

/// What an engine does with `cmd`, given whether it is still running.
pub open spec fn reaction(running: bool, cmd: TradingEngineCommand) -> EngineAction {
    if !running {
        EngineAction::Drop
    } else {
        match cmd {
            TradingEngineCommand::ExecuteTrade => EngineAction::Trade,
            TradingEngineCommand::NoTrade => EngineAction::Hold,
            TradingEngineCommand::StopEngine => EngineAction::Halt,
        }
    }
}

/// The actions of an engine on the directives `queue`, taken in order.
pub open spec fn reactions(running: bool, queue: Seq<TradingEngineCommand>) -> Seq<EngineAction>
    decreases queue.len(),
{
    if queue.len() == 0 {
        Seq::empty()
    } else {
        seq![reaction(running, queue[0])] + reactions(
            running && queue[0] != TradingEngineCommand::StopEngine,
            queue.skip(1),
        )
    }
}

/// A trading engine. It runs until it is told to stop.
#[derive(Debug)]
pub struct TradingEngine {
    running: bool,
}

impl TradingEngine {
    /// Whether the engine still takes directives.
    pub closed spec fn running(&self) -> bool {
        self.running
    }

    /// A running engine.
    pub fn start() -> (engine: TradingEngine)
        ensures
            engine.running(),
    {
        TradingEngine { running: true }
    }

    /// Whether the engine still takes directives.
    pub fn is_running(&self) -> (running: bool)
        ensures
            running == self.running(),
    {
        self.running
    }

    /// Takes the next directive. A running engine trades, holds or halts as
    /// the directive says, and halting ends its run. An engine that has halted
    /// drops the directive.
    pub fn handle(&mut self, cmd: TradingEngineCommand) -> (action: EngineAction)
        ensures
            action == reaction(old(self).running(), cmd),
            final(self).running() == (old(self).running() && cmd
                != TradingEngineCommand::StopEngine),
    {
        if !self.running {
            EngineAction::Drop
        } else {
            match cmd {
                TradingEngineCommand::ExecuteTrade => EngineAction::Trade,
                TradingEngineCommand::NoTrade => EngineAction::Hold,
                TradingEngineCommand::StopEngine => {
                    self.running = false;
                    EngineAction::Halt
                },
            }
        }
    }

    /// Takes the directives of `queue` one after the other, first come first
    /// served, and returns what was done with each.
    pub fn handle_all(&mut self, queue: &[TradingEngineCommand]) -> (actions: Vec<EngineAction>)
        ensures
            actions@ == reactions(old(self).running(), queue@),
            final(self).running() == (old(self).running() && !queue@.contains(
                TradingEngineCommand::StopEngine,
            )),
    {
        let ghost at_first = self.running();
        let mut actions: Vec<EngineAction> = Vec::new();
        let mut i: usize = 0;
        proof {
            assert(queue@.skip(0) =~= queue@);
        }
        while i < queue.len()
            invariant
                i <= queue@.len(),
                reactions(at_first, queue@) == actions@ + reactions(
                    self.running(),
                    queue@.skip(i as int),
                ),
                self.running() == (at_first && forall|j: int|
                    0 <= j < i ==> queue@[j] != TradingEngineCommand::StopEngine),
            decreases queue@.len() - i,
        {
            let action = self.handle(queue[i]);
            actions.push(action);
            proof {
                assert(queue@.skip(i as int).skip(1) =~= queue@.skip(i + 1));
            }
            i += 1;
        }
        actions
    }
}

/// An engine that has halted drops whatever arrives.
pub proof fn lemma_halted_drops_all(queue: Seq<TradingEngineCommand>, i: int)
    requires
        0 <= i < queue.len(),
    ensures
        reactions(false, queue).len() == queue.len(),
        reactions(false, queue)[i] == EngineAction::Drop,
    decreases queue.len(),
{
    lemma_reactions_len(false, queue);
    if i > 0 {
        lemma_halted_drops_all(queue.skip(1), i - 1);
    }
}

/// Each directive gets exactly one action.
pub proof fn lemma_reactions_len(running: bool, queue: Seq<TradingEngineCommand>)
    ensures
        reactions(running, queue).len() == queue.len(),
    decreases queue.len(),
{
    if queue.len() > 0 {
        lemma_reactions_len(
            running && queue[0] != TradingEngineCommand::StopEngine,
            queue.skip(1),
        );
    }
}

/// Directives are handled in arrival order until the first stop directive:
/// that one halts the engine, and every later one is dropped.
pub proof fn lemma_first_stop_halts(queue: Seq<TradingEngineCommand>, stop: int, i: int)
    requires
        0 <= stop < queue.len(),
        queue[stop] == TradingEngineCommand::StopEngine,
        forall|j: int| 0 <= j < stop ==> queue[j] != TradingEngineCommand::StopEngine,
        0 <= i < queue.len(),
    ensures
        reactions(true, queue).len() == queue.len(),
        i < stop ==> reactions(true, queue)[i] == reaction(true, queue[i]),
        i == stop ==> reactions(true, queue)[i] == EngineAction::Halt,
        i > stop ==> reactions(true, queue)[i] == EngineAction::Drop,
    decreases queue.len(),
{
    lemma_reactions_len(true, queue);
    let rest = queue.skip(1);
    if stop == 0 {
        if i > 0 {
            lemma_halted_drops_all(rest, i - 1);
        }
    } else if i > 0 {
        lemma_first_stop_halts(rest, stop - 1, i - 1);
    }
}

} // verus!
