use risk_regime::command::TradingEngineCommand;
use risk_regime::effect::{Alert, Effect};
use risk_regime::engine::{EngineAction, TradingEngine};
use risk_regime::manager::RiskManager;
use risk_regime::state::RiskState;

fn sent(effects: &[Effect]) -> Vec<TradingEngineCommand> {
    let mut out = Vec::new();
    for effect in effects {
        if let Effect::Send(cmd) = effect {
            out.push(*cmd);
        }
    }
    out
}

fn notified(effects: &[Effect]) -> Vec<Alert> {
    let mut out = Vec::new();
    for effect in effects {
        if let Effect::Notify(alert) = effect {
            out.push(*alert);
        }
    }
    out
}

#[test]
fn test_risk_manager() {
    let var_limit: i64 = 100;
    let warning_level: i64 = 80;
    let mut engine = TradingEngine::start();
    let mut risk_manager = RiskManager::new(var_limit, warning_level).unwrap();
    let mut channel: Vec<TradingEngineCommand> = Vec::new();

    channel.extend(sent(&risk_manager.add_position("Position1", 30)));
    assert_eq!(risk_manager.current_var(), 30);

    channel.extend(sent(&risk_manager.add_position("Position2", 40)));
    assert_eq!(risk_manager.current_var(), 70);

    channel.extend(sent(&risk_manager.add_position("Position3", 20)));
    assert_eq!(risk_manager.current_var(), 90);

    channel.extend(sent(&risk_manager.add_position("Position4", 15)));
    assert_eq!(risk_manager.current_var(), 105);

    channel.extend(sent(&risk_manager.add_position("Position5", 35)));
    assert_eq!(risk_manager.current_var(), 140);

    channel.extend(sent(&risk_manager.check_state()));
    channel.extend(sent(&risk_manager.check_state()));
    assert_eq!(risk_manager.state(), RiskState::Shutdown);

    let actions = engine.handle_all(&channel);
    assert_eq!(
        actions,
        vec![
            EngineAction::Trade,
            EngineAction::Trade,
            EngineAction::Trade,
            EngineAction::Hold,
            EngineAction::Halt,
            EngineAction::Drop,
        ]
    );
    assert!(!engine.is_running());
}

#[test]
fn rising_risk_reaches_warning() {
    let mut manager = RiskManager::new(100, 80).unwrap();
    assert_eq!(manager.state(), RiskState::Normal);
    assert_eq!(manager.current_var(), 0);

    let first = manager.add_position("a", 30);
    assert_eq!(manager.current_var(), 30);
    assert_eq!(manager.state(), RiskState::Normal);
    assert_eq!(first, vec![Effect::Send(TradingEngineCommand::ExecuteTrade)]);

    let second = manager.add_position("b", 40);
    assert_eq!(manager.current_var(), 70);
    assert_eq!(manager.state(), RiskState::Normal);
    assert_eq!(second, vec![Effect::Send(TradingEngineCommand::ExecuteTrade)]);

    let third = manager.add_position("c", 20);
    assert_eq!(manager.current_var(), 90);
    assert_eq!(manager.state(), RiskState::Warning);
    assert_eq!(
        third,
        vec![
            Effect::Exit(RiskState::Normal),
            Effect::Enter(RiskState::Warning),
            Effect::Notify(Alert::WarningLevel),
            Effect::Send(TradingEngineCommand::ExecuteTrade),
        ]
    );
}

#[test]
fn breach_then_shutdown() {
    let mut manager = RiskManager::new(100, 80).unwrap();
    manager.add_position("a", 30);
    manager.add_position("b", 40);
    manager.add_position("c", 20);

    let fourth = manager.add_position("d", 15);
    assert_eq!(manager.current_var(), 105);
    assert_eq!(manager.state(), RiskState::Breach);
    assert!(!manager.should_shutdown());
    assert_eq!(
        fourth,
        vec![
            Effect::Exit(RiskState::Warning),
            Effect::Enter(RiskState::Breach),
            Effect::Notify(Alert::LimitBreach),
            Effect::Send(TradingEngineCommand::NoTrade),
        ]
    );

    let fifth = manager.add_position("e", 35);
    assert_eq!(manager.current_var(), 140);
    assert!(manager.should_shutdown());
    assert_eq!(manager.state(), RiskState::Shutdown);
    assert_eq!(
        fifth,
        vec![
            Effect::Exit(RiskState::Breach),
            Effect::Enter(RiskState::Shutdown),
            Effect::Notify(Alert::Shutdown),
            Effect::Send(TradingEngineCommand::StopEngine),
            Effect::Send(TradingEngineCommand::StopEngine),
        ]
    );
    assert_eq!(notified(&fifth), vec![Alert::Shutdown]);

    let later = manager.add_position("f", 1);
    assert_eq!(notified(&later), Vec::<Alert>::new());
    assert_eq!(later, vec![Effect::Send(TradingEngineCommand::StopEngine)]);
}

#[test]
fn removing_unknown_position_changes_nothing() {
    let mut manager = RiskManager::new(100, 80).unwrap();
    manager.add_position("a", 50);
    manager.add_position("b", 40);
    assert_eq!(manager.state(), RiskState::Warning);

    let effects = manager.remove_position("zzz");
    assert_eq!(manager.current_var(), 90);
    assert_eq!(manager.state(), RiskState::Warning);
    assert_eq!(manager.positions().len(), 2);
    assert_eq!(effects, vec![Effect::Send(TradingEngineCommand::ExecuteTrade)]);
}

#[test]
fn removing_unknown_position_still_evaluates_rules() {
    let mut manager = RiskManager::new(100, 80).unwrap();
    manager.add_position("a", 140);
    assert_eq!(manager.state(), RiskState::Breach);

    let effects = manager.remove_position("zzz");
    assert_eq!(manager.current_var(), 140);
    assert_eq!(manager.state(), RiskState::Shutdown);
    assert_eq!(
        sent(&effects),
        vec![TradingEngineCommand::StopEngine, TradingEngineCommand::StopEngine]
    );
}

#[test]
fn one_step_per_update() {
    let mut manager = RiskManager::new(100, 80).unwrap();
    let jump = manager.add_position("a", 500);
    assert_eq!(manager.state(), RiskState::Breach);
    assert_eq!(sent(&jump), vec![TradingEngineCommand::NoTrade]);

    let mut warned = RiskManager::new(100, 80).unwrap();
    warned.add_position("a", 85);
    assert_eq!(warned.state(), RiskState::Warning);
    warned.add_position("b", 415);
    assert_eq!(warned.current_var(), 500);
    assert_eq!(warned.state(), RiskState::Breach);
    warned.add_position("c", 0);
    assert_eq!(warned.state(), RiskState::Shutdown);
}

#[test]
fn breach_falls_back() {
    let mut manager = RiskManager::new(100, 80).unwrap();
    manager.add_position("a", 110);
    assert_eq!(manager.state(), RiskState::Breach);
    let to_warning = manager.add_position("a", 95);
    assert_eq!(manager.state(), RiskState::Warning);
    assert_eq!(
        to_warning,
        vec![
            Effect::Exit(RiskState::Breach),
            Effect::Enter(RiskState::Warning),
            Effect::Notify(Alert::WarningLevel),
            Effect::Send(TradingEngineCommand::ExecuteTrade),
        ]
    );

    manager.add_position("a", 110);
    assert_eq!(manager.state(), RiskState::Breach);
    let to_normal = manager.remove_position("a");
    assert_eq!(manager.current_var(), 0);
    assert_eq!(manager.state(), RiskState::Normal);
    assert_eq!(
        to_normal,
        vec![
            Effect::Exit(RiskState::Breach),
            Effect::Enter(RiskState::Normal),
            Effect::Send(TradingEngineCommand::ExecuteTrade),
        ]
    );
}

#[test]
fn warning_falls_back_to_normal() {
    let mut manager = RiskManager::new(100, 80).unwrap();
    manager.add_position("a", 80);
    assert_eq!(manager.state(), RiskState::Warning);
    let effects = manager.add_position("a", 79);
    assert_eq!(manager.state(), RiskState::Normal);
    assert_eq!(
        effects,
        vec![
            Effect::Exit(RiskState::Warning),
            Effect::Enter(RiskState::Normal),
            Effect::Send(TradingEngineCommand::ExecuteTrade),
        ]
    );
}

#[test]
fn band_edges() {
    let mut manager = RiskManager::new(100, 80).unwrap();
    manager.add_position("a", 79);
    assert_eq!(manager.state(), RiskState::Normal);
    manager.add_position("a", 80);
    assert_eq!(manager.state(), RiskState::Warning);
    manager.add_position("a", 99);
    assert_eq!(manager.state(), RiskState::Warning);
    manager.add_position("a", 100);
    assert_eq!(manager.state(), RiskState::Breach);
    manager.add_position("a", 119);
    assert!(!manager.should_shutdown());
    assert_eq!(manager.state(), RiskState::Breach);
    manager.add_position("a", 120);
    assert!(manager.should_shutdown());
    assert_eq!(manager.state(), RiskState::Shutdown);
}

#[test]
fn shutdown_mark_is_six_fifths() {
    let mut manager = RiskManager::new(7, 3).unwrap();
    manager.add_position("a", 8);
    assert!(!manager.should_shutdown());
    manager.add_position("a", 9);
    assert!(manager.should_shutdown());

    let mut five = RiskManager::new(5, 1).unwrap();
    five.add_position("a", 5);
    assert!(!five.should_shutdown());
    five.add_position("a", 6);
    assert!(five.should_shutdown());
    five.add_position("a", -6);
    assert!(!five.should_shutdown());
}

#[test]
fn shutdown_is_final() {
    let mut manager = RiskManager::new(100, 80).unwrap();
    manager.add_position("a", 100);
    manager.add_position("b", 100);
    assert_eq!(manager.state(), RiskState::Shutdown);

    let first = manager.remove_position("a");
    assert_eq!(manager.state(), RiskState::Shutdown);
    assert_eq!(first, vec![Effect::Send(TradingEngineCommand::StopEngine)]);
    let second = manager.remove_position("b");
    assert_eq!(manager.current_var(), 0);
    assert_eq!(manager.state(), RiskState::Shutdown);
    assert_eq!(second, vec![Effect::Send(TradingEngineCommand::StopEngine)]);
    let third = manager.add_position("c", -1000);
    assert_eq!(manager.state(), RiskState::Shutdown);
    assert_eq!(third, vec![Effect::Send(TradingEngineCommand::StopEngine)]);
    assert_eq!(manager.check_state(), Vec::<Effect>::new());
    assert_eq!(manager.send_command(), TradingEngineCommand::StopEngine);
}

#[test]
fn one_directive_per_update() {
    let mut manager = RiskManager::new(1000, 500).unwrap();
    let amounts: [i64; 8] = [100, 450, -200, 700, 10, -900, 2000, 5];
    let mut i: usize = 0;
    while i < amounts.len() {
        let before = manager.state();
        let effects = manager.add_position("p", amounts[i]);
        let after = manager.state();
        let directives = sent(&effects);
        if before != RiskState::Shutdown && after == RiskState::Shutdown {
            assert_eq!(
                directives,
                vec![TradingEngineCommand::StopEngine, TradingEngineCommand::StopEngine]
            );
        } else {
            assert_eq!(directives, vec![after.send_command()]);
        }
        assert_eq!(effects.last(), Some(&Effect::Send(after.send_command())));
        i += 1;
    }
}
