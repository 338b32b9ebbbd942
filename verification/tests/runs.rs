use std::collections::HashMap;

use risk_regime::command::TradingEngineCommand;
use risk_regime::effect::{Alert, Effect};
use risk_regime::engine::TradingEngine;
use risk_regime::manager::RiskManager;
use risk_regime::state::RiskState;

/// The regime that the rules of `state` name for `var`, written out anew.
fn expected_next(state: RiskState, var: i128, warning: i128, limit: i128) -> RiskState {
    match state {
        RiskState::Normal | RiskState::Warning => {
            if var < warning {
                RiskState::Normal
            } else if var < limit {
                RiskState::Warning
            } else {
                RiskState::Breach
            }
        }
        RiskState::Breach => {
            if var < warning {
                RiskState::Normal
            } else if var < limit {
                RiskState::Warning
            } else if 5 * var >= 6 * limit {
                RiskState::Shutdown
            } else {
                RiskState::Breach
            }
        }
        RiskState::Shutdown => RiskState::Shutdown,
    }
}

fn next_random(seed: &mut u64) -> u64 {
    *seed = seed.wrapping_mul(6364136223846793005).wrapping_add(1442695040888963407);
    *seed >> 33
}

/// Drives a manager through `steps` updates drawn from `seed` and checks it
/// against a plain map after each of them. Returns all effects of the run.
fn drive(seed: u64, steps: usize, limit: i64, warning: i64, spread: u64) -> (RiskManager, Vec<Effect>) {
    let mut seed = seed;
    let mut manager = RiskManager::new(limit, warning).unwrap();
    let mut mirror: HashMap<String, i64> = HashMap::new();
    let mut all: Vec<Effect> = Vec::new();
    let mut step: usize = 0;
    while step < steps {
        let id = format!("position-{}", next_random(&mut seed) % 6);
        let before = manager.state();
        let effects = if next_random(&mut seed) % 3 == 0 {
            mirror.remove(&id);
            manager.remove_position(&id)
        } else {
            let amount = (next_random(&mut seed) % spread) as i64 - (spread / 4) as i64;
            mirror.insert(id.clone(), amount);
            manager.add_position(&id, amount)
        };
        let sum: i128 = mirror.values().map(|v| *v as i128).sum();
        assert_eq!(manager.current_var(), sum);
        assert_eq!(manager.positions().len(), mirror.len());
        for (key, value) in &mirror {
            assert_eq!(manager.positions().get(key), Some(*value));
        }
        let after = manager.state();
        assert_eq!(after, expected_next(before, sum, warning as i128, limit as i128));
        assert_eq!(effects.last(), Some(&Effect::Send(after.send_command())));
        if before == after {
            assert_eq!(effects.len(), 1);
        } else {
            assert_eq!(effects[0], Effect::Exit(before));
            assert_eq!(effects[1], Effect::Enter(after));
        }
        all.extend(effects);
        step += 1;
    }
    (manager, all)
}

#[test]
fn random_runs_agree_with_plain_map() {
    let mut seed: u64 = 1;
    while seed <= 40 {
        drive(seed, 60, 1000, 600, 700);
        seed += 1;
    }
}

#[test]
fn shutdown_alert_fires_once_over_a_run() {
    let mut seed: u64 = 100;
    let mut shutdowns: usize = 0;
    while seed < 160 {
        let limit: i64 = if seed % 2 == 0 { 1000 } else { 100_000 };
        let (manager, all) = drive(seed, 80, limit, 600, 1200);
        let alerts = all.iter().filter(|e| **e == Effect::Notify(Alert::Shutdown)).count();
        let stops = all.iter().filter(|e| **e == Effect::Send(TradingEngineCommand::StopEngine)).count();
        let mut directives: Vec<TradingEngineCommand> = Vec::new();
        for effect in &all {
            if let Effect::Send(cmd) = effect {
                directives.push(*cmd);
            }
        }
        let mut engine = TradingEngine::start();
        engine.handle_all(&directives);
        if manager.state() == RiskState::Shutdown {
            assert_eq!(alerts, 1);
            assert!(stops >= 2);
            assert!(!engine.is_running());
            shutdowns += 1;
        } else {
            assert_eq!(alerts, 0);
            assert_eq!(stops, 0);
            assert!(engine.is_running());
        }
        seed += 1;
    }
    assert!(shutdowns > 0);
    assert!(shutdowns < 60);
}
