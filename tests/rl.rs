use tabular_rl::environment::{
    Action, ActionId, DPEnvironment, ProbabilityT, State, StateId,
};
use tabular_rl::rl::policy::TabularPolicy;
use tabular_rl::rl::trainer::{DPTrainer, DPTrainerConfig, VALUE_SCALE};
use tabular_rl::tictactoe::action::TicTacToeAction;
use tabular_rl::tictactoe::cell::CellValue;
use tabular_rl::tictactoe::environment::TicTacToeEnvironment;
use tabular_rl::tictactoe::state::TicTacToeState;

fn state_of(chars: [char; 9]) -> TicTacToeState {
    TicTacToeState { cells: chars.map(|c| CellValue::try_from(c).unwrap()) }
}

fn trained(num_epochs: usize) -> DPTrainer<TicTacToeEnvironment> {
    let config = DPTrainerConfig::new(num_epochs);
    let mut trainer = DPTrainer::init_with_uniform_policies(TicTacToeEnvironment::new(), config);
    trainer.train();
    trainer
}

#[test]
fn uniform_policy_on_the_empty_board() {
    let env = TicTacToeEnvironment::new();
    let policy = TabularPolicy::create_uniform_policy(&env);
    for i in 0..9 {
        let id = TicTacToeAction::new(CellValue::Cross, i).id();
        assert_eq!(
            policy.probability_for_action(StateId(0), id),
            ProbabilityT { num: 1, den: 9 }
        );
    }
    let circle = TicTacToeAction::new(CellValue::Circle, 0).id();
    assert_eq!(
        policy.probability_for_action(StateId(0), circle),
        ProbabilityT { num: 0, den: 1 }
    );
}

#[test]
fn uniform_policy_sums_to_one() {
    let env = TicTacToeEnvironment::new();
    let policy = TabularPolicy::create_uniform_policy(&env);
    let table = env.state_transitions();
    for id in [0usize, 1, 2, 100, 5000, 19000] {
        let transitions = &table[id];
        let k = transitions.len() as u64;
        if k == 0 {
            continue;
        }
        let mut sum = 0.0f64;
        for t in transitions {
            let p = policy.probability_for_action(StateId(id), t.action_id);
            assert_eq!(p, ProbabilityT { num: 1, den: k });
            sum += p.num as f64 / p.den as f64;
        }
        assert!((sum - 1.0).abs() < 1e-9);
    }
}

#[test]
fn policy_has_nothing_for_terminal_or_unknown_positions() {
    let env = TicTacToeEnvironment::new();
    let policy = TabularPolicy::create_uniform_policy(&env);
    let terminal = state_of(['x', 'x', 'x', 'o', 'o', ' ', ' ', ' ', ' ']);
    assert!(terminal.is_terminal());
    let zero = ProbabilityT { num: 0, den: 1 };
    assert_eq!(policy.probability_for_action(terminal.id(), ActionId(16)), zero);
    assert_eq!(policy.probability_for_action(StateId(19683), ActionId(1)), zero);
    assert_eq!(policy.probability_for_action(StateId(usize::MAX), ActionId(1)), zero);
}

#[test]
fn uniform_from_table_matches_transitions() {
    let env = TicTacToeEnvironment::new();
    let table = env.state_transitions();
    let policy = TabularPolicy::uniform_from_table(&table);
    let state = state_of(['x', ' ', ' ', ' ', 'o', ' ', ' ', ' ', ' ']);
    for t in &table[state.id().0] {
        assert_eq!(
            policy.probability_for_action(state.id(), t.action_id),
            ProbabilityT { num: 1, den: 7 }
        );
    }
}

#[test]
fn config_keeps_the_epochs() {
    assert_eq!(DPTrainerConfig::new(7).num_epochs(), 7);
}

#[test]
fn zero_epochs_leave_zeros() {
    let trainer = trained(0);
    let values = trainer.value_function();
    assert_eq!(values.len(), 19683);
    assert!(values.iter().all(|v| *v == 0));
    assert_eq!(trainer.policies().len(), 2);
}

#[test]
fn one_epoch_values() {
    let trainer = trained(1);
    let values = trainer.value_function();
    // Crosses to move, one of five moves wins.
    let state = state_of(['x', 'x', ' ', 'o', 'o', ' ', ' ', ' ', ' ']);
    assert_eq!(values[state.id().0], VALUE_SCALE / 5);
    assert_eq!(VALUE_SCALE / 5, 72576);
    // Terminal positions keep value zero.
    let terminal = state_of(['x', 'x', 'x', 'o', 'o', ' ', ' ', ' ', ' ']);
    assert_eq!(values[terminal.id().0], 0);
    assert_eq!(values[0], 0);
}

fn manual_sweep(trainer: &DPTrainer<TicTacToeEnvironment>, old: &[i64]) -> Vec<i64> {
    let table = TicTacToeEnvironment::new().state_transitions();
    let policies = trainer.policies();
    let mut out = Vec::new();
    for (s, transitions) in table.iter().enumerate() {
        let mut acc: i64 = 0;
        for t in transitions {
            let p = policies[t.agent_id.0].probability_for_action(StateId(s), t.action_id);
            let x = t.reward.0 as i128 * VALUE_SCALE as i128 + old[t.new_state_id.0] as i128;
            acc += ((p.num as i128 * x) / p.den as i128) as i64;
        }
        out.push(acc);
    }
    out
}

#[test]
fn each_epoch_is_one_sweep() {
    for n in 0..3 {
        let before = trained(n);
        let after = trained(n + 1);
        let expected = manual_sweep(&before, &before.value_function());
        assert_eq!(expected, after.value_function());
    }
}
