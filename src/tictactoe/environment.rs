use vstd::prelude::*;

use crate::environment::{
    table_view, table_wf, ActionId, AgentId, DPEnvironment, Environment, ProbabilityT, RewardT,
    StateId, StateTransition, StateTransitionTable,
};
use crate::tictactoe::action::{spec_action_id, TicTacToeAction};
use crate::tictactoe::cell::CellValue;
use crate::tictactoe::state::{
    decode, encode, lemma_actions_applicable, lemma_actions_iff_not_terminal, lemma_encode_bound, lemma_encode_decode,
    lemma_num_states, spec_actions, spec_apply, spec_can_apply, spec_is_terminal, spec_winner,
    TicTacToeState, NUM_CELLS, NUM_STATES,
};

verus! {

/// Number of agents of the game: crosses and circles.
pub const NUM_AGENTS: usize = 2;

/// The agent that owns an action writing `v`: crosses are agent 0, circles agent 1.
pub open spec fn spec_agent_of(v: CellValue) -> nat {
    match v {
        CellValue::Circle => 1,
        _ => 0,
    }
}

/// The reward of agent `agent` in position `c`: 1 if its value won, -1 if the other one did.
pub open spec fn spec_reward(c: Seq<CellValue>, agent: nat) -> i64 {
    let w = spec_winner(c);
    if w == CellValue::Empty {
        0
    } else if spec_agent_of(w) == agent {
        1
    } else {
        -1i64
    }
}

/// The transition that action `a` makes from `c`, one of `k` legal actions there.
pub open spec fn spec_transition(c: Seq<CellValue>, a: TicTacToeAction, k: nat) -> StateTransition {
    let next = spec_apply(c, a);
    let agent = spec_agent_of(a.cell_value);
    StateTransition {
        action_id: ActionId(spec_action_id(a) as usize),
        new_state_id: StateId(encode(next) as usize),
        reward: RewardT(spec_reward(next, agent)),
        prob: ProbabilityT { num: 1, den: k as u64 },
        agent_id: AgentId(agent as usize),
    }
}

/// The outgoing transitions of position `c`, one per legal action, in the order of the actions.
pub open spec fn spec_transitions_of(c: Seq<CellValue>) -> Seq<StateTransition> {
    let acts = spec_actions(c);
    Seq::new(acts.len(), |j: int| spec_transition(c, acts[j], acts.len()))
}

/// The transition table of the game: the transitions of every decoded id.
pub open spec fn spec_table() -> Seq<Seq<StateTransition>> {
    Seq::new(NUM_STATES as nat, |id: int| spec_transitions_of(decode(id as nat)))
}

/// The game, at its current position.
#[derive(Debug)]
pub struct TicTacToeEnvironment {
    pub state: TicTacToeState,
}

impl TicTacToeEnvironment {
    /// The game at the empty board.
    pub fn new() -> (r: Self)
        ensures
            r.state@ == decode(0),
            forall|i: int| 0 <= i < NUM_CELLS ==> #[trigger] r.state@[i] == CellValue::Empty,
    {
        let state = TicTacToeState::create_state_with_id(StateId(0));
        let state = state.unwrap();
        proof {
            reveal_with_fuel(crate::tictactoe::state::pow3, 10);
        }
        TicTacToeEnvironment { state }
    }

    pub fn reward_for_cross_agent(state: &TicTacToeState) -> (r: RewardT)
        ensures
            r.0 == spec_reward(state@, 0),
    {
        match state.has_winning_value() {
            CellValue::Circle => RewardT(-1),
            CellValue::Cross => RewardT(1),
            CellValue::Empty => RewardT(0),
        }
    }

    pub fn reward_for_circle_agent(state: &TicTacToeState) -> (r: RewardT)
        ensures
            r.0 == spec_reward(state@, 1),
    {
        match state.has_winning_value() {
            CellValue::Circle => RewardT(1),
            CellValue::Cross => RewardT(-1),
            CellValue::Empty => RewardT(0),
        }
    }

    /// The reward of agent `agent_id` in `state`; only agents 0 and 1 exist.
    pub fn reward_for_agent(state: &TicTacToeState, agent_id: AgentId) -> (r: RewardT)
        requires
            agent_id.0 < NUM_AGENTS,
        ensures
            r.0 == spec_reward(state@, agent_id.0 as nat),
    {
        if agent_id.0 == 0 {
            TicTacToeEnvironment::reward_for_cross_agent(state)
        } else {
            TicTacToeEnvironment::reward_for_circle_agent(state)
        }
    }

    /// The agent that owns an action: the one whose value it writes.
    pub fn agent_for_action(action: &TicTacToeAction) -> (r: AgentId)
        requires
            action.cell_value != CellValue::Empty,
        ensures
            r.0 == spec_agent_of(action.cell_value),
            r.0 < NUM_AGENTS,
    {
        match action.value() {
            CellValue::Circle => AgentId(1),
            _ => AgentId(0),
        }
    }

    /// Applies a legal action and returns the reward of the agent that owns it.
    pub fn apply(&mut self, action: &TicTacToeAction) -> (r: RewardT)
        requires
            spec_can_apply(old(self).state@, *action),
            action.cell_value != CellValue::Empty,
        ensures
            final(self).state@ == spec_apply(old(self).state@, *action),
            r.0 == spec_reward(final(self).state@, spec_agent_of(action.cell_value)),
    {
        self.state = self.state.apply_action(action);
        let agent_id = TicTacToeEnvironment::agent_for_action(action);
        TicTacToeEnvironment::reward_for_agent(&self.state, agent_id)
    }

    /// The transitions of one position, for every legal action in order.
    fn transitions_of(state: &TicTacToeState) -> (r: Vec<StateTransition>)
        ensures
            r@ == spec_transitions_of(state@),
    {
        let actions = state.actions();
        proof {
            lemma_actions_applicable(state@);
        }
        let mut transitions: Vec<StateTransition> = Vec::new();
        let mut j: usize = 0;
        while j < actions.len()
            invariant
                0 <= j <= actions@.len(),
                actions@ == spec_actions(state@),
                actions@.len() <= NUM_CELLS,
                transitions@.len() == j,
                forall|k: int|
                    0 <= k < j ==> #[trigger] transitions@[k] == spec_transition(
                        state@,
                        actions@[k],
                        actions@.len() as nat,
                    ),
            decreases actions@.len() - j,
        {
            let a = &actions[j];
            proof {
                lemma_actions_applicable(state@);
                assert(spec_can_apply(state@, actions@[j as int]));
            }
            let new_state = state.apply_action(a);
            let agent_id = TicTacToeEnvironment::agent_for_action(a);
            let t = StateTransition {
                action_id: a.action_id(),
                new_state_id: new_state.state_id(),
                reward: TicTacToeEnvironment::reward_for_agent(&new_state, agent_id),
                prob: ProbabilityT { num: 1, den: actions.len() as u64 },
                agent_id,
            };
            transitions.push(t);
            j = j + 1;
        }
        assert(transitions@ =~= spec_transitions_of(state@));
        transitions
    }

    /// The complete transition model: entry `id` lists the transitions of the position `id`.
    pub fn transition_table(&self) -> (r: StateTransitionTable)
        ensures
            table_view(&r) == spec_table(),
            table_wf(table_view(&r)),
    {
        let mut table: StateTransitionTable = Vec::new();
        let num_states = TicTacToeState::max_state_id();
        let mut i: usize = 0;
        while i < num_states.0
            invariant
                0 <= i <= NUM_STATES,
                num_states.0 == NUM_STATES,
                table@.len() == i,
                forall|k: int|
                    0 <= k < i ==> #[trigger] table@[k]@ == spec_transitions_of(decode(k as nat)),
            decreases NUM_STATES - i,
        {
            let state = TicTacToeState::create_state_with_id(StateId(i)).unwrap();
            let transitions = TicTacToeEnvironment::transitions_of(&state);
            table.push(transitions);
            i = i + 1;
        }
        assert(table_view(&table) =~= spec_table());
        proof {
            lemma_table_wf();
        }
        table
    }
}

/// Every transition of the game leads to an encodable position, with a reward of at most one.
pub proof fn lemma_table_wf()
    ensures
        table_wf(spec_table()),
{
    assert forall|s: int, i: int|
        0 <= s < spec_table().len() && 0 <= i < spec_table()[s].len() implies {
            &&& (spec_table()[s][i].new_state_id.0 as int) < spec_table().len()
            &&& -crate::environment::MAX_ABS_REWARD <= spec_table()[s][i].reward.0
                <= crate::environment::MAX_ABS_REWARD
        } by {
        let c = decode(s as nat);
        lemma_encode_decode(s as nat);
        lemma_actions_applicable(c);
        let a = spec_actions(c)[i];
        let next = spec_apply(c, a);
        lemma_encode_bound(next);
        lemma_num_states();
    }
}

/// The two agents' rewards for one position are opposite.
pub proof fn lemma_rewards_mirrored(c: Seq<CellValue>)
    ensures
        spec_reward(c, 0) == -spec_reward(c, 1),
{
}

/// The table has an entry for every id below `max_state_id()`; a terminal position has no
/// transitions, any other one has one transition per legal action.
pub proof fn lemma_table_total()
    ensures
        spec_table().len() == NUM_STATES,
        forall|id: int|
            0 <= id < NUM_STATES ==> (#[trigger] spec_table()[id]).len() == spec_actions(
                decode(id as nat),
            ).len(),
        forall|id: int|
            0 <= id < NUM_STATES ==> ((#[trigger] spec_table()[id]).len() == 0 <==> spec_is_terminal(
                decode(id as nat),
            )),
{
    assert forall|id: int| 0 <= id < NUM_STATES implies ((#[trigger] spec_table()[id]).len() == 0
        <==> spec_is_terminal(decode(id as nat))) by {
        lemma_actions_iff_not_terminal(decode(id as nat));
    }
}

impl Environment for TicTacToeEnvironment {
    type State = TicTacToeState;

    type Action = TicTacToeAction;

    open spec fn is_legal(&self, action: &TicTacToeAction) -> bool {
        spec_can_apply(self.state@, *action) && action.cell_value != CellValue::Empty
    }

    open spec fn has_owner(&self, action: &TicTacToeAction) -> bool {
        action.cell_value != CellValue::Empty
    }

    fn state(&self) -> (r: &TicTacToeState)
        ensures
            r@ == self.state@,
    {
        &self.state
    }

    fn actions(&self) -> (r: Vec<TicTacToeAction>)
        ensures
            r@ == spec_actions(self.state@),
    {
        self.state.actions()
    }

    fn apply_action(&mut self, action: &TicTacToeAction) -> (r: RewardT)
        ensures
            final(self).state@ == spec_apply(old(self).state@, *action),
            r.0 == spec_reward(final(self).state@, spec_agent_of(action.cell_value)),
    {
        self.apply(action)
    }

    fn agent_id_for_action(&self, action: &TicTacToeAction) -> (r: AgentId)
        ensures
            r.0 == spec_agent_of(action.cell_value),
    {
        TicTacToeEnvironment::agent_for_action(action)
    }

    open spec fn spec_num_agents(&self) -> nat {
        NUM_AGENTS as nat
    }

    fn num_agents(&self) -> usize {
        NUM_AGENTS
    }
}

impl DPEnvironment for TicTacToeEnvironment {
    open spec fn spec_transitions(&self) -> Seq<Seq<StateTransition>> {
        spec_table()
    }

    fn state_transitions(&self) -> StateTransitionTable {
        self.transition_table()
    }
}

} // verus!
