use vstd::prelude::*;

verus! {

/// Largest magnitude of a single reward that an environment may hand out.
pub const MAX_ABS_REWARD: i64 = 1000;

/// A signed reward accrued by one agent as a consequence of one action.
#[derive(Debug, Clone, Copy, PartialEq, Eq, Structural)]
pub struct RewardT(pub i64);

/// A probability held exactly as the fraction `num / den`.
#[derive(Debug, Clone, Copy, PartialEq, Eq, Structural)]
pub struct ProbabilityT {
    pub num: u64,
    pub den: u64,
}

/// Identifier of a position: dense in `[0, N)` for an enumerable game.
#[derive(Debug, Clone, Copy, PartialEq, Eq, Structural, Hash)]
pub struct StateId(pub usize);

/// Identifier of an action under a fixed encoding of move shapes.
#[derive(Debug, Clone, Copy, PartialEq, Eq, Structural, Hash)]
pub struct ActionId(pub usize);

/// Identifier of one of the participants of a game.
#[derive(Debug, Clone, Copy, PartialEq, Eq, Structural, Hash)]
pub struct AgentId(pub usize);

pub trait State {
    fn is_terminal(&self) -> bool;

    fn id(&self) -> StateId;
}

pub trait Action {
    /// Whether the action's identifier fits its encoding.
    spec fn has_id(&self) -> bool;

    fn id(&self) -> ActionId
        requires
            self.has_id(),
    ;
}

pub trait Environment {
    type State: State;

    type Action: Action;

    /// Whether `action` may be applied to the current position.
    spec fn is_legal(&self, action: &Self::Action) -> bool;

    /// Whether some agent owns `action`.
    spec fn has_owner(&self, action: &Self::Action) -> bool;

    fn state(&self) -> &Self::State;

    fn actions(&self) -> Vec<Self::Action>;

    fn apply_action(&mut self, action: &Self::Action) -> RewardT
        requires
            old(self).is_legal(action),
    ;

    fn agent_id_for_action(&self, action: &Self::Action) -> AgentId
        requires
            self.has_owner(action),
    ;

    /// Number of agents taking part in the game.
    spec fn spec_num_agents(&self) -> nat;

    fn num_agents(&self) -> (r: usize)
        ensures
            r == self.spec_num_agents(),
    ;
}

/// One outgoing edge of a position: the source is the key that holds it.
#[derive(Debug, Clone, Copy, PartialEq, Eq, Structural)]
pub struct StateTransition {
    pub action_id: ActionId,
    pub new_state_id: StateId,
    pub reward: RewardT,
    pub prob: ProbabilityT,
    pub agent_id: AgentId,
}

/// The outgoing transitions of every position, indexed by position id.
/// An empty entry marks a terminal (absorbing) position.
pub type StateTransitionTable = Vec<Vec<StateTransition>>;

/// The table as a sequence of sequences.
pub open spec fn table_view(t: &StateTransitionTable) -> Seq<Seq<StateTransition>> {
    Seq::new(t@.len(), |i: int| t@[i]@)
}

/// Every transition leads to a position of the table, with a bounded reward.
pub open spec fn table_wf(t: Seq<Seq<StateTransition>>) -> bool {
    forall|s: int, i: int|
        0 <= s < t.len() && 0 <= i < t[s].len() ==> {
            &&& (t[s][i].new_state_id.0 as int) < t.len()
            &&& -MAX_ABS_REWARD <= t[s][i].reward.0 <= MAX_ABS_REWARD
        }
}

pub trait DPEnvironment: Environment {
    /// The complete transition model of the environment.
    spec fn spec_transitions(&self) -> Seq<Seq<StateTransition>>;

    /// The complete transition model: one entry per position id.
    fn state_transitions(&self) -> (r: StateTransitionTable)
        ensures
            table_view(&r) == self.spec_transitions(),
            table_wf(self.spec_transitions()),
    ;
}

} // verus!
