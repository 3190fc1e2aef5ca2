use vstd::prelude::*;

use crate::environment::{
    table_view, ActionId, DPEnvironment, ProbabilityT, StateId, StateTransition,
    StateTransitionTable,
};

verus! {

/// The listed actions of one position, each with its probability.
pub type PolicyEntries = Seq<(ActionId, ProbabilityT)>;

/// The probability listed first for action `a` among `es`, if any.
pub open spec fn entries_lookup(es: PolicyEntries, a: ActionId) -> Option<ProbabilityT>
    decreases es.len(),
{
    if es.len() == 0 {
        None
    } else if es[0].0 == a {
        Some(es[0].1)
    } else {
        entries_lookup(es.drop_first(), a)
    }
}

/// The probability listed for action `a` at position `s`, if any.
pub open spec fn spec_find(p: Seq<PolicyEntries>, s: int, a: ActionId) -> Option<ProbabilityT> {
    if 0 <= s < p.len() {
        entries_lookup(p[s], a)
    } else {
        None
    }
}

/// Probability zero.
pub open spec fn zero_prob() -> ProbabilityT {
    ProbabilityT { num: 0, den: 1 }
}

/// The probability of action `a` at position `s`: zero where nothing is listed.
pub open spec fn spec_prob(p: Seq<PolicyEntries>, s: int, a: ActionId) -> ProbabilityT {
    match spec_find(p, s, a) {
        Some(q) => q,
        None => zero_prob(),
    }
}

/// Each transition's action, with probability one over the number of transitions.
pub open spec fn uniform_entries(ts: Seq<StateTransition>) -> PolicyEntries {
    Seq::new(
        ts.len(),
        |i: int| (ts[i].action_id, ProbabilityT { num: 1, den: ts.len() as u64 }),
    )
}

/// The uniform policy of a transition table: positions without transitions list nothing.
pub open spec fn spec_uniform(t: Seq<Seq<StateTransition>>) -> Seq<PolicyEntries> {
    Seq::new(t.len(), |s: int| uniform_entries(t[s]))
}

/// The sum of the listed probabilities, each scaled by `d` (exact where `d` is a multiple of
/// every denominator).
pub open spec fn scaled_sum(es: PolicyEntries, d: int) -> int
    decreases es.len(),
{
    if es.len() == 0 {
        0
    } else {
        scaled_sum(es.drop_last(), d) + es.last().1.num * d / es.last().1.den as int
    }
}

/// A probability for each listed action of each position.
pub struct TabularPolicy {
    probs_table: Vec<Vec<(ActionId, ProbabilityT)>>,
}

impl View for TabularPolicy {
    type V = Seq<PolicyEntries>;

    closed spec fn view(&self) -> Seq<PolicyEntries> {
        Seq::new(self.probs_table@.len(), |s: int| self.probs_table@[s]@)
    }
}

/// The lookup finds the first listed entry of the action.
proof fn lemma_lookup_first(es: PolicyEntries, a: ActionId, i: int)
    requires
        0 <= i <= es.len(),
        forall|k: int| 0 <= k < i ==> (#[trigger] es[k]).0 != a,
    ensures
        i < es.len() && es[i].0 == a ==> entries_lookup(es, a) == Some(es[i].1),
        i == es.len() ==> entries_lookup(es, a) is None,
    decreases i,
{
    if i > 0 {
        let rest = es.drop_first();
        assert forall|k: int| 0 <= k < i - 1 implies (#[trigger] rest[k]).0 != a by {
            assert(rest[k] == es[k + 1]);
        }
        lemma_lookup_first(rest, a, i - 1);
    }
}

/// What the lookup finds is one of the listed probabilities.
pub proof fn lemma_lookup_listed(es: PolicyEntries, a: ActionId)
    ensures
        entries_lookup(es, a) matches Some(q) ==> exists|k: int|
            0 <= k < es.len() && (#[trigger] es[k]).1 == q,
    decreases es.len(),
{
    if es.len() > 0 && es[0].0 != a {
        let rest = es.drop_first();
        lemma_lookup_listed(rest, a);
        if let Some(q) = entries_lookup(rest, a) {
            let k = choose|k: int| 0 <= k < rest.len() && (#[trigger] rest[k]).1 == q;
            assert(es[k + 1] == rest[k]);
        }
    }
}

proof fn lemma_scaled_sum_uniform(es: PolicyEntries, d: u64)
    requires
        d > 0,
        forall|i: int| 0 <= i < es.len() ==> (#[trigger] es[i]).1 == (ProbabilityT { num: 1, den: d }),
    ensures
        scaled_sum(es, d as int) == es.len(),
    decreases es.len(),
{
    if es.len() > 0 {
        let rest = es.drop_last();
        assert forall|i: int| 0 <= i < rest.len() implies (#[trigger] rest[i]).1 == (ProbabilityT {
            num: 1,
            den: d,
        }) by {
            assert(rest[i] == es[i]);
        }
        lemma_scaled_sum_uniform(rest, d);
        assert(1 * (d as int) / (d as int) == 1) by (nonlinear_arith)
            requires
                d > 0,
        ;
    }
}

/// In a uniform policy, a position with `k >= 1` transitions lists `k` actions, each with
/// probability `1/k`, and these probabilities sum to one.
pub proof fn lemma_uniform_normalized(t: Seq<Seq<StateTransition>>, s: int)
    requires
        0 <= s < t.len(),
        t[s].len() >= 1,
        t[s].len() <= u64::MAX,
    ensures
        spec_uniform(t)[s].len() == t[s].len(),
        forall|i: int|
            0 <= i < spec_uniform(t)[s].len() ==> (#[trigger] spec_uniform(t)[s][i]).1 == (
            ProbabilityT { num: 1, den: t[s].len() as u64 }),
        scaled_sum(spec_uniform(t)[s], t[s].len() as int) == t[s].len(),
{
    lemma_scaled_sum_uniform(spec_uniform(t)[s], t[s].len() as u64);
}

/// A position without transitions lists nothing: every action there has probability zero.
pub proof fn lemma_uniform_terminal(t: Seq<Seq<StateTransition>>, s: int, a: ActionId)
    requires
        0 <= s < t.len(),
        t[s].len() == 0,
    ensures
        spec_uniform(t)[s].len() == 0,
        spec_prob(spec_uniform(t), s, a) == zero_prob(),
{
}

impl TabularPolicy {
    fn find_state_and_action(&self, state_id: StateId, action_id: ActionId) -> (r: Option<
        ProbabilityT,
    >)
        ensures
            r == spec_find(self@, state_id.0 as int, action_id),
    {
        if state_id.0 >= self.probs_table.len() {
            return None;
        }
        let entries = &self.probs_table[state_id.0];
        assert(entries@ == self@[state_id.0 as int]);
        let mut i: usize = 0;
        while i < entries.len()
            invariant
                0 <= i <= entries@.len(),
                state_id.0 < self@.len(),
                entries@ == self@[state_id.0 as int],
                forall|k: int| 0 <= k < i ==> (#[trigger] entries@[k]).0 != action_id,
            decreases entries@.len() - i,
        {
            if entries[i].0 == action_id {
                proof {
                    lemma_lookup_first(entries@, action_id, i as int);
                }
                return Some(entries[i].1);
            }
            i = i + 1;
        }
        proof {
            lemma_lookup_first(entries@, action_id, i as int);
        }
        None
    }

    /// The listed probability of the action at the position, zero where none is listed.
    pub fn probability_for_action(&self, state_id: StateId, action_id: ActionId) -> (r:
        ProbabilityT)
        ensures
            r == spec_prob(self@, state_id.0 as int, action_id),
    {
        match self.find_state_and_action(state_id, action_id) {
            Some(p) => p,
            None => ProbabilityT { num: 0, den: 1 },
        }
    }

    /// The uniform policy of a table: each action of a position with `k` transitions gets `1/k`.
    pub fn uniform_from_table(table: &StateTransitionTable) -> (r: TabularPolicy)
        ensures
            r@ == spec_uniform(table_view(table)),
    {
        let mut probs_table: Vec<Vec<(ActionId, ProbabilityT)>> = Vec::new();
        let mut s: usize = 0;
        while s < table.len()
            invariant
                0 <= s <= table@.len(),
                probs_table@.len() == s,
                forall|k: int|
                    0 <= k < s ==> #[trigger] probs_table@[k]@ == uniform_entries(table@[k]@),
            decreases table@.len() - s,
        {
            let transitions = &table[s];
            let mut entries: Vec<(ActionId, ProbabilityT)> = Vec::new();
            if transitions.len() > 0 {
                let policy_prob = ProbabilityT { num: 1, den: transitions.len() as u64 };
                let mut i: usize = 0;
                while i < transitions.len()
                    invariant
                        0 <= i <= transitions@.len(),
                        policy_prob == (ProbabilityT { num: 1, den: transitions@.len() as u64 }),
                        entries@.len() == i,
                        forall|k: int|
                            0 <= k < i ==> #[trigger] entries@[k] == (
                                transitions@[k].action_id,
                                policy_prob,
                            ),
                    decreases transitions@.len() - i,
                {
                    entries.push((transitions[i].action_id, policy_prob));
                    i = i + 1;
                }
            }
            assert(entries@ =~= uniform_entries(transitions@));
            probs_table.push(entries);
            s = s + 1;
        }
        let r = TabularPolicy { probs_table };
        assert(r@ =~= spec_uniform(table_view(table)));
        r
    }

    /// The uniform policy of the environment's transition model.
    pub fn create_uniform_policy<E: DPEnvironment>(env: &E) -> (r: TabularPolicy)
        ensures
            r@ == spec_uniform(env.spec_transitions()),
    {
        let table = env.state_transitions();
        TabularPolicy::uniform_from_table(&table)
    }
}

} // verus!
