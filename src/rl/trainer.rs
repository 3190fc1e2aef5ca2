use vstd::prelude::*;

use vstd::arithmetic::div_mod::{lemma_div_is_ordered, lemma_fundamental_div_mod};

use crate::environment::{
    table_view, table_wf, ActionId, AgentId, DPEnvironment, ProbabilityT, StateId,
    StateTransition, StateTransitionTable, MAX_ABS_REWARD,
};
use crate::rl::values::{array_values, ValueArray};
use crate::rl::policy::{
    lemma_lookup_listed, spec_prob, spec_uniform, uniform_entries, zero_prob,
    PolicyEntries, TabularPolicy,
};

verus! {

/// Fixed-point scale of the value function: a stored value `v` stands for `v / VALUE_SCALE`.
pub const VALUE_SCALE: i64 = 362880;

/// Largest number of epochs for which the value function is sure to fit its integers.
pub const MAX_EPOCHS: usize = 1000000000;

/// Largest change of a value in one sweep.
pub open spec fn step_bound() -> int {
    MAX_ABS_REWARD * VALUE_SCALE
}

/// Division rounded toward zero, as integer division does in Rust.
pub open spec fn trunc_div(x: int, d: int) -> int {
    if x >= 0 {
        x / d
    } else {
        -((-x) / d)
    }
}

/// The probability that the policy of agent `agent` gives action `a` at position `s`; zero for
/// an agent without a policy.
pub open spec fn policy_prob(pols: Seq<Seq<PolicyEntries>>, agent: int, s: int, a: ActionId) -> ProbabilityT {
    if 0 <= agent < pols.len() {
        spec_prob(pols[agent], s, a)
    } else {
        zero_prob()
    }
}

/// The contribution of one transition out of `s`: its probability, under the policy of the
/// agent that owns it, times its scaled reward plus the value of the position it leads to.
pub open spec fn backup_term(pols: Seq<Seq<PolicyEntries>>, s: int, t: StateTransition, v: Seq<int>) -> int {
    let p = policy_prob(pols, t.agent_id.0 as int, s, t.action_id);
    trunc_div(
        p.num * (t.reward.0 * VALUE_SCALE + v[t.new_state_id.0 as int]),
        p.den as int,
    )
}

/// The sum of the contributions of the first `n` transitions of `ts`.
pub open spec fn backup_sum(
    pols: Seq<Seq<PolicyEntries>>,
    s: int,
    ts: Seq<StateTransition>,
    v: Seq<int>,
    n: int,
) -> int
    decreases n,
{
    if n <= 0 {
        0
    } else {
        backup_sum(pols, s, ts, v, n - 1) + backup_term(pols, s, ts[n - 1], v)
    }
}

/// One sweep of policy evaluation: every position's new value is computed from the old values.
pub open spec fn sweep(t: Seq<Seq<StateTransition>>, pols: Seq<Seq<PolicyEntries>>, v: Seq<int>) -> Seq<int> {
    Seq::new(v.len(), |s: int| backup_sum(pols, s, t[s], v, t[s].len() as int))
}

/// The value function after `n` sweeps from all zeros.
pub open spec fn value_after(t: Seq<Seq<StateTransition>>, pols: Seq<Seq<PolicyEntries>>, n: nat) -> Seq<int>
    decreases n,
{
    if n == 0 {
        Seq::new(t.len(), |s: int| 0)
    } else {
        sweep(t, pols, value_after(t, pols, (n - 1) as nat))
    }
}

/// The values as integers.
pub open spec fn ints(v: Seq<i64>) -> Seq<int> {
    Seq::new(v.len(), |i: int| v[i] as int)
}

/// The policies, one per agent.
pub open spec fn policies_view(p: Seq<TabularPolicy>) -> Seq<Seq<PolicyEntries>> {
    Seq::new(p.len(), |i: int| p[i]@)
}

/// Every policy is the uniform policy of `t`.
pub open spec fn all_uniform(pols: Seq<Seq<PolicyEntries>>, t: Seq<Seq<StateTransition>>) -> bool {
    forall|a: int| 0 <= a < pols.len() ==> #[trigger] pols[a] == spec_uniform(t)
}

/// Every value lies within `b` of zero.
pub open spec fn bounded(v: Seq<int>, b: int) -> bool {
    forall|i: int| 0 <= i < v.len() ==> -b <= #[trigger] v[i] <= b
}

/// After zero epochs the value function is all zeros; each further epoch is one sweep of the
/// values of the epoch before.
pub proof fn lemma_epochs(t: Seq<Seq<StateTransition>>, pols: Seq<Seq<PolicyEntries>>, n: nat)
    ensures
        value_after(t, pols, 0).len() == t.len(),
        forall|s: int| 0 <= s < t.len() ==> #[trigger] value_after(t, pols, 0)[s] == 0,
        value_after(t, pols, n + 1) == sweep(t, pols, value_after(t, pols, n)),
{
}

/// The settings of a training run.
#[derive(Debug)]
pub struct DPTrainerConfig {
    num_epochs: usize,
}

impl DPTrainerConfig {
    pub closed spec fn spec_num_epochs(&self) -> nat {
        self.num_epochs as nat
    }

    pub fn new(num_epochs: usize) -> (r: DPTrainerConfig)
        ensures
            r.spec_num_epochs() == num_epochs,
    {
        DPTrainerConfig { num_epochs }
    }

    pub fn num_epochs(&self) -> (r: usize)
        ensures
            r == self.spec_num_epochs(),
    {
        self.num_epochs
    }
}

/// Under uniform policies, the probability of any transition is `1/k` or zero.
proof fn lemma_uniform_prob(
    pols: Seq<Seq<PolicyEntries>>,
    t: Seq<Seq<StateTransition>>,
    agent: int,
    s: int,
    a: ActionId,
)
    requires
        all_uniform(pols, t),
        0 <= s < t.len(),
    ensures
        policy_prob(pols, agent, s, a) == zero_prob() || policy_prob(pols, agent, s, a) == (
        ProbabilityT { num: 1, den: t[s].len() as u64 }),
{
    if 0 <= agent < pols.len() {
        assert(pols[agent] == spec_uniform(t));
        let es = uniform_entries(t[s]);
        assert(spec_uniform(t)[s] == es);
        lemma_lookup_listed(es, a);
    }
}

/// The contribution of one transition is at most `m / k` where `m` bounds what it scales.
proof fn lemma_term_bound(x: int, p: ProbabilityT, k: int, m: int)
    requires
        k >= 1,
        -m <= x <= m,
        p == zero_prob() || (p.num == 1 && p.den == k),
    ensures
        -(m / k) <= trunc_div(p.num * x, p.den as int) <= m / k,
{
    if p.num == 0 {
        assert(p.num * x == 0);
        assert(0 <= m / k) by {
            lemma_div_is_ordered(0, m, k);
        }
    } else {
        assert(p.num * x == x);
        if x >= 0 {
            lemma_div_is_ordered(x, m, k);
        } else {
            lemma_div_is_ordered(-x, m, k);
        }
    }
}

/// `n` contributions of at most `m / k` each, with `n <= k`, stay within `m`.
proof fn lemma_sum_bound(n: int, k: int, m: int)
    requires
        0 <= n <= k,
        k >= 1,
        m >= 0,
    ensures
        n * (m / k) <= m,
        0 <= n * (m / k),
{
    lemma_fundamental_div_mod(m, k);
    assert(0 <= m / k) by {
        lemma_div_is_ordered(0, m, k);
    }
    assert(n * (m / k) <= k * (m / k)) by (nonlinear_arith)
        requires
            n <= k,
            0 <= m / k,
    ;
    assert(0 <= n * (m / k)) by (nonlinear_arith)
        requires
            0 <= n,
            0 <= m / k,
    ;
}

fn trunc_div_exec(x: i128, d: i128) -> (r: i128)
    requires
        d > 0,
        x > i128::MIN,
    ensures
        r == trunc_div(x as int, d as int),
{
    if x >= 0 {
        x / d
    } else {
        -((-x) / d)
    }
}

/// The probability that the owning agent's policy gives the action.
fn agent_prob(policies: &Vec<TabularPolicy>, agent_id: AgentId, state_id: StateId, action_id: ActionId) -> (r:
    ProbabilityT)
    ensures
        r == policy_prob(policies_view(policies@), agent_id.0 as int, state_id.0 as int, action_id),
{
    if agent_id.0 < policies.len() {
        policies[agent_id.0].probability_for_action(state_id, action_id)
    } else {
        ProbabilityT { num: 0, den: 1 }
    }
}

/// The new value of one position: the sum of the contributions of its transitions.
fn backup(
    policies: &Vec<TabularPolicy>,
    table: &StateTransitionTable,
    values: &ValueArray,
    s: usize,
    Ghost(b): Ghost<int>,
) -> (r: i64)
    requires
        table_wf(table_view(table)),
        s < table@.len(),
        table@[s as int]@.len() >= 1,
        array_values(*values).len() == table@.len(),
        all_uniform(policies_view(policies@), table_view(table)),
        bounded(ints(array_values(*values)), b),
        0 <= b <= MAX_EPOCHS * step_bound(),
    ensures
        r == backup_sum(
            policies_view(policies@),
            s as int,
            table_view(table)[s as int],
            ints(array_values(*values)),
            table@[s as int]@.len() as int,
        ),
        -(b + step_bound()) <= r <= b + step_bound(),
{
    let ghost t = table_view(table);
    let ghost pols = policies_view(policies@);
    let ghost v = ints(array_values(*values));
    let ghost m = b + step_bound();
    let transitions = &table[s];
    let k = transitions.len();
    let ghost q = m / k as int;
    assert(transitions@ == t[s as int]);
    let mut acc: i64 = 0;
    let mut i: usize = 0;
    while i < k
        invariant
            0 <= i <= k,
            k == transitions@.len(),
            k >= 1,
            transitions@ == t[s as int],
            s < t.len(),
            t == table_view(table),
            table_wf(t),
            array_values(*values).len() == t.len(),
            pols == policies_view(policies@),
            v == ints(array_values(*values)),
            all_uniform(pols, t),
            bounded(v, b),
            m == b + step_bound(),
            0 <= b <= MAX_EPOCHS * step_bound(),
            acc == backup_sum(pols, s as int, t[s as int], v, i as int),
            q == m / k as int,
            -(i * q) <= acc <= i * q,
        decreases k - i,
    {
        let tr = transitions[i];
        assert(tr == t[s as int][i as int]);
        let next = tr.new_state_id.0;
        let p = agent_prob(policies, tr.agent_id, StateId(s), tr.action_id);
        proof {
            lemma_uniform_prob(pols, t, tr.agent_id.0 as int, s as int, tr.action_id);
            assert(k as u64 == k);
            assert(v[next as int] == array_values(*values)[next as int]);
            assert(-b <= v[next as int] <= b);
        }
        let x: i128 = (tr.reward.0 as i128) * (VALUE_SCALE as i128) + (values.get(next) as i128);
        proof {
            assert(-(MAX_ABS_REWARD * VALUE_SCALE) <= tr.reward.0 * VALUE_SCALE
                <= MAX_ABS_REWARD * VALUE_SCALE) by (nonlinear_arith)
                requires
                    -MAX_ABS_REWARD <= tr.reward.0 <= MAX_ABS_REWARD,
            ;
            lemma_term_bound(x as int, p, k as int, m);
            lemma_sum_bound(i + 1, k as int, m);
            assert((i + 1) * q == i * q + q) by (nonlinear_arith);
        }
        let y: i128 = (p.num as i128) * x;
        let term = trunc_div_exec(y, p.den as i128);
        acc = acc + (term as i64);
        i = i + 1;
    }
    proof {
        lemma_sum_bound(k as int, k as int, m);
    }
    acc
}

/// One sweep of policy evaluation, reading the old values and writing new ones.
fn evaluate_policies(
    policies: &Vec<TabularPolicy>,
    table: &StateTransitionTable,
    values: &ValueArray,
    Ghost(b): Ghost<int>,
) -> (r: ValueArray)
    requires
        table_wf(table_view(table)),
        array_values(*values).len() == table@.len(),
        all_uniform(policies_view(policies@), table_view(table)),
        bounded(ints(array_values(*values)), b),
        0 <= b <= MAX_EPOCHS * step_bound(),
    ensures
        ints(array_values(r)) == sweep(
            table_view(table),
            policies_view(policies@),
            ints(array_values(*values)),
        ),
        bounded(ints(array_values(r)), b + step_bound()),
{
    let mut new_values: Vec<i64> = Vec::new();
    let mut s: usize = 0;
    while s < table.len()
        invariant
            0 <= s <= table@.len(),
            table_wf(table_view(table)),
            array_values(*values).len() == table@.len(),
            all_uniform(policies_view(policies@), table_view(table)),
            bounded(ints(array_values(*values)), b),
            0 <= b <= MAX_EPOCHS * step_bound(),
            new_values@.len() == s,
            forall|j: int|
                0 <= j < s ==> #[trigger] ints(new_values@)[j] == sweep(
                    table_view(table),
                    policies_view(policies@),
                    ints(array_values(*values)),
                )[j],
            bounded(ints(new_values@), b + step_bound()),
        decreases table@.len() - s,
    {
        let ghost expected = sweep(
            table_view(table),
            policies_view(policies@),
            ints(array_values(*values)),
        );
        assert(table@[s as int]@ == table_view(table)[s as int]);
        let value = if table[s].len() == 0 {
            0
        } else {
            backup(policies, table, values, s, Ghost(b))
        };
        assert(value == expected[s as int]);
        let ghost before = new_values@;
        new_values.push(value);
        proof {
            assert forall|j: int| 0 <= j <= s implies #[trigger] ints(new_values@)[j]
                == expected[j] by {
                if j < s {
                    assert(new_values@[j] == before[j]);
                    assert(ints(before)[j] == expected[j]);
                }
            }
            assert forall|j: int| 0 <= j < new_values@.len() implies -(b + step_bound())
                <= #[trigger] ints(new_values@)[j] <= b + step_bound() by {
                if j < s {
                    assert(new_values@[j] == before[j]);
                    assert(ints(before)[j] == before[j]);
                }
            }
        }
        s = s + 1;
    }
    assert(ints(new_values@) =~= sweep(
        table_view(table),
        policies_view(policies@),
        ints(array_values(*values)),
    ));
    ValueArray::from_vec(new_values)
}

/// A dynamic-programming trainer: one policy per agent, and the value function of the last
/// training run, indexed by position id.
pub struct DPTrainer<E: DPEnvironment> {
    env: E,
    config: DPTrainerConfig,
    policies: Vec<TabularPolicy>,
    value_function: ValueArray,
}

impl<E: DPEnvironment> DPTrainer<E> {
    pub closed spec fn spec_env(&self) -> E {
        self.env
    }

    pub closed spec fn spec_num_epochs(&self) -> nat {
        self.config.spec_num_epochs()
    }

    /// The policies, one per agent.
    pub closed spec fn spec_policies(&self) -> Seq<Seq<PolicyEntries>> {
        policies_view(self.policies@)
    }

    /// The value function, each value scaled by `VALUE_SCALE`.
    pub closed spec fn spec_values(&self) -> Seq<int> {
        ints(array_values(self.value_function))
    }

    /// Every policy is the uniform policy of the environment's transition model.
    pub open spec fn wf(&self) -> bool {
        all_uniform(self.spec_policies(), self.spec_env().spec_transitions())
    }

    /// A trainer with the uniform policy for each agent, and an empty value function.
    pub fn init_with_uniform_policies(env: E, config: DPTrainerConfig) -> (r: DPTrainer<E>)
        ensures
            r.wf(),
            r.spec_env() == env,
            r.spec_num_epochs() == config.spec_num_epochs(),
            r.spec_policies() == Seq::new(
                env.spec_num_agents(),
                |a: int| spec_uniform(env.spec_transitions()),
            ),
            r.spec_values() == Seq::<int>::empty(),
    {
        let num_agents = env.num_agents();
        let mut policies: Vec<TabularPolicy> = Vec::new();
        let mut a: usize = 0;
        while a < num_agents
            invariant
                0 <= a <= num_agents,
                num_agents == env.spec_num_agents(),
                policies@.len() == a,
                forall|i: int|
                    0 <= i < a ==> #[trigger] policies@[i]@ == spec_uniform(env.spec_transitions()),
            decreases num_agents - a,
        {
            policies.push(TabularPolicy::create_uniform_policy(&env));
            a = a + 1;
        }
        let r = DPTrainer { env, config, policies, value_function: ValueArray::from_vec(Vec::new()) };
        assert(r.spec_policies() =~= Seq::new(
            env.spec_num_agents(),
            |a: int| spec_uniform(env.spec_transitions()),
        ));
        assert(r.spec_values() =~= Seq::<int>::empty());
        r
    }

    /// Evaluates the policies for the configured number of epochs, from a zero value function,
    /// with one sweep per epoch that reads only the previous epoch's values.
    pub fn train(&mut self)
        requires
            old(self).wf(),
            old(self).spec_num_epochs() <= MAX_EPOCHS,
        ensures
            final(self).wf(),
            final(self).spec_env() == old(self).spec_env(),
            final(self).spec_num_epochs() == old(self).spec_num_epochs(),
            final(self).spec_policies() == old(self).spec_policies(),
            final(self).spec_values() == value_after(
                old(self).spec_env().spec_transitions(),
                old(self).spec_policies(),
                old(self).spec_num_epochs(),
            ),
    {
        let table = self.env.state_transitions();
        let ghost t = table_view(&table);
        let ghost pols = self.spec_policies();
        let mut zeros: Vec<i64> = Vec::new();
        let mut s: usize = 0;
        while s < table.len()
            invariant
                0 <= s <= table@.len(),
                zeros@.len() == s,
                forall|j: int| 0 <= j < s ==> #[trigger] zeros@[j] == 0,
            decreases table@.len() - s,
        {
            zeros.push(0);
            s = s + 1;
        }
        let mut values = ValueArray::from_vec(zeros);
        assert(ints(array_values(values)) =~= value_after(t, pols, 0));
        let num_epochs = self.config.num_epochs();
        let mut epoch: usize = 0;
        while epoch < num_epochs
            invariant
                0 <= epoch <= num_epochs,
                num_epochs <= MAX_EPOCHS,
                t == table_view(&table),
                table_wf(t),
                pols == policies_view(self.policies@),
                all_uniform(pols, t),
                array_values(values).len() == table@.len(),
                ints(array_values(values)) == value_after(t, pols, epoch as nat),
                bounded(ints(array_values(values)), epoch * step_bound()),
            decreases num_epochs - epoch,
        {
            proof {
                assert(epoch * step_bound() <= MAX_EPOCHS * step_bound()) by (nonlinear_arith)
                    requires
                        epoch <= MAX_EPOCHS,
                        step_bound() >= 0,
                ;
                assert((epoch + 1) * step_bound() == epoch * step_bound() + step_bound())
                    by (nonlinear_arith);
                assert(0 <= epoch * step_bound()) by (nonlinear_arith)
                    requires
                        step_bound() >= 0,
                ;
            }
            values = evaluate_policies(&self.policies, &table, &values, Ghost(epoch * step_bound()));
            assert(ints(array_values(values)).len() == array_values(values).len());
            epoch = epoch + 1;
        }
        self.value_function = values;
    }

    /// The value function of the last training run, each value scaled by `VALUE_SCALE`.
    pub fn value_function(&self) -> (r: Vec<i64>)
        ensures
            ints(r@) == self.spec_values(),
    {
        let n = self.value_function.len();
        let mut out: Vec<i64> = Vec::new();
        let mut i: usize = 0;
        while i < n
            invariant
                0 <= i <= n,
                n == array_values(self.value_function).len(),
                out@ == array_values(self.value_function).take(i as int),
            decreases n - i,
        {
            out.push(self.value_function.get(i));
            assert(array_values(self.value_function).take(i + 1) =~= out@);
            i = i + 1;
        }
        assert(array_values(self.value_function).take(n as int) =~= array_values(
            self.value_function,
        ));
        out
    }

    /// The policies, one per agent.
    pub fn policies(&self) -> (r: &Vec<TabularPolicy>)
        ensures
            policies_view(r@) == self.spec_policies(),
    {
        &self.policies
    }
}

} // verus!
