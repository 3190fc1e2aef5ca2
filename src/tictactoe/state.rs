use vstd::prelude::*;

use vstd::arithmetic::div_mod::{
    lemma_div_denominator, lemma_div_multiples_vanish_fancy, lemma_mod_breakdown,
    lemma_mod_multiples_vanish, lemma_small_mod,
};

use crate::environment::{State, StateId};
use crate::tictactoe::action::TicTacToeAction;
use crate::tictactoe::cell::{CellValue, CellValueId};

verus! {

/// Side length of the square board.
pub const GRID_SIZE: usize = 3;

/// Number of cells of the board.
pub const NUM_CELLS: usize = 9;

/// Number of encodable positions: one digit per cell, three values per digit.
pub const NUM_STATES: usize = 19683;

/// A position of the board. The cells run from left to right, from top to bottom.
#[derive(Debug, Clone, Copy)]
pub struct TicTacToeState {
    pub cells: [CellValue; 9],
}

impl View for TicTacToeState {
    type V = Seq<CellValue>;

    open spec fn view(&self) -> Seq<CellValue> {
        self.cells@
    }
}

/// `3` to the power `k`.
pub open spec fn pow3(k: nat) -> nat
    decreases k,
{
    if k == 0 {
        1
    } else {
        3 * pow3((k - 1) as nat)
    }
}

/// The value that wins the line through cells `a`, `b` and `d`, or `Empty`.
pub open spec fn line_winner(c: Seq<CellValue>, a: int, b: int, d: int) -> CellValue {
    if c[a].spec_is_set() && c[b] == c[a] && c[d] == c[a] {
        c[a]
    } else {
        CellValue::Empty
    }
}

pub open spec fn row_winner(c: Seq<CellValue>, i: int) -> CellValue {
    line_winner(c, 3 * i, 3 * i + 1, 3 * i + 2)
}

pub open spec fn column_winner(c: Seq<CellValue>, i: int) -> CellValue {
    line_winner(c, i, i + 3, i + 6)
}

/// The winning value, looking at the rows, then the columns, then the two diagonals.
pub open spec fn spec_winner(c: Seq<CellValue>) -> CellValue {
    if row_winner(c, 0) != CellValue::Empty {
        row_winner(c, 0)
    } else if row_winner(c, 1) != CellValue::Empty {
        row_winner(c, 1)
    } else if row_winner(c, 2) != CellValue::Empty {
        row_winner(c, 2)
    } else if column_winner(c, 0) != CellValue::Empty {
        column_winner(c, 0)
    } else if column_winner(c, 1) != CellValue::Empty {
        column_winner(c, 1)
    } else if column_winner(c, 2) != CellValue::Empty {
        column_winner(c, 2)
    } else if line_winner(c, 0, 4, 8) != CellValue::Empty {
        line_winner(c, 0, 4, 8)
    } else {
        line_winner(c, 2, 4, 6)
    }
}

pub open spec fn spec_all_set(c: Seq<CellValue>) -> bool {
    forall|i: int| 0 <= i < c.len() ==> (#[trigger] c[i]).spec_is_set()
}

pub open spec fn spec_is_terminal(c: Seq<CellValue>) -> bool {
    spec_winner(c) != CellValue::Empty || spec_all_set(c)
}

/// Number of cells that hold a mark.
pub open spec fn count_set(c: Seq<CellValue>) -> nat
    decreases c.len(),
{
    if c.len() == 0 {
        0
    } else {
        count_set(c.drop_last()) + if c.last().spec_is_set() {
            1nat
        } else {
            0nat
        }
    }
}

/// The value that the next move writes: crosses move first; `Empty` once the game is over.
pub open spec fn spec_next_value(c: Seq<CellValue>) -> CellValue {
    if spec_is_terminal(c) {
        CellValue::Empty
    } else if count_set(c) % 2 == 0 {
        CellValue::Cross
    } else {
        CellValue::Circle
    }
}

/// The indices below `n` of the cells without a mark, in increasing order.
pub open spec fn empty_indices(c: Seq<CellValue>, n: int) -> Seq<usize>
    decreases n,
{
    if n <= 0 {
        Seq::empty()
    } else if c[n - 1].spec_is_set() {
        empty_indices(c, n - 1)
    } else {
        empty_indices(c, n - 1).push((n - 1) as usize)
    }
}

/// Writing `v` into cell `i`.
pub open spec fn place(v: CellValue, i: usize) -> TicTacToeAction {
    TicTacToeAction { cell_value: v, cell_index: i }
}

/// The legal actions of a position: the next value into each empty cell; none when terminal.
pub open spec fn spec_actions(c: Seq<CellValue>) -> Seq<TicTacToeAction> {
    if spec_is_terminal(c) {
        Seq::empty()
    } else {
        empty_indices(c, c.len() as int).map_values(|i: usize| place(spec_next_value(c), i))
    }
}

/// The position after writing the action's value into its cell.
pub open spec fn spec_apply(c: Seq<CellValue>, a: TicTacToeAction) -> Seq<CellValue> {
    c.update(a.cell_index as int, a.cell_value)
}

/// Whether `a` may be applied to `c`: the game goes on and the cell is free.
pub open spec fn spec_can_apply(c: Seq<CellValue>, a: TicTacToeAction) -> bool {
    &&& !spec_is_terminal(c)
    &&& a.cell_index < c.len()
    &&& !c[a.cell_index as int].spec_is_set()
}

/// The id of a position: a base-3 numeral whose least significant digit is the first cell.
pub open spec fn encode(c: Seq<CellValue>) -> nat
    decreases c.len(),
{
    if c.len() == 0 {
        0
    } else {
        encode(c.drop_last()) + c.last().spec_value_id() * pow3((c.len() - 1) as nat)
    }
}

/// The digit of cell `i` in the id `id`.
pub open spec fn digit(id: nat, i: nat) -> nat {
    (id / pow3(i)) % 3
}

/// The first `k` cells of the position with id `id`.
pub open spec fn decode_prefix(id: nat, k: nat) -> Seq<CellValue> {
    Seq::new(k, |i: int| CellValue::spec_value_with_id(digit(id, i as nat) as int))
}

/// The position with id `id`.
pub open spec fn decode(id: nat) -> Seq<CellValue> {
    decode_prefix(id, NUM_CELLS as nat)
}

pub proof fn lemma_pow3_positive(k: nat)
    ensures
        pow3(k) > 0,
    decreases k,
{
    if k > 0 {
        lemma_pow3_positive((k - 1) as nat);
    }
}

pub proof fn lemma_num_states()
    ensures
        pow3(NUM_CELLS as nat) == NUM_STATES,
{
    reveal_with_fuel(pow3, 10);
}

/// An id is smaller than three to the number of cells.
pub proof fn lemma_encode_bound(c: Seq<CellValue>)
    ensures
        encode(c) < pow3(c.len()),
    decreases c.len(),
{
    if c.len() > 0 {
        let n = (c.len() - 1) as nat;
        lemma_encode_bound(c.drop_last());
        lemma_pow3_positive(n);
        let v = c.last().spec_value_id();
        assert(v * pow3(n) <= 2 * pow3(n)) by (nonlinear_arith)
            requires
                v <= 2,
        ;
    }
}

/// Encoding the first `k` decoded digits gives the id modulo `3^k`.
pub proof fn lemma_encode_decode_prefix(id: nat, k: nat)
    ensures
        encode(decode_prefix(id, k)) == id % pow3(k),
    decreases k,
{
    if k == 0 {
        assert(id % 1 == 0);
    } else {
        let j = (k - 1) as nat;
        let p = decode_prefix(id, k);
        assert(p.drop_last() =~= decode_prefix(id, j));
        lemma_encode_decode_prefix(id, j);
        lemma_pow3_positive(j);
        let d = digit(id, j);
        assert(p.last().spec_value_id() == d);
        lemma_mod_breakdown(id as int, pow3(j) as int, 3);
        assert(pow3(k) == pow3(j) * 3);
    }
}

/// Encoding a decoded id gives the id back.
pub proof fn lemma_encode_decode(id: nat)
    requires
        id < NUM_STATES,
    ensures
        encode(decode(id)) == id,
        decode(id).len() == NUM_CELLS,
{
    lemma_encode_decode_prefix(id, NUM_CELLS as nat);
    lemma_num_states();
    lemma_small_mod(id, NUM_STATES as nat);
}

/// Encoding and decoding are mutual inverses: every id below `max_state_id()` survives a decode
/// and an encode, every position survives an encode and a decode; the empty board has id zero.
pub proof fn lemma_ids_bijective(id: nat, c: Seq<CellValue>)
    requires
        id < NUM_STATES,
        c.len() == NUM_CELLS,
    ensures
        encode(decode(id)) == id,
        encode(c) < NUM_STATES,
        encode(decode(encode(c))) == encode(c),
        decode(encode(c)) == c,
        encode(Seq::new(NUM_CELLS as nat, |i: int| CellValue::Empty)) == 0,
{
    lemma_encode_decode(id);
    lemma_encode_bound(c);
    lemma_num_states();
    lemma_encode_decode(encode(c));
    lemma_decode_encode(c);
    lemma_encode_empty(Seq::new(NUM_CELLS as nat, |i: int| CellValue::Empty));
}

proof fn lemma_pow3_add(a: nat, b: nat)
    ensures
        pow3(a + b) == pow3(a) * pow3(b),
    decreases b,
{
    if b == 0 {
        assert(pow3(0) == 1);
    } else {
        lemma_pow3_add(a, (b - 1) as nat);
        assert(pow3(a + b) == 3 * pow3((a + b - 1) as nat));
        assert(pow3(b) == 3 * pow3((b - 1) as nat));
        assert(pow3(a) * (3 * pow3((b - 1) as nat)) == 3 * (pow3(a) * pow3((b - 1) as nat)))
            by (nonlinear_arith);
    }
}

/// An id splits into the id of its first `j` cells and that of the rest, shifted by `3^j`.
proof fn lemma_encode_split(c: Seq<CellValue>, j: int)
    requires
        0 <= j <= c.len(),
    ensures
        encode(c) == encode(c.take(j)) + pow3(j as nat) * encode(c.skip(j)),
    decreases c.len(),
{
    if c.len() == j {
        assert(c.take(j) =~= c);
        assert(c.skip(j).len() == 0);
        assert(encode(c.skip(j)) == 0);
    } else {
        let n = c.len();
        let dl = c.drop_last();
        let v = c.last().spec_value_id();
        lemma_encode_split(dl, j);
        assert(dl.take(j) =~= c.take(j));
        assert(c.skip(j).drop_last() =~= dl.skip(j));
        assert(c.skip(j).last() == c.last());
        assert(encode(c.skip(j)) == encode(dl.skip(j)) + v * pow3((n - 1 - j) as nat));
        lemma_pow3_add(j as nat, (n - 1 - j) as nat);
        assert(pow3((n - 1) as nat) == pow3(j as nat) * pow3((n - 1 - j) as nat));
        let pj = pow3(j as nat);
        let e = encode(dl.skip(j));
        let q = pow3((n - 1 - j) as nat);
        assert(pj * (e + v * q) == pj * e + v * (pj * q)) by (nonlinear_arith);
    }
}

/// The digit of cell `i` in the id of a position is the value of that cell.
proof fn lemma_digit_of_encode(c: Seq<CellValue>, i: int)
    requires
        0 <= i < c.len(),
    ensures
        digit(encode(c), i as nat) == c[i].spec_value_id(),
{
    let low = c.take(i);
    let v = c[i].spec_value_id() as int;
    let rest = encode(c.skip(i + 1)) as int;
    let p = pow3(i as nat) as int;
    lemma_encode_split(c, i + 1);
    let t = c.take(i + 1);
    assert(t.drop_last() =~= low);
    assert(t.last() == c[i]);
    lemma_encode_bound(low);
    lemma_pow3_positive(i as nat);
    assert(pow3((i + 1) as nat) == 3 * p);
    let x = v + 3 * rest;
    assert(encode(c) == encode(low) + p * x) by (nonlinear_arith)
        requires
            encode(c) == encode(low) + v * p + (3 * p) * rest,
            x == v + 3 * rest,
    ;
    lemma_div_multiples_vanish_fancy(x, encode(low) as int, p);
    lemma_mod_multiples_vanish(rest, v, 3);
    lemma_small_mod(v as nat, 3);
}

/// Decoding the id of a position gives the position back.
pub proof fn lemma_decode_encode(c: Seq<CellValue>)
    requires
        c.len() == NUM_CELLS,
    ensures
        decode(encode(c)) == c,
{
    assert forall|i: int| 0 <= i < NUM_CELLS implies #[trigger] decode(encode(c))[i] == c[i] by {
        lemma_digit_of_encode(c, i);
    }
    assert(decode(encode(c)) =~= c);
}

proof fn lemma_encode_empty(c: Seq<CellValue>)
    requires
        forall|i: int| 0 <= i < c.len() ==> #[trigger] c[i] == CellValue::Empty,
    ensures
        encode(c) == 0,
    decreases c.len(),
{
    if c.len() > 0 {
        lemma_encode_empty(c.drop_last());
    }
}

/// Decoding one id twice gives positions equal cell by cell.
pub proof fn lemma_decode_twice(id: nat, a: TicTacToeState, b: TicTacToeState)
    requires
        a@ == decode(id),
        b@ == decode(id),
    ensures
        forall|i: int| 0 <= i < NUM_CELLS ==> #[trigger] a@[i] == b@[i],
{
}

proof fn lemma_has_empty_index(c: Seq<CellValue>, n: int, i: int)
    requires
        0 <= i < n <= c.len(),
        !c[i].spec_is_set(),
    ensures
        empty_indices(c, n).len() > 0,
    decreases n,
{
    if i < n - 1 {
        lemma_has_empty_index(c, n - 1, i);
    }
}

/// A position has legal actions exactly when it is not terminal.
pub proof fn lemma_actions_iff_not_terminal(c: Seq<CellValue>)
    requires
        c.len() == NUM_CELLS,
    ensures
        spec_actions(c).len() == 0 <==> spec_is_terminal(c),
{
    if !spec_is_terminal(c) {
        let i = choose|i: int| 0 <= i < c.len() && !(#[trigger] c[i]).spec_is_set();
        lemma_has_empty_index(c, c.len() as int, i);
    }
}

proof fn lemma_empty_indices(c: Seq<CellValue>, n: int)
    requires
        0 <= n <= c.len(),
        c.len() <= NUM_CELLS,
    ensures
        forall|j: int|
            0 <= j < empty_indices(c, n).len() ==> {
                &&& (#[trigger] empty_indices(c, n)[j] as int) < n
                &&& !c[empty_indices(c, n)[j] as int].spec_is_set()
            },
        empty_indices(c, n).len() <= n,
    decreases n,
{
    if n > 0 {
        lemma_empty_indices(c, n - 1);
        let p = empty_indices(c, n - 1);
        if !c[n - 1].spec_is_set() {
            let q = p.push((n - 1) as usize);
            assert forall|j: int| 0 <= j < q.len() implies {
                &&& (#[trigger] q[j] as int) < n
                &&& !c[q[j] as int].spec_is_set()
            } by {
                if j < p.len() {
                    assert(q[j] == p[j]);
                }
            }
        }
    }
}

/// Every listed action of a position can be applied to it, by an agent that owns it.
pub proof fn lemma_actions_applicable(c: Seq<CellValue>)
    requires
        c.len() == NUM_CELLS,
    ensures
        spec_actions(c).len() <= c.len(),
        forall|j: int|
            0 <= j < spec_actions(c).len() ==> {
                &&& spec_can_apply(c, #[trigger] spec_actions(c)[j])
                &&& spec_actions(c)[j].cell_value != CellValue::Empty
            },
{
    lemma_empty_indices(c, c.len() as int);
}

impl TicTacToeState {
    /// The value that the next move writes.
    pub fn next_cell_value(&self) -> (r: CellValue)
        ensures
            r == spec_next_value(self@),
    {
        if self.is_game_over() {
            return CellValue::Empty;
        }
        let mut num_set_cells: usize = 0;
        let mut i: usize = 0;
        while i < NUM_CELLS
            invariant
                0 <= i <= NUM_CELLS,
                self@.len() == NUM_CELLS,
                num_set_cells == count_set(self@.take(i as int)),
                num_set_cells <= i,
            decreases NUM_CELLS - i,
        {
            assert(self@.take(i + 1).drop_last() =~= self@.take(i as int));
            if self.cells[i].is_set() {
                num_set_cells = num_set_cells + 1;
            }
            i = i + 1;
        }
        assert(self@.take(NUM_CELLS as int) =~= self@);
        if num_set_cells % 2 == 0 {
            CellValue::Cross
        } else {
            CellValue::Circle
        }
    }

    /// Whether every cell holds a mark.
    pub fn all_cells_set(&self) -> (r: bool)
        ensures
            r == spec_all_set(self@),
    {
        let mut i: usize = 0;
        while i < NUM_CELLS
            invariant
                0 <= i <= NUM_CELLS,
                self@.len() == NUM_CELLS,
                forall|j: int| 0 <= j < i ==> (#[trigger] self@[j]).spec_is_set(),
            decreases NUM_CELLS - i,
        {
            if !self.cells[i].is_set() {
                return false;
            }
            i = i + 1;
        }
        true
    }

    fn line_winner(&self, a: usize, b: usize, d: usize) -> (r: CellValue)
        requires
            a < NUM_CELLS,
            b < NUM_CELLS,
            d < NUM_CELLS,
        ensures
            r == line_winner(self@, a as int, b as int, d as int),
    {
        let first_cell = self.cells[a];
        if first_cell.is_set() && self.cells[b] == first_cell && self.cells[d] == first_cell {
            first_cell
        } else {
            CellValue::Empty
        }
    }

    /// The value that fills a full row, column or diagonal; `Empty` if none does.
    pub fn has_winning_value(&self) -> (r: CellValue)
        ensures
            r == spec_winner(self@),
    {
        // Check rows.
        let mut i: usize = 0;
        while i < GRID_SIZE
            invariant
                0 <= i <= GRID_SIZE,
                forall|j: int| 0 <= j < i ==> row_winner(self@, j) == CellValue::Empty,
            decreases GRID_SIZE - i,
        {
            let w = self.line_winner(i * GRID_SIZE, i * GRID_SIZE + 1, i * GRID_SIZE + 2);
            if w != CellValue::Empty {
                return w;
            }
            i = i + 1;
        }
        // Check columns.
        let mut i: usize = 0;
        while i < GRID_SIZE
            invariant
                0 <= i <= GRID_SIZE,
                forall|j: int| 0 <= j < GRID_SIZE ==> row_winner(self@, j) == CellValue::Empty,
                forall|j: int| 0 <= j < i ==> column_winner(self@, j) == CellValue::Empty,
            decreases GRID_SIZE - i,
        {
            let w = self.line_winner(i, i + GRID_SIZE, i + 2 * GRID_SIZE);
            if w != CellValue::Empty {
                return w;
            }
            i = i + 1;
        }
        // Check the main diagonal, then the other one.
        let w = self.line_winner(0, 4, 8);
        if w != CellValue::Empty {
            return w;
        }
        self.line_winner(2, 4, 6)
    }

    /// The position after the action; the game must go on and the cell must be free.
    pub fn apply_action(&self, action: &TicTacToeAction) -> (r: TicTacToeState)
        requires
            spec_can_apply(self@, *action),
        ensures
            r@ == spec_apply(self@, *action),
    {
        let mut new_cells = self.cells;
        new_cells[action.index()] = action.value();
        TicTacToeState { cells: new_cells }
    }

    /// The position with the given id; `None` when the id is not below `max_state_id()`.
    pub fn create_state_with_id(state_id: StateId) -> (r: Option<TicTacToeState>)
        ensures
            r is Some <==> state_id.0 < NUM_STATES,
            r matches Some(s) ==> s@ == decode(state_id.0 as nat),
    {
        if state_id.0 >= NUM_STATES {
            return None;
        }
        let mut cells = [CellValue::Empty; 9];
        let mut rest: usize = state_id.0;
        let mut cell_id: usize = 0;
        assert(pow3(0) == 1);
        while cell_id < NUM_CELLS
            invariant
                0 <= cell_id <= NUM_CELLS,
                cells@.len() == NUM_CELLS,
                rest == state_id.0 as nat / pow3(cell_id as nat),
                forall|j: int|
                    0 <= j < cell_id ==> #[trigger] cells@[j] == decode(state_id.0 as nat)[j],
            decreases NUM_CELLS - cell_id,
        {
            let value_id = rest % CellValue::num_values();
            cells[cell_id] = CellValue::value_with_id(CellValueId(value_id));
            proof {
                lemma_pow3_positive(cell_id as nat);
                lemma_div_denominator(state_id.0 as int, pow3(cell_id as nat) as int, 3);
                assert(pow3((cell_id + 1) as nat) == pow3(cell_id as nat) * 3);
            }
            rest = rest / CellValue::num_values();
            cell_id = cell_id + 1;
        }
        let s = TicTacToeState { cells };
        assert(s@ =~= decode(state_id.0 as nat));
        Some(s)
    }

    /// The legal actions: the next value into each empty cell, by increasing index.
    pub fn actions(&self) -> (r: Vec<TicTacToeAction>)
        ensures
            r@ == spec_actions(self@),
    {
        let mut actions: Vec<TicTacToeAction> = Vec::new();
        if self.is_game_over() {
            return actions;
        }
        let next_cell_value = self.next_cell_value();
        let mut index: usize = 0;
        while index < NUM_CELLS
            invariant
                0 <= index <= NUM_CELLS,
                self@.len() == NUM_CELLS,
                next_cell_value == spec_next_value(self@),
                actions@ =~= empty_indices(self@, index as int).map_values(
                    |i: usize| place(next_cell_value, i),
                ),
            decreases NUM_CELLS - index,
        {
            if !self.cells[index].is_set() {
                let ghost before = empty_indices(self@, index as int);
                let a = TicTacToeAction { cell_value: next_cell_value, cell_index: index };
                actions.push(a);
                assert(empty_indices(self@, index + 1) == before.push(index));
                assert(before.push(index).map_values(|i: usize| place(next_cell_value, i))
                    =~= before.map_values(|i: usize| place(next_cell_value, i)).push(a));
            } else {
                assert(empty_indices(self@, index + 1) == empty_indices(self@, index as int));
            }
            index = index + 1;
        }
        actions
    }

    /// The number of encodable positions.
    pub fn max_state_id() -> (r: StateId)
        ensures
            r.0 == NUM_STATES,
            r.0 == pow3(NUM_CELLS as nat),
    {
        proof {
            lemma_num_states();
        }
        StateId(NUM_STATES)
    }

    /// The id of the position.
    pub fn state_id(&self) -> (r: StateId)
        ensures
            r.0 == encode(self@),
            r.0 < NUM_STATES,
    {
        let mut mult: usize = 1;
        let mut state_id: usize = 0;
        let mut i: usize = 0;
        while i < NUM_CELLS
            invariant
                0 <= i <= NUM_CELLS,
                self@.len() == NUM_CELLS,
                mult == pow3(i as nat),
                state_id == encode(self@.take(i as int)),
                state_id < mult,
                mult <= NUM_STATES,
            decreases NUM_CELLS - i,
        {
            proof {
                assert(self@.take(i + 1).drop_last() =~= self@.take(i as int));
                lemma_encode_bound(self@.take(i + 1));
                lemma_num_states();
                lemma_pow_monotone((i + 1) as nat, NUM_CELLS as nat);
            }
            state_id = state_id + self.cells[i].value_id().0 * mult;
            mult = mult * CellValue::num_values();
            i = i + 1;
        }
        assert(self@.take(NUM_CELLS as int) =~= self@);
        StateId(state_id)
    }

    /// Whether the game is over: a line is filled by one value, or no cell is free.
    pub fn is_game_over(&self) -> (r: bool)
        ensures
            r == spec_is_terminal(self@),
    {
        self.has_winning_value() != CellValue::Empty || self.all_cells_set()
    }
}

proof fn lemma_pow_monotone(a: nat, b: nat)
    requires
        a <= b,
    ensures
        pow3(a) <= pow3(b),
    decreases b,
{
    if a < b {
        lemma_pow_monotone(a, (b - 1) as nat);
    }
}

impl State for TicTacToeState {
    fn is_terminal(&self) -> (r: bool)
        ensures
            r == spec_is_terminal(self@),
    {
        self.is_game_over()
    }

    fn id(&self) -> (r: StateId)
        ensures
            r.0 == encode(self@),
    {
        self.state_id()
    }
}

} // verus!
