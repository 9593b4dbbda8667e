use vstd::prelude::*;
use crate::grid::{
    aged, alive_at, evolve, live_neighbors, next_alive, pos,
    toggled, CELL_LIFETIME, COLS, ROWS,
};
use crate::grid::{count_live, lemma_pos_div_mod, lemma_pos_in_board, shade_spec, CellShade};
use crate::text::{decimal, digit_char};
use crate::controls::{
    action_button_spec, faster, label_for, run_toggle, slower, state_button_spec, GameState,
    Interaction,
};

verus! {

/// The board after `k` generations.
pub open spec fn evolve_n(s: Seq<u8>, k: nat) -> Seq<u8>
    decreases k,
{
    if k == 0 {
        s
    } else {
        evolve(evolve_n(s, (k - 1) as nat))
    }
}

proof fn lemma_wrapped_pos_in_board(row: int, col: int)
    ensures
        0 <= pos(row % (ROWS as int), col % (COLS as int)) < ROWS * COLS,
{
    let r = row % (ROWS as int);
    let c = col % (COLS as int);
    assert(0 <= r < ROWS && 0 <= c < COLS);
    assert(0 <= pos(r, c) < ROWS * COLS) by (nonlinear_arith)
        requires
            0 <= r < 50,
            0 <= c < 100,
            pos(r, c) == r * 100 + c,
    ;
}

/// Computing the next generation row by row and then ageing the board gives the
/// same board as one whole step: any row-major sequence whose entry at each
/// `row`, `col` is that cell's next state (what `update_row` writes for its row)
/// makes `apply_generation` produce `evolve`.
pub proof fn law_rows_compose(s: Seq<u8>, next: Seq<bool>)
    requires
        next.len() == ROWS * COLS,
        forall|row: int, col: int|
            0 <= row < ROWS && 0 <= col < COLS ==> #[trigger] next[pos(row, col)] == next_alive(
                s,
                row,
                col,
            ),
    ensures
        Seq::new((ROWS * COLS) as nat, |i: int| aged(s[i], next[i])) == evolve(s),
{
    assert forall|i: int| 0 <= i < ROWS * COLS implies #[trigger] next[i] == next_alive(
        s,
        i / (COLS as int),
        i % (COLS as int),
    ) by {
        let row = i / (COLS as int);
        let col = i % (COLS as int);
        assert(i == pos(row, col) && 0 <= row < ROWS && 0 <= col < COLS) by (nonlinear_arith)
            requires
                0 <= i < 5000,
                row == i / 100,
                col == i % 100,
                pos(row, col) == row * 100 + col,
        ;
        assert(next[pos(row, col)] == next_alive(s, row, col));
    }
    assert(Seq::new((ROWS * COLS) as nat, |i: int| aged(s[i], next[i])) =~= evolve(s));
}

/// The four rules of Life: a living cell with fewer than two living neighbours
/// dies, one with more than three dies, one with two or three lives on, and a dead
/// cell with exactly three living neighbours comes to life.
pub proof fn law_life_rules(s: Seq<u8>, row: int, col: int)
    ensures
        alive_at(s, row, col) && live_neighbors(s, row, col) < 2 ==> !next_alive(s, row, col),
        alive_at(s, row, col) && live_neighbors(s, row, col) > 3 ==> !next_alive(s, row, col),
        alive_at(s, row, col) && 2 <= live_neighbors(s, row, col) <= 3 ==> next_alive(s, row, col),
        !alive_at(s, row, col) ==> (next_alive(s, row, col) <==> live_neighbors(s, row, col) == 3),
{
}

/// A cell has at most eight living neighbours.
pub proof fn law_neighbors_at_most_eight(s: Seq<u8>, row: int, col: int)
    ensures
        0 <= live_neighbors(s, row, col) <= 8,
{
}

/// The board wraps at its edges: the neighbourhood of a cell is the same seen from
/// one full turn of rows or of columns away, so the cells of the first row neighbour
/// those of the last, and likewise for the columns.
pub proof fn law_board_wraps(s: Seq<u8>, row: int, col: int)
    ensures
        live_neighbors(s, row + ROWS, col) == live_neighbors(s, row, col),
        live_neighbors(s, row, col + COLS) == live_neighbors(s, row, col),
        alive_at(s, -1, col) == alive_at(s, ROWS - 1, col),
        alive_at(s, row, -1) == alive_at(s, row, COLS - 1),
{
    assert forall|d: int| #[trigger] ((row + ROWS + d) % (ROWS as int)) == (row + d) % (ROWS as int) by {
        vstd::arithmetic::div_mod::lemma_mod_add_multiples_vanish(row + d, ROWS as int);
    }
    assert forall|d: int| #[trigger] ((col + COLS + d) % (COLS as int)) == (col + d) % (COLS as int) by {
        vstd::arithmetic::div_mod::lemma_mod_add_multiples_vanish(col + d, COLS as int);
    }
    assert((row + ROWS - 1) % (ROWS as int) == (row - 1) % (ROWS as int));
    assert((row + ROWS + 1) % (ROWS as int) == (row + 1) % (ROWS as int));
    assert((row + ROWS + 0) % (ROWS as int) == (row + 0) % (ROWS as int));
    assert((col + COLS - 1) % (COLS as int) == (col - 1) % (COLS as int));
    assert((col + COLS + 1) % (COLS as int) == (col + 1) % (COLS as int));
    assert((col + COLS + 0) % (COLS as int) == (col + 0) % (COLS as int));
    assert((-1int) % (ROWS as int) == ROWS - 1);
    assert((-1int) % (COLS as int) == COLS - 1);
    assert((ROWS - 1) % (ROWS as int) == ROWS - 1);
    assert((COLS - 1) % (COLS as int) == COLS - 1);
}

/// A board on which every cell is dead with no decay left stays so: nothing is
/// born from nothing.
pub proof fn law_empty_board_stays_empty(s: Seq<u8>)
    requires
        s == Seq::new((ROWS * COLS) as nat, |i: int| 0u8),
    ensures
        evolve(s) == s,
{
    assert forall|row: int, col: int| !#[trigger] alive_at(s, row, col) by {
        lemma_wrapped_pos_in_board(row, col);
    }
    assert(evolve(s) =~= s);
}

/// The decay trail: a cell that is not alive in any of the next `k` generations
/// counts down by one each generation and stops at 0, so a dead cell fades out
/// completely within `CELL_LIFETIME` generations.
pub proof fn law_decay_trail(s: Seq<u8>, i: int, k: nat)
    requires
        0 <= i < ROWS * COLS,
        forall|j: nat|
            j < k ==> !#[trigger] next_alive(evolve_n(s, j), i / (COLS as int), i % (COLS as int)),
    ensures
        evolve_n(s, k)[i] == if s[i] >= k { s[i] - k } else { 0 },
        s[i] <= CELL_LIFETIME && k >= CELL_LIFETIME ==> evolve_n(s, k)[i] == 0,
    decreases k,
{
    if k > 0 {
        let j = (k - 1) as nat;
        law_decay_trail(s, i, j);
        assert(!next_alive(evolve_n(s, j), i / (COLS as int), i % (COLS as int)));
        assert(evolve_n(s, k)[i] == aged(evolve_n(s, j)[i], false));
    }
}

/// A cell that is alive in the next generation holds `CELL_LIFETIME` there, and
/// every other cell holds less: the next board's living cells are exactly the
/// cells that the rules keep or bring to life.
pub proof fn law_alive_after_step(s: Seq<u8>, i: int)
    requires
        0 <= i < ROWS * COLS,
        s[i] <= CELL_LIFETIME,
    ensures
        (evolve(s)[i] == CELL_LIFETIME) <==> next_alive(s, i / (COLS as int), i % (COLS as int)),
        evolve(s)[i] <= CELL_LIFETIME,
{
}

/// Clicking a cell twice gives back what it was, when it was alive or dead with no
/// decay left; a click always turns a living cell dead, with no decay left, and any
/// other cell alive.
pub proof fn law_toggle(v: u8)
    ensures
        (toggled(v) == CELL_LIFETIME) <==> (v != CELL_LIFETIME),
        toggled(v) == 0 || toggled(v) == CELL_LIFETIME,
        v == 0 || v == CELL_LIFETIME ==> toggled(toggled(v)) == v,
{
}

/// The tick delay stays a multiple of 100 between 0 and 500 ms under any number of
/// speed-ups and slow-downs, starting from the default of 500 ms.
pub proof fn law_delay_in_range(d: u64)
    requires
        d <= 500,
        d % 100 == 0,
    ensures
        faster(d) <= 500 && faster(d) % 100 == 0,
        slower(d) <= 500 && slower(d) % 100 == 0,
{
}

/// Speeding up and then slowing down gives back a delay of 100 to 500 ms;
/// slowing down and then speeding up gives back a delay of at most 400 ms.
pub proof fn law_speed_round_trip(d: u64)
    ensures
        100 <= d <= 500 ==> slower(faster(d)) == d,
        d <= 400 ==> faster(slower(d)) == d,
{
}

/// The space bar pauses a running game and resumes a paused one, so pausing and
/// resuming come back to where they started; the label left on the button always
/// names what the next press does.
pub proof fn law_run_toggle(state: GameState)
    ensures
        state != GameState::Starting ==> (run_toggle(state) matches Some((next, label)) && (
        run_toggle(next) matches Some((back, _)) && back == state && label == label_for(next)
            && next != state && next != GameState::Starting)),
        state == GameState::Starting ==> run_toggle(state) is None,
{
}

/// Pressing the run/pause button twice comes back to the state it started from,
/// and the label left after a press is the one that the button shows when the
/// pointer leaves it in the new state.
pub proof fn law_state_button_round_trip(state: GameState)
    requires
        state != GameState::Starting,
    ensures
        ({
            let first = state_button_spec(Interaction::Pressed, state);
            let next = first.next_state.unwrap();
            let second = state_button_spec(Interaction::Pressed, next);
            &&& first.next_state is Some
            &&& second.next_state == Some(state)
            &&& first.label == state_button_spec(Interaction::Idle, next).label
        }),
{
}

/// The board `s` moved `dr` rows down and `dc` columns right, wrapping around
/// the edges.
pub open spec fn shift(s: Seq<u8>, dr: int, dc: int) -> Seq<u8> {
    Seq::new(
        (ROWS * COLS) as nat,
        |i: int|
            s[pos((i / (COLS as int) - dr) % (ROWS as int), (i % (COLS as int) - dc) % (COLS as int))],
    )
}

/// Where the cell at flat position `i` lands when the board moves `dr` rows down
/// and `dc` columns right.
pub open spec fn shifted_pos(i: int, dr: int, dc: int) -> int {
    pos((i / (COLS as int) + dr) % (ROWS as int), (i % (COLS as int) + dc) % (COLS as int))
}

/// The cells alive on `s`, by flat position.
pub open spec fn live_set(s: Seq<u8>) -> Set<int> {
    Set::new(|i: int| 0 <= i < s.len() && s[i] == CELL_LIFETIME)
}

proof fn lemma_mod_shift(a: int, d: int, n: int)
    requires
        n > 0,
    ensures
        (a % n + d) % n == (a + d) % n,
{
    vstd::arithmetic::div_mod::lemma_add_mod_noop_right(d, a, n);
}

proof fn lemma_alive_mod(s: Seq<u8>, a: int, b: int, d: int, e: int)
    ensures
        alive_at(s, a % (ROWS as int) + d, b % (COLS as int) + e) == alive_at(s, a + d, b + e),
{
    lemma_mod_shift(a, d, ROWS as int);
    lemma_mod_shift(b, e, COLS as int);
}

/// The rules read a cell's coordinates only up to whole turns of the torus.
proof fn lemma_next_alive_mod(s: Seq<u8>, a: int, b: int)
    ensures
        next_alive(s, a % (ROWS as int), b % (COLS as int)) == next_alive(s, a, b),
{
    lemma_alive_mod(s, a, b, 0, 0);
    lemma_alive_mod(s, a, b, -1, -1);
    lemma_alive_mod(s, a, b, -1, 0);
    lemma_alive_mod(s, a, b, -1, 1);
    lemma_alive_mod(s, a, b, 0, -1);
    lemma_alive_mod(s, a, b, 0, 1);
    lemma_alive_mod(s, a, b, 1, -1);
    lemma_alive_mod(s, a, b, 1, 0);
    lemma_alive_mod(s, a, b, 1, 1);
}

proof fn lemma_shift_alive(s: Seq<u8>, dr: int, dc: int, a: int, b: int)
    ensures
        alive_at(shift(s, dr, dc), a, b) == alive_at(s, a - dr, b - dc),
{
    let x = a % (ROWS as int);
    let y = b % (COLS as int);
    lemma_wrapped_pos_in_board(a, b);
    lemma_pos_div_mod(x, y);
    lemma_mod_shift(a, -dr, ROWS as int);
    lemma_mod_shift(b, -dc, COLS as int);
}

proof fn lemma_shift_next_alive(s: Seq<u8>, dr: int, dc: int, r: int, c: int)
    ensures
        next_alive(shift(s, dr, dc), r, c) == next_alive(s, r - dr, c - dc),
{
    let t = shift(s, dr, dc);
    lemma_shift_alive(s, dr, dc, r, c);
    lemma_shift_alive(s, dr, dc, r - 1, c - 1);
    lemma_shift_alive(s, dr, dc, r - 1, c);
    lemma_shift_alive(s, dr, dc, r - 1, c + 1);
    lemma_shift_alive(s, dr, dc, r, c - 1);
    lemma_shift_alive(s, dr, dc, r, c + 1);
    lemma_shift_alive(s, dr, dc, r + 1, c - 1);
    lemma_shift_alive(s, dr, dc, r + 1, c);
    lemma_shift_alive(s, dr, dc, r + 1, c + 1);
    assert(r - 1 - dr == (r - dr) - 1 && r + 1 - dr == (r - dr) + 1);
    assert(c - 1 - dc == (c - dc) - 1 && c + 1 - dc == (c - dc) + 1);
    assert(live_neighbors(t, r, c) == live_neighbors(s, r - dr, c - dc));
}

/// Moving a cell and moving it back, in either order, gives back its position.
proof fn lemma_shift_inverse(i: int, dr: int, dc: int)
    requires
        0 <= i < ROWS * COLS,
    ensures
        0 <= shifted_pos(i, dr, dc) < ROWS * COLS,
        shifted_pos(shifted_pos(i, dr, dc), -dr, -dc) == i,
        0 <= shifted_pos(i, -dr, -dc) < ROWS * COLS,
        shifted_pos(shifted_pos(i, -dr, -dc), dr, dc) == i,
{
    let r = i / (COLS as int);
    let c = i % (COLS as int);
    assert(i == pos(r, c) && 0 <= r < ROWS && 0 <= c < COLS) by (nonlinear_arith)
        requires
            0 <= i < 5000,
            r == i / 100,
            c == i % 100,
            pos(r, c) == r * 100 + c,
    ;
    lemma_wrapped_pos_in_board(r + dr, c + dc);
    lemma_wrapped_pos_in_board(r - dr, c - dc);
    lemma_pos_div_mod((r + dr) % (ROWS as int), (c + dc) % (COLS as int));
    lemma_pos_div_mod((r - dr) % (ROWS as int), (c - dc) % (COLS as int));
    lemma_mod_shift(r + dr, -dr, ROWS as int);
    lemma_mod_shift(c + dc, -dc, COLS as int);
    lemma_mod_shift(r - dr, dr, ROWS as int);
    lemma_mod_shift(c - dc, dc, COLS as int);
    assert(r % (ROWS as int) == r && c % (COLS as int) == c);
}

/// The living count of a board is the number of its positions that hold
/// `CELL_LIFETIME`.
pub proof fn lemma_count_is_set_len(s: Seq<u8>)
    ensures
        live_set(s).finite(),
        count_live(s) == live_set(s).len(),
    decreases s.len(),
{
    if s.len() == 0 {
        assert(live_set(s) =~= Set::<int>::empty());
    } else {
        let t = s.drop_last();
        lemma_count_is_set_len(t);
        assert(!live_set(t).contains(s.len() - 1));
        if s.last() == CELL_LIFETIME {
            assert(live_set(s) =~= live_set(t).insert(s.len() - 1));
        } else {
            assert(live_set(s) =~= live_set(t));
        }
    }
}

proof fn lemma_shift_keeps_count(s: Seq<u8>, dr: int, dc: int)
    requires
        s.len() == ROWS * COLS,
    ensures
        count_live(shift(s, dr, dc)) == count_live(s),
{
    let t = shift(s, dr, dc);
    let f = |i: int| shifted_pos(i, dr, dc);
    lemma_count_is_set_len(s);
    lemma_count_is_set_len(t);
    assert forall|i: int| 0 <= i < ROWS * COLS implies #[trigger] t[shifted_pos(i, dr, dc)] == s[i] by {
        lemma_shift_inverse(i, dr, dc);
    }
    assert(live_set(s).map(f) =~= live_set(t)) by {
        assert forall|j: int| live_set(t).contains(j) implies #[trigger] live_set(s).map(f).contains(j) by {
            lemma_shift_inverse(j, dr, dc);
            let i = shifted_pos(j, -dr, -dc);
            assert(live_set(s).contains(i));
            assert(f(i) == j);
        }
        assert forall|j: int| #[trigger] live_set(s).map(f).contains(j) implies live_set(t).contains(j) by {
            let i = choose|i: int| live_set(s).contains(i) && f(i) == j;
            lemma_shift_inverse(i, dr, dc);
        }
    }
    assert(vstd::relations::injective_on(f, live_set(s))) by {
        assert forall|a: int, b: int|
            live_set(s).contains(a) && live_set(s).contains(b) && #[trigger] f(a) == #[trigger] f(b) implies a == b by {
            lemma_shift_inverse(a, dr, dc);
            lemma_shift_inverse(b, dr, dc);
        }
    }
    vstd::set_lib::lemma_map_size(live_set(s), live_set(t), f);
}

/// One generation commutes with moving the board around the torus: moving a board
/// `dr` rows and `dc` columns and then stepping it gives the stepped board moved
/// the same way, with the same number of living cells. Moving puts the cell at
/// `row`, `col` at `(row + dr) % ROWS`, `(col + dc) % COLS`.
pub proof fn law_step_commutes_with_shift(s: Seq<u8>, dr: int, dc: int)
    requires
        s.len() == ROWS * COLS,
    ensures
        forall|row: int, col: int|
            0 <= row < ROWS && 0 <= col < COLS ==> #[trigger] shift(s, dr, dc)[pos(
                (row + dr) % (ROWS as int),
                (col + dc) % (COLS as int),
            )] == s[pos(row, col)],
        evolve(shift(s, dr, dc)) == shift(evolve(s), dr, dc),
        count_live(shift(s, dr, dc)) == count_live(s),
        count_live(evolve(shift(s, dr, dc))) == count_live(evolve(s)),
{
    let t = shift(s, dr, dc);
    assert forall|row: int, col: int| 0 <= row < ROWS && 0 <= col < COLS implies #[trigger] t[pos(
        (row + dr) % (ROWS as int),
        (col + dc) % (COLS as int),
    )] == s[pos(row, col)] by {
        lemma_pos_div_mod(row, col);
        lemma_pos_in_board(row, col);
        lemma_shift_inverse(pos(row, col), dr, dc);
    }
    assert forall|i: int| 0 <= i < ROWS * COLS implies #[trigger] evolve(t)[i] == shift(evolve(s), dr, dc)[i] by {
        let r = i / (COLS as int);
        let c = i % (COLS as int);
        let x = (r - dr) % (ROWS as int);
        let y = (c - dc) % (COLS as int);
        lemma_wrapped_pos_in_board(r - dr, c - dc);
        lemma_pos_div_mod(x, y);
        lemma_shift_next_alive(s, dr, dc, r, c);
        lemma_next_alive_mod(s, r - dr, c - dc);
    }
    assert(evolve(t) =~= shift(evolve(s), dr, dc));
    lemma_shift_keeps_count(s, dr, dc);
    lemma_shift_keeps_count(evolve(s), dr, dc);
}

/// The eight neighbours of `row`, `col` whose cell on the wrapping board holds
/// `CELL_LIFETIME`, as offsets `(dr, dc)`.
pub open spec fn living_neighbor_offsets(s: Seq<u8>, row: int, col: int) -> Set<(int, int)> {
    Set::new(
        |d: (int, int)|
            -1 <= d.0 <= 1 && -1 <= d.1 <= 1 && !(d.0 == 0 && d.1 == 0) && s[((row + d.0) % (
            ROWS as int)) * (COLS as int) + (col + d.1) % (COLS as int)] == CELL_LIFETIME,
    )
}

proof fn lemma_eight_neighbors(live: spec_fn((int, int)) -> bool)
    ensures
        Set::new(|d: (int, int)| -1 <= d.0 <= 1 && -1 <= d.1 <= 1 && !(d.0 == 0 && d.1 == 0) && live(d)).finite(),
        Set::new(|d: (int, int)| -1 <= d.0 <= 1 && -1 <= d.1 <= 1 && !(d.0 == 0 && d.1 == 0) && live(d)).len()
            == one_if_live(live((-1, -1))) + one_if_live(live((-1, 0))) + one_if_live(live((-1, 1)))
            + one_if_live(live((0, -1))) + one_if_live(live((0, 1))) + one_if_live(live((1, -1)))
            + one_if_live(live((1, 0))) + one_if_live(live((1, 1))),
{
    let p0 = (-1int, -1int);
    let p1 = (-1int, 0int);
    let p2 = (-1int, 1int);
    let p3 = (0int, -1int);
    let p4 = (0int, 1int);
    let p5 = (1int, -1int);
    let p6 = (1int, 0int);
    let p7 = (1int, 1int);
    let a0 = Set::<(int, int)>::empty();
    let a1 = if live(p0) { a0.insert(p0) } else { a0 };
    let a2 = if live(p1) { a1.insert(p1) } else { a1 };
    let a3 = if live(p2) { a2.insert(p2) } else { a2 };
    let a4 = if live(p3) { a3.insert(p3) } else { a3 };
    let a5 = if live(p4) { a4.insert(p4) } else { a4 };
    let a6 = if live(p5) { a5.insert(p5) } else { a5 };
    let a7 = if live(p6) { a6.insert(p6) } else { a6 };
    let a8 = if live(p7) { a7.insert(p7) } else { a7 };
    assert(a1.finite() && a1.len() == one_if_live(live(p0)));
    assert(a2.finite() && a2.len() == a1.len() + one_if_live(live(p1))) by {
        assert(!a1.contains(p1));
    }
    assert(a3.finite() && a3.len() == a2.len() + one_if_live(live(p2))) by {
        assert(!a2.contains(p2));
    }
    assert(a4.finite() && a4.len() == a3.len() + one_if_live(live(p3))) by {
        assert(!a3.contains(p3));
    }
    assert(a5.finite() && a5.len() == a4.len() + one_if_live(live(p4))) by {
        assert(!a4.contains(p4));
    }
    assert(a6.finite() && a6.len() == a5.len() + one_if_live(live(p5))) by {
        assert(!a5.contains(p5));
    }
    assert(a7.finite() && a7.len() == a6.len() + one_if_live(live(p6))) by {
        assert(!a6.contains(p6));
    }
    assert(a8.finite() && a8.len() == a7.len() + one_if_live(live(p7))) by {
        assert(!a7.contains(p7));
    }
    assert(Set::new(|d: (int, int)| -1 <= d.0 <= 1 && -1 <= d.1 <= 1 && !(d.0 == 0 && d.1 == 0) && live(d)) =~= a8);
}

/// The neighbour count is the plain number of the eight surrounding cells of the
/// wrapping board that hold `CELL_LIFETIME`: nothing else is counted and no count
/// is mapped to another.
pub proof fn law_neighbor_count_is_plain(s: Seq<u8>, row: int, col: int)
    ensures
        living_neighbor_offsets(s, row, col).finite(),
        live_neighbors(s, row, col) == living_neighbor_offsets(s, row, col).len(),
{
    let live = |d: (int, int)|
        s[((row + d.0) % (ROWS as int)) * (COLS as int) + (col + d.1) % (COLS as int)]
            == CELL_LIFETIME;
    lemma_eight_neighbors(live);
    assert(living_neighbor_offsets(s, row, col) =~= Set::new(
        |d: (int, int)| -1 <= d.0 <= 1 && -1 <= d.1 <= 1 && !(d.0 == 0 && d.1 == 0) && live(d),
    ));
    assert(alive_at(s, row - 1, col - 1) == live((-1, -1)));
    assert(alive_at(s, row - 1, col) == live((-1, 0)));
    assert(alive_at(s, row - 1, col + 1) == live((-1, 1)));
    assert(alive_at(s, row, col - 1) == live((0, -1)));
    assert(alive_at(s, row, col + 1) == live((0, 1)));
    assert(alive_at(s, row + 1, col - 1) == live((1, -1)));
    assert(alive_at(s, row + 1, col) == live((1, 0)));
    assert(alive_at(s, row + 1, col + 1) == live((1, 1)));
}

/// Whether a cell with state `v` and `n` living neighbours is alive in the next
/// generation, by the four rules of Life: only a cell holding `CELL_LIFETIME` is
/// alive, it stays so with two or three living neighbours, and any other cell comes
/// to life with exactly three.
pub open spec fn survives_or_born(v: u8, n: int) -> bool {
    (v == CELL_LIFETIME && (n == 2 || n == 3)) || (v != CELL_LIFETIME && n == 3)
}

/// The next state of a cell, in plain terms: it is alive (holds `CELL_LIFETIME`)
/// exactly when the rules say so from its own state and its number of living
/// neighbours; otherwise it counts down by one, stopping at 0. A decaying cell
/// counts as dead for the rules, however close to `CELL_LIFETIME` it is.
pub proof fn law_step_is_plain(s: Seq<u8>, i: int)
    requires
        0 <= i < ROWS * COLS,
    ensures
        ({
            let row = i / (COLS as int);
            let col = i % (COLS as int);
            let n = living_neighbor_offsets(s, row, col).len() as int;
            &&& next_alive(s, row, col) == survives_or_born(s[i], n)
            &&& evolve(s)[i] == if survives_or_born(s[i], n) {
                CELL_LIFETIME
            } else if s[i] > 0 {
                (s[i] - 1) as u8
            } else {
                0u8
            }
        }),
{
    let row = i / (COLS as int);
    let col = i % (COLS as int);
    law_neighbor_count_is_plain(s, row, col);
    assert(i == pos(row, col) && 0 <= row < ROWS && 0 <= col < COLS) by (nonlinear_arith)
        requires
            0 <= i < 5000,
            row == i / 100,
            col == i % 100,
            pos(row, col) == row * 100 + col,
    ;
    assert(row % (ROWS as int) == row && col % (COLS as int) == col);
    assert(alive_at(s, row, col) == (s[i] == CELL_LIFETIME));
}

/// Only the cells holding `CELL_LIFETIME` take part in the rules: two valid boards
/// that agree on which cells hold it agree on which cells are alive in the next
/// generation, whatever the decay states of their other cells.
pub proof fn law_only_living_cells_count(s1: Seq<u8>, s2: Seq<u8>)
    requires
        s1.len() == ROWS * COLS,
        s2.len() == ROWS * COLS,
        forall|j: int| 0 <= j < ROWS * COLS ==> #[trigger] s1[j] <= CELL_LIFETIME && s2[j] <= CELL_LIFETIME,
        forall|j: int| 0 <= j < ROWS * COLS ==> (#[trigger] s1[j] == CELL_LIFETIME) == (s2[j] == CELL_LIFETIME),
    ensures
        forall|i: int| 0 <= i < ROWS * COLS ==> (#[trigger] evolve(s1)[i] == CELL_LIFETIME) == (evolve(s2)[i] == CELL_LIFETIME),
{
    assert forall|i: int| 0 <= i < ROWS * COLS implies (#[trigger] evolve(s1)[i] == CELL_LIFETIME) == (evolve(s2)[i] == CELL_LIFETIME) by {
        law_step_is_plain(s1, i);
        law_step_is_plain(s2, i);
        let row = i / (COLS as int);
        let col = i % (COLS as int);
        assert forall|d: (int, int)| -1 <= d.0 <= 1 && -1 <= d.1 <= 1 implies
            (#[trigger] s1[((row + d.0) % (ROWS as int)) * (COLS as int) + (col + d.1) % (COLS as int)] == CELL_LIFETIME)
            == (s2[((row + d.0) % (ROWS as int)) * (COLS as int) + (col + d.1) % (COLS as int)] == CELL_LIFETIME) by {
            lemma_wrapped_pos_in_board(row + d.0, col + d.1);
        }
        assert(living_neighbor_offsets(s1, row, col) =~= living_neighbor_offsets(s2, row, col));
    }
}

/// Only a press on the run/pause button changes the game state: hovering over the
/// button or leaving it never does. A press pauses a running game and resumes a
/// paused one, and does nothing to the state while the game is starting.
pub proof fn law_only_press_changes_state(interaction: Interaction, state: GameState)
    ensures
        interaction != Interaction::Pressed ==> state_button_spec(interaction, state).next_state is None,
        interaction == Interaction::Pressed ==> state_button_spec(interaction, state).next_state == (
        if state == GameState::Running {
            Some(GameState::Paused)
        } else if state == GameState::Paused {
            Some(GameState::Running)
        } else {
            None::<GameState>
        }),
        interaction == Interaction::Hovered ==> state_button_spec(interaction, state).label is None,
        state_button_spec(interaction, state).activate == (interaction == Interaction::Pressed),
{
}

/// The random and clear buttons never change the game state or a label, and their
/// action runs exactly when they are pressed.
pub proof fn law_action_buttons_only_act_on_press(interaction: Interaction)
    ensures
        action_button_spec(interaction).next_state is None,
        action_button_spec(interaction).label is None,
        action_button_spec(interaction).activate == (interaction == Interaction::Pressed),
{
}

/// A living cell is drawn alive, a cell with no decay left (or an out-of-range
/// state) is drawn dead, and each of the five fading steps has a shade of its own,
/// different from both.
pub proof fn law_shades(v: u8, w: u8)
    ensures
        (shade_spec(v) == CellShade::Alive) <==> v == CELL_LIFETIME,
        (shade_spec(v) == CellShade::Dead) <==> (v == 0 || v > CELL_LIFETIME),
        0 < v < CELL_LIFETIME && 0 < w < CELL_LIFETIME && v != w ==> shade_spec(v) != shade_spec(w),
{
}

/// The number that a string of decimal digits stands for.
pub open spec fn digits_value(s: Seq<char>) -> int
    decreases s.len(),
{
    if s.len() == 0 {
        0
    } else {
        digits_value(s.drop_last()) * 10 + (s.last() as int - '0' as int)
    }
}

/// `decimal(n)` is the usual way of writing `n`: only the digits `0` to `9`, no
/// leading zero, and the number it stands for is `n`.
pub proof fn law_decimal(n: nat)
    ensures
        decimal(n).len() >= 1,
        forall|k: int| 0 <= k < decimal(n).len() ==> '0' <= #[trigger] decimal(n)[k] <= '9',
        decimal(n)[0] == '0' ==> n == 0,
        digits_value(decimal(n)) == n,
    decreases n,
{
    if n >= 10 {
        law_decimal(n / 10);
        let d = decimal(n);
        assert(d.drop_last() =~= decimal(n / 10));
        assert(d[0] == decimal(n / 10)[0]);
        assert(digit_char(n % 10) as int - '0' as int == n % 10);
        assert(d.last() == digit_char(n % 10));
        assert(digits_value(d) == digits_value(decimal(n / 10)) * 10 + ((n % 10) as int));
        assert(n == (n / 10) * 10 + n % 10);
    } else {
        assert(decimal(n).drop_last() =~= Seq::<char>::empty());
        assert(digit_char(n) as int - '0' as int == n);
        assert(digits_value(Seq::<char>::empty()) == 0);
    }
}

spec fn one_if_live(b: bool) -> nat {
    if b { 1 } else { 0 }
}

} // verus!
