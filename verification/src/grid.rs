use vstd::prelude::*;

verus! {

/// Number of rows of the board.
pub const ROWS: usize = 50;

/// Number of columns of the board.
pub const COLS: usize = 100;

/// State value of a living cell; a dead cell counts down from here to 0.
pub const CELL_LIFETIME: u8 = 6;

/// The flat position of the cell at `row`, `col`.
pub open spec fn pos(row: int, col: int) -> int {
    row * (COLS as int) + col
}

/// Whether the cell at `row`, `col` is alive, reading coordinates on the torus:
/// rows and columns wrap around at the edges.
pub open spec fn alive_at(s: Seq<u8>, row: int, col: int) -> bool {
    s[pos(row % (ROWS as int), col % (COLS as int))] == CELL_LIFETIME
}

/// 1 for `true`, 0 for `false`.
pub open spec fn one_if(b: bool) -> int {
    if b { 1 } else { 0 }
}

/// The number of living cells among the eight neighbours of `row`, `col`.
pub open spec fn live_neighbors(s: Seq<u8>, row: int, col: int) -> int {
    one_if(alive_at(s, row - 1, col - 1)) + one_if(alive_at(s, row - 1, col))
        + one_if(alive_at(s, row - 1, col + 1)) + one_if(alive_at(s, row, col - 1))
        + one_if(alive_at(s, row, col + 1)) + one_if(alive_at(s, row + 1, col - 1))
        + one_if(alive_at(s, row + 1, col)) + one_if(alive_at(s, row + 1, col + 1))
}

/// The neighbour offsets in the order in which they are visited.
pub open spec fn offset(k: int) -> (int, int) {
    if k == 0 { (-1, -1) }
    else if k == 1 { (-1, 0) }
    else if k == 2 { (-1, 1) }
    else if k == 3 { (0, -1) }
    else if k == 4 { (0, 1) }
    else if k == 5 { (1, -1) }
    else if k == 6 { (1, 0) }
    else { (1, 1) }
}

/// Living neighbours among the first `k` offsets.
pub open spec fn live_neighbors_upto(s: Seq<u8>, row: int, col: int, k: nat) -> int
    decreases k,
{
    if k == 0 {
        0
    } else {
        live_neighbors_upto(s, row, col, (k - 1) as nat)
            + one_if(alive_at(s, row + offset(k - 1).0, col + offset(k - 1).1))
    }
}

proof fn lemma_upto_all(s: Seq<u8>, row: int, col: int)
    ensures
        live_neighbors_upto(s, row, col, 8) == live_neighbors(s, row, col),
{
    reveal_with_fuel(live_neighbors_upto, 9);
}

/// Moves `i + d` back onto `0..n` when it fell one step off either edge.
fn wrap_index(i: usize, d: i32, n: usize) -> (r: usize)
    requires
        1 <= n <= 1000,
        i < n,
        -1 <= d <= 1,
    ensures
        r < n,
        r as int == (i + d) % (n as int),
{
    let max: i32 = n as i32 - 1;
    let mut j: i32 = i as i32 + d;
    if j < 0 {
        j = max;
    } else if j > max {
        j = 0;
    }
    proof {
        let t = i + d;
        if t < 0 {
            assert(t == -1);
            assert((-1int) % (n as int) == n - 1) by (nonlinear_arith)
                requires n >= 1;
        } else if t > max {
            assert(t == n);
            assert((n as int) % (n as int) == 0) by (nonlinear_arith)
                requires n >= 1;
        } else {
            assert(t % (n as int) == t) by (nonlinear_arith)
                requires 0 <= t < n;
        }
    }
    j as usize
}

/// Counts the living neighbours of the cell at `row`, `col`; the board wraps at its edges.
pub fn living_neighbors(state: &Vec<u8>, row: usize, col: usize) -> (n: u32)
    requires
        state@.len() == ROWS * COLS,
        row < ROWS,
        col < COLS,
    ensures
        n == live_neighbors(state@, row as int, col as int),
        n <= 8,
{
    let mut neighbors_alive: u32 = 0;
    let neighbors: [(i32, i32); 8] = [
        (-1, -1),
        (-1, 0),
        (-1, 1),
        (0, -1),
        (0, 1),
        (1, -1),
        (1, 0),
        (1, 1),
    ];
    let mut k: usize = 0;
    while k < 8
        invariant
            k <= 8,
            state@.len() == ROWS * COLS,
            row < ROWS,
            col < COLS,
            forall|j: int| 0 <= j < 8 ==> #[trigger] neighbors@[j].0 == offset(j).0 && neighbors@[j].1 == offset(j).1,
            neighbors_alive == live_neighbors_upto(state@, row as int, col as int, k as nat),
            neighbors_alive <= k,
        decreases 8 - k,
    {
        let (y, x) = neighbors[k];
        assert(y == offset(k as int).0 && x == offset(k as int).1);
        let new_row = wrap_index(row, y, ROWS);
        let new_col = wrap_index(col, x, COLS);
        assert(new_row * COLS + new_col < ROWS * COLS) by (nonlinear_arith)
            requires new_row < ROWS, new_col < COLS;
        if state[new_row * COLS + new_col] == CELL_LIFETIME {
            neighbors_alive = neighbors_alive + 1;
        }
        k = k + 1;
    }
    proof { lemma_upto_all(state@, row as int, col as int); }
    neighbors_alive
}


/// The rules of Life: a living cell with two or three living neighbours lives on,
/// a dead cell with exactly three living neighbours comes to life, every other cell
/// is dead in the next generation.
pub open spec fn life_rule(alive: bool, neighbors: int) -> bool {
    if alive {
        neighbors == 2 || neighbors == 3
    } else {
        neighbors == 3
    }
}

/// Whether the cell at `row`, `col` is alive in the generation after `s`.
pub open spec fn next_alive(s: Seq<u8>, row: int, col: int) -> bool {
    life_rule(alive_at(s, row, col), live_neighbors(s, row, col))
}

pub proof fn lemma_pos_div_mod(row: int, col: int)
    requires
        0 <= row,
        0 <= col < COLS,
    ensures
        pos(row, col) / (COLS as int) == row,
        pos(row, col) % (COLS as int) == col,
{
    assert(pos(row, col) / 100 == row && pos(row, col) % 100 == col) by (nonlinear_arith)
        requires
            0 <= row,
            0 <= col < 100,
            pos(row, col) == row * 100 + col,
    ;
}

pub proof fn lemma_pos_in_board(row: int, col: int)
    requires
        0 <= row < ROWS,
        0 <= col < COLS,
    ensures
        0 <= pos(row, col) < ROWS * COLS,
{
}

/// Writes into `section` the next generation of row `row` of `state`.
pub fn update_row(section: &mut Vec<bool>, state: &Vec<u8>, row: usize)
    requires
        old(section)@.len() == COLS,
        state@.len() == ROWS * COLS,
        row < ROWS,
    ensures
        final(section)@.len() == COLS,
        forall|c: int| 0 <= c < COLS ==> #[trigger] final(section)@[c] == next_alive(state@, row as int, c),
{
    let mut col: usize = 0;
    while col < COLS
        invariant
            col <= COLS,
            section@.len() == COLS,
            state@.len() == ROWS * COLS,
            row < ROWS,
            forall|c: int| 0 <= c < col ==> #[trigger] section@[c] == next_alive(state@, row as int, c),
        decreases COLS - col,
    {
        proof { lemma_pos_in_board(row as int, col as int); }
        let alive = if state[row * COLS + col] == CELL_LIFETIME {
            true
        } else {
            false
        };
        assert(alive == alive_at(state@, row as int, col as int)) by {
            assert((row as int) % (ROWS as int) == row as int);
            assert((col as int) % (COLS as int) == col as int);
        }
        let mut new_state = alive;
        let num_neighbors_alive = living_neighbors(state, row, col);
        if alive {
            if num_neighbors_alive < 2 {
                new_state = false;
            } else if num_neighbors_alive > 3 {
                new_state = false;
            }
        } else {
            if num_neighbors_alive == 3 {
                new_state = true;
            }
        }
        section.set(col, new_state);
        col = col + 1;
    }
}

/// The next generation of every cell of `state`, row after row.
pub fn next_generation(state: &Vec<u8>) -> (next: Vec<bool>)
    requires
        state@.len() == ROWS * COLS,
    ensures
        next@.len() == ROWS * COLS,
        forall|i: int|
            0 <= i < ROWS * COLS ==> #[trigger] next@[i] == next_alive(
                state@,
                i / (COLS as int),
                i % (COLS as int),
            ),
{
    let mut next: Vec<bool> = Vec::new();
    let mut row: usize = 0;
    while row < ROWS
        invariant
            row <= ROWS,
            state@.len() == ROWS * COLS,
            next@.len() == row * COLS,
            forall|i: int|
                0 <= i < row * COLS ==> #[trigger] next@[i] == next_alive(
                    state@,
                    i / (COLS as int),
                    i % (COLS as int),
                ),
        decreases ROWS - row,
    {
        let mut section: Vec<bool> = Vec::new();
        let mut k: usize = 0;
        while k < COLS
            invariant
                k <= COLS,
                section@.len() == k,
            decreases COLS - k,
        {
            section.push(false);
            k = k + 1;
        }
        update_row(&mut section, state, row);
        let mut col: usize = 0;
        while col < COLS
            invariant
                col <= COLS,
                row < ROWS,
                state@.len() == ROWS * COLS,
                section@.len() == COLS,
                forall|c: int| 0 <= c < COLS ==> #[trigger] section@[c] == next_alive(state@, row as int, c),
                next@.len() == row * COLS + col,
                forall|i: int|
                    0 <= i < row * COLS + col ==> #[trigger] next@[i] == next_alive(
                        state@,
                        i / (COLS as int),
                        i % (COLS as int),
                    ),
            decreases COLS - col,
        {
            proof { lemma_pos_div_mod(row as int, col as int); }
            next.push(section[col]);
            col = col + 1;
        }
        row = row + 1;
    }
    next
}


/// What a cell's state becomes in the next generation: a cell that is alive
/// there restarts at `CELL_LIFETIME`, any other cell decays by one step down to 0.
pub open spec fn aged(old: u8, alive: bool) -> u8 {
    if alive {
        CELL_LIFETIME
    } else if old > 0 {
        (old - 1) as u8
    } else {
        0
    }
}

/// The board after one generation.
pub open spec fn evolve(s: Seq<u8>) -> Seq<u8> {
    Seq::new(
        (ROWS * COLS) as nat,
        |i: int| aged(s[i], next_alive(s, i / (COLS as int), i % (COLS as int))),
    )
}

/// Number of living cells on a board.
pub open spec fn count_live(s: Seq<u8>) -> nat
    decreases s.len(),
{
    if s.len() == 0 {
        0
    } else {
        count_live(s.drop_last()) + if s.last() == CELL_LIFETIME { 1nat } else { 0nat }
    }
}

/// Whether `row`, `col` lies on the line of cells alive at startup: the middle
/// row, over the middle half of the columns.
pub open spec fn in_initial_line(row: int, col: int) -> bool {
    row == ROWS / 2 && COLS / 2 - COLS / 4 <= col < COLS / 2 + COLS / 4
}

/// A clicked cell becomes dead when it was alive and alive otherwise.
pub open spec fn toggled(v: u8) -> u8 {
    if v == CELL_LIFETIME {
        0
    } else {
        CELL_LIFETIME
    }
}

/// How a cell is drawn: alive, one of five fading steps, or dead.
#[derive(Clone, Copy, Debug, PartialEq, Eq, Structural)]
pub enum CellShade {
    Alive,
    Decay5,
    Decay4,
    Decay3,
    Decay2,
    Decay1,
    Dead,
}

/// The shade of a cell of state `v`: values other than 1 to 6 are drawn dead.
pub open spec fn shade_spec(v: u8) -> CellShade {
    if v == 6 {
        CellShade::Alive
    } else if v == 5 {
        CellShade::Decay5
    } else if v == 4 {
        CellShade::Decay4
    } else if v == 3 {
        CellShade::Decay3
    } else if v == 2 {
        CellShade::Decay2
    } else if v == 1 {
        CellShade::Decay1
    } else {
        CellShade::Dead
    }
}

/// The shade that a cell of state `v` is drawn in.
pub fn shade_of(v: u8) -> (shade: CellShade)
    ensures
        shade == shade_spec(v),
{
    match v {
        6 => CellShade::Alive,
        5 => CellShade::Decay5,
        4 => CellShade::Decay4,
        3 => CellShade::Decay3,
        2 => CellShade::Decay2,
        1 => CellShade::Decay1,
        _ => CellShade::Dead,
    }
}

/// Whether the cell at `row`, `col` is alive when the game starts.
pub fn starts_alive(row: usize, col: usize) -> (alive: bool)
    ensures
        alive == in_initial_line(row as int, col as int),
{
    let active_row = ROWS / 2;
    let active_col_start = COLS / 2 - (COLS / 4);
    let active_col_end = COLS / 2 + (COLS / 4);
    row == active_row && col >= active_col_start && col < active_col_end
}

/// The last tile that a click toggled.
#[derive(Clone, Copy, Debug, PartialEq, Eq, Structural)]
pub struct CurrentTile {
    pub row: usize,
    pub col: usize,
}

/// The board: a state per cell (`CELL_LIFETIME` for alive, less for dead and
/// decaying), the handle `E` by which each cell is drawn, and the number of cells
/// found alive by the last generation.
pub struct Grid<E> {
    cells: Vec<Option<E>>,
    state: Vec<u8>,
    num_alive: usize,
}

impl<E> Grid<E> {
    /// The state of every cell, row after row.
    pub closed spec fn board(&self) -> Seq<u8> {
        self.state@
    }

    /// The drawing handle of every cell, row after row.
    pub closed spec fn entities(&self) -> Seq<Option<E>> {
        self.cells@
    }

    /// The number of living cells that the last generation counted.
    pub closed spec fn living(&self) -> nat {
        self.num_alive as nat
    }

    /// A board of `ROWS * COLS` cells, each alive or counting down from `CELL_LIFETIME`.
    pub open spec fn wf(&self) -> bool {
        &&& self.board().len() == ROWS * COLS
        &&& forall|i: int| 0 <= i < ROWS * COLS ==> #[trigger] self.board()[i] <= CELL_LIFETIME
    }

    /// A grid with all cells dead and `rows * cols` cells without a handle.
    pub fn new(rows: usize, cols: usize) -> (grid: Self)
        requires
            rows * cols <= usize::MAX,
        ensures
            grid.wf(),
            grid.entities() == Seq::new((rows * cols) as nat, |i: int| None::<E>),
            grid.board() == Seq::new((ROWS * COLS) as nat, |i: int| 0u8),
            grid.living() == 0,
    {
        let n = rows * cols;
        let mut cells: Vec<Option<E>> = Vec::with_capacity(n);
        let mut i: usize = 0;
        while i < n
            invariant
                i <= n,
                cells@ == Seq::new(i as nat, |j: int| None::<E>),
            decreases n - i,
        {
            cells.push(None);
            i = i + 1;
        }
        let mut state: Vec<u8> = Vec::new();
        let mut k: usize = 0;
        while k < ROWS * COLS
            invariant
                k <= ROWS * COLS,
                state@ == Seq::new(k as nat, |j: int| 0u8),
            decreases ROWS * COLS - k,
        {
            state.push(0);
            k = k + 1;
        }
        Grid { cells, state, num_alive: 0 }
    }

    /// The number of cells that the last generation found alive.
    pub fn num_alive(&self) -> (n: usize)
        ensures
            n == self.living(),
    {
        self.num_alive
    }

    /// The state of the cell at `row`, `col`.
    pub fn cell_state(&self, row: usize, col: usize) -> (v: u8)
        requires
            self.wf(),
            row < ROWS,
            col < COLS,
        ensures
            v == self.board()[pos(row as int, col as int)],
    {
        proof { lemma_pos_in_board(row as int, col as int); }
        self.state[row * COLS + col]
    }

    /// How the cell at `row`, `col` is drawn.
    pub fn cell_shade(&self, row: usize, col: usize) -> (shade: CellShade)
        requires
            self.wf(),
            row < ROWS,
            col < COLS,
        ensures
            shade == shade_spec(self.board()[pos(row as int, col as int)]),
    {
        shade_of(self.cell_state(row, col))
    }

    /// Gives the cell at flat position `index` the drawing handle `e`.
    pub fn set_entity(&mut self, index: usize, e: E)
        requires
            index < old(self).entities().len(),
        ensures
            final(self).entities() == old(self).entities().update(index as int, Some(e)),
            final(self).board() == old(self).board(),
            final(self).living() == old(self).living(),
    {
        self.cells.set(index, Some(e));
    }

    /// Whether the cell at `row`, `col` is on the board and has a drawing handle.
    pub fn has_entity(&self, row: usize, col: usize) -> (b: bool)
        requires
            row < ROWS && col < COLS ==> pos(row as int, col as int) < self.entities().len(),
        ensures
            b == (row < ROWS && col < COLS && self.entities()[pos(row as int, col as int)] is Some),
    {
        if row < ROWS && col < COLS {
            self.cells[row * COLS + col].is_some()
        } else {
            false
        }
    }

    /// Makes the cells of the startup line alive.
    pub fn place_initial_line(&mut self)
        requires
            old(self).wf(),
        ensures
            final(self).wf(),
            final(self).board() == Seq::new(
                (ROWS * COLS) as nat,
                |i: int|
                    if in_initial_line(i / (COLS as int), i % (COLS as int)) {
                        CELL_LIFETIME
                    } else {
                        old(self).board()[i]
                    },
            ),
            final(self).entities() == old(self).entities(),
            final(self).living() == old(self).living(),
    {
        let ghost start = self.state@;
        let mut row: usize = 0;
        while row < ROWS
            invariant
                row <= ROWS,
                self.state@.len() == ROWS * COLS,
                self.cells@ == old(self).cells@,
                self.num_alive == old(self).num_alive,
                start == old(self).state@,
                forall|i: int|
                    0 <= i < ROWS * COLS ==> #[trigger] self.state@[i] == if i < row * COLS
                        && in_initial_line(i / (COLS as int), i % (COLS as int)) {
                        CELL_LIFETIME
                    } else {
                        start[i]
                    },
            decreases ROWS - row,
        {
            let mut col: usize = 0;
            while col < COLS
                invariant
                    row < ROWS,
                    col <= COLS,
                    self.state@.len() == ROWS * COLS,
                    self.cells@ == old(self).cells@,
                    self.num_alive == old(self).num_alive,
                    start == old(self).state@,
                    forall|i: int|
                        0 <= i < ROWS * COLS ==> #[trigger] self.state@[i] == if i < row * COLS
                            + col && in_initial_line(i / (COLS as int), i % (COLS as int)) {
                            CELL_LIFETIME
                        } else {
                            start[i]
                        },
                decreases COLS - col,
            {
                proof {
                    lemma_pos_div_mod(row as int, col as int);
                    lemma_pos_in_board(row as int, col as int);
                }
                if starts_alive(row, col) {
                    self.state.set(row * COLS + col, CELL_LIFETIME);
                }
                col = col + 1;
            }
            row = row + 1;
        }
    }
}


impl<E: Copy> Grid<E> {
    /// The drawing handle of the cell at `row`, `col`; `None` off the board.
    pub fn get(&self, row: usize, col: usize) -> (e: Option<E>)
        requires
            row < ROWS && col < COLS ==> pos(row as int, col as int) < self.entities().len(),
        ensures
            e == if row < ROWS && col < COLS {
                self.entities()[pos(row as int, col as int)]
            } else {
                None
            },
    {
        if row < ROWS && col < COLS {
            self.cells[row * COLS + col]
        } else {
            None
        }
    }
}

/// Whether the cell at flat position `i` is shown: it has a drawing handle, and
/// the drawing behind that handle was found (`drawn[i]`).
pub open spec fn shown<E>(entities: Seq<Option<E>>, drawn: Seq<bool>, i: int) -> bool {
    entities[i] is Some && drawn[i]
}

/// Number of the first `n` cells that are shown and alive in `next`.
pub open spec fn count_shown_alive<E>(
    entities: Seq<Option<E>>,
    drawn: Seq<bool>,
    next: Seq<bool>,
    n: nat,
) -> nat
    decreases n,
{
    if n == 0 {
        0
    } else {
        count_shown_alive(entities, drawn, next, (n - 1) as nat) + if shown(
            entities,
            drawn,
            n - 1,
        ) && next[n - 1] {
            1nat
        } else {
            0nat
        }
    }
}

/// Whether every cell of the board is shown.
pub open spec fn all_shown<E>(entities: Seq<Option<E>>, drawn: Seq<bool>) -> bool {
    forall|i: int| 0 <= i < ROWS * COLS ==> #[trigger] shown(entities, drawn, i)
}

/// The next state of every cell of `s`, row after row.
pub open spec fn next_states(s: Seq<u8>) -> Seq<bool> {
    Seq::new((ROWS * COLS) as nat, |i: int| next_alive(s, i / (COLS as int), i % (COLS as int)))
}

proof fn lemma_count_all_shown<E>(
    entities: Seq<Option<E>>,
    drawn: Seq<bool>,
    next: Seq<bool>,
    b: Seq<u8>,
    n: nat,
)
    requires
        n <= ROWS * COLS,
        b.len() == ROWS * COLS,
        all_shown(entities, drawn),
        forall|j: int| 0 <= j < ROWS * COLS ==> (#[trigger] b[j] == CELL_LIFETIME <==> next[j]),
    ensures
        count_shown_alive(entities, drawn, next, n) == count_live(b.subrange(0, n as int)),
    decreases n,
{
    if n > 0 {
        lemma_count_all_shown(entities, drawn, next, b, (n - 1) as nat);
        assert(b.subrange(0, n as int).drop_last() =~= b.subrange(0, n - 1));
        assert(shown(entities, drawn, n - 1));
    }
}

impl<E> Grid<E> {
    /// Moves every shown cell to the generation given by `new_state`: a cell alive
    /// there restarts at `CELL_LIFETIME`, every other cell decays by one step. The
    /// shown cells alive in `new_state` are counted; cells that are not shown keep
    /// their state.
    pub fn apply_generation(&mut self, new_state: &Vec<bool>, drawn: &Vec<bool>)
        requires
            old(self).wf(),
            new_state@.len() == ROWS * COLS,
            drawn@.len() == ROWS * COLS,
            old(self).entities().len() >= ROWS * COLS,
        ensures
            final(self).wf(),
            final(self).board() == Seq::new(
                (ROWS * COLS) as nat,
                |i: int|
                    if shown(old(self).entities(), drawn@, i) {
                        aged(old(self).board()[i], new_state@[i])
                    } else {
                        old(self).board()[i]
                    },
            ),
            final(self).living() == count_shown_alive(
                old(self).entities(),
                drawn@,
                new_state@,
                (ROWS * COLS) as nat,
            ),
            all_shown(old(self).entities(), drawn@) ==> final(self).living() == count_live(
                final(self).board(),
            ),
            final(self).entities() == old(self).entities(),
    {
        let ghost start = self.state@;
        let mut num_alive: usize = 0;
        let mut i: usize = 0;
        while i < ROWS * COLS
            invariant
                i <= ROWS * COLS,
                new_state@.len() == ROWS * COLS,
                drawn@.len() == ROWS * COLS,
                self.state@.len() == ROWS * COLS,
                self.cells@ == old(self).cells@,
                self.cells@.len() >= ROWS * COLS,
                start == old(self).state@,
                forall|j: int| 0 <= j < ROWS * COLS ==> #[trigger] start[j] <= CELL_LIFETIME,
                forall|j: int|
                    0 <= j < ROWS * COLS ==> #[trigger] self.state@[j] == if j < i && shown(
                        self.cells@,
                        drawn@,
                        j,
                    ) {
                        aged(start[j], new_state@[j])
                    } else {
                        start[j]
                    },
                num_alive == count_shown_alive(self.cells@, drawn@, new_state@, i as nat),
                num_alive <= i,
            decreases ROWS * COLS - i,
        {
            if self.cells[i].is_some() && drawn[i] {
                if new_state[i] {
                    self.state.set(i, CELL_LIFETIME);
                    num_alive = num_alive + 1;
                } else {
                    if self.state[i] > 0 {
                        let v = self.state[i] - 1;
                        self.state.set(i, v);
                    }
                }
            }
            i = i + 1;
        }
        let ghost result = Seq::new(
            (ROWS * COLS) as nat,
            |j: int|
                if shown(self.cells@, drawn@, j) {
                    aged(start[j], new_state@[j])
                } else {
                    start[j]
                },
        );
        assert(self.state@ =~= result);
        proof {
            if all_shown(self.cells@, drawn@) {
                lemma_count_all_shown(self.cells@, drawn@, new_state@, self.state@, (ROWS * COLS) as nat);
                assert(self.state@.subrange(0, (ROWS * COLS) as int) =~= self.state@);
            }
        }
        self.num_alive = num_alive;
    }

    /// Advances every shown cell by one generation of Life, computed from the whole
    /// board, and counts the shown cells that are alive in it. When every cell is
    /// shown this is one step of `evolve`, and the count is that of the new board.
    pub fn update_cells_sync(&mut self, drawn: &Vec<bool>)
        requires
            old(self).wf(),
            drawn@.len() == ROWS * COLS,
            old(self).entities().len() >= ROWS * COLS,
        ensures
            final(self).wf(),
            final(self).board() == Seq::new(
                (ROWS * COLS) as nat,
                |i: int|
                    if shown(old(self).entities(), drawn@, i) {
                        evolve(old(self).board())[i]
                    } else {
                        old(self).board()[i]
                    },
            ),
            final(self).living() == count_shown_alive(
                old(self).entities(),
                drawn@,
                next_states(old(self).board()),
                (ROWS * COLS) as nat,
            ),
            all_shown(old(self).entities(), drawn@) ==> final(self).board() == evolve(
                old(self).board(),
            ) && final(self).living() == count_live(final(self).board()),
            final(self).entities() == old(self).entities(),
    {
        let new_state = next_generation(&self.state);
        assert(new_state@ =~= next_states(old(self).board()));
        self.apply_generation(&new_state, drawn);
        assert(self.board() =~= Seq::new(
            (ROWS * COLS) as nat,
            |i: int|
                if shown(old(self).entities(), drawn@, i) {
                    evolve(old(self).board())[i]
                } else {
                    old(self).board()[i]
                },
        ));
        proof {
            if all_shown(old(self).entities(), drawn@) {
                assert(self.board() =~= evolve(old(self).board()));
            }
        }
    }

    /// A copy of the state of every cell, row after row.
    pub fn snapshot(&self) -> (s: Vec<u8>)
        ensures
            s@ == self.board(),
    {
        self.state.clone()
    }

    /// Switches the cell at `row`, `col` between alive and dead; returns whether it is alive now.
    pub fn toggle(&mut self, row: usize, col: usize) -> (alive: bool)
        requires
            old(self).wf(),
            row < ROWS,
            col < COLS,
        ensures
            final(self).wf(),
            final(self).board() == old(self).board().update(
                pos(row as int, col as int),
                toggled(old(self).board()[pos(row as int, col as int)]),
            ),
            alive == (final(self).board()[pos(row as int, col as int)] == CELL_LIFETIME),
            final(self).entities() == old(self).entities(),
            final(self).living() == old(self).living(),
    {
        proof { lemma_pos_in_board(row as int, col as int); }
        let index = row * COLS + col;
        if self.state[index] == CELL_LIFETIME {
            self.state.set(index, 0);
            false
        } else {
            self.state.set(index, CELL_LIFETIME);
            true
        }
    }

    /// Handles a click on the tile at `row`, `col`. Unless it is the tile clicked
    /// last, or it lies off the board or has no drawing handle, the tile becomes the
    /// current tile and, when its drawing was found (`drawn`), the cell is toggled
    /// and the result says whether it is alive now.
    pub fn click(&mut self, current: &mut CurrentTile, row: usize, col: usize, drawn: bool) -> (res:
        Option<bool>)
        requires
            old(self).wf(),
            row < ROWS && col < COLS ==> pos(row as int, col as int) < old(self).entities().len(),
        ensures
            final(self).wf(),
            final(self).entities() == old(self).entities(),
            final(self).living() == old(self).living(),
            ({
                let repeated = row == old(current).row && col == old(current).col;
                let on_board = row < ROWS && col < COLS && old(self).entities()[pos(
                    row as int,
                    col as int,
                )] is Some;
                if !repeated && on_board {
                    &&& *final(current) == CurrentTile { row, col }
                    &&& drawn ==> final(self).board() == old(self).board().update(
                        pos(row as int, col as int),
                        toggled(old(self).board()[pos(row as int, col as int)]),
                    ) && res == Some(
                        final(self).board()[pos(row as int, col as int)] == CELL_LIFETIME,
                    )
                    &&& !drawn ==> final(self).board() == old(self).board() && res is None
                } else {
                    &&& final(self).board() == old(self).board()
                    &&& *final(current) == *old(current)
                    &&& res is None
                }
            }),
    {
        let handle_click = if col == current.col && row == current.row {
            false
        } else {
            true
        };
        if handle_click {
            if self.has_entity(row, col) {
                let mut res = None;
                if drawn {
                    res = Some(self.toggle(row, col));
                }
                current.col = col;
                current.row = row;
                return res;
            }
        }
        None
    }

    /// Makes every cell dead, with no decay left.
    pub fn clear(&mut self)
        requires
            old(self).wf(),
        ensures
            final(self).wf(),
            final(self).board() == Seq::new((ROWS * COLS) as nat, |i: int| 0u8),
            final(self).entities() == old(self).entities(),
            final(self).living() == old(self).living(),
    {
        let mut i: usize = 0;
        while i < ROWS * COLS
            invariant
                i <= ROWS * COLS,
                self.state@.len() == ROWS * COLS,
                self.cells@ == old(self).cells@,
                self.num_alive == old(self).num_alive,
                forall|j: int| 0 <= j < i ==> #[trigger] self.state@[j] == 0u8,
            decreases ROWS * COLS - i,
        {
            self.state.set(i, 0);
            i = i + 1;
        }
        assert(self.state@ =~= Seq::new((ROWS * COLS) as nat, |i: int| 0u8));
    }

    /// Sets every cell alive where `alive` says so and dead, with no decay left, elsewhere.
    pub fn fill(&mut self, alive: &Vec<bool>)
        requires
            old(self).wf(),
            alive@.len() == ROWS * COLS,
        ensures
            final(self).wf(),
            final(self).board() == Seq::new(
                (ROWS * COLS) as nat,
                |i: int| if alive@[i] { CELL_LIFETIME } else { 0u8 },
            ),
            final(self).entities() == old(self).entities(),
            final(self).living() == old(self).living(),
    {
        let mut i: usize = 0;
        while i < ROWS * COLS
            invariant
                i <= ROWS * COLS,
                alive@.len() == ROWS * COLS,
                self.state@.len() == ROWS * COLS,
                self.cells@ == old(self).cells@,
                self.num_alive == old(self).num_alive,
                forall|j: int| 0 <= j < ROWS * COLS ==> #[trigger] self.state@[j] <= CELL_LIFETIME,
                forall|j: int|
                    0 <= j < i ==> #[trigger] self.state@[j] == if alive@[j] {
                        CELL_LIFETIME
                    } else {
                        0u8
                    },
            decreases ROWS * COLS - i,
        {
            let value = if alive[i] { CELL_LIFETIME } else { 0 };
            self.state.set(i, value);
            i = i + 1;
        }
        assert(self.state@ =~= Seq::new(
            (ROWS * COLS) as nat,
            |i: int| if alive@[i] { CELL_LIFETIME } else { 0u8 },
        ));
    }
}

} // verus!
