//! The Bayer threshold matrix: its mathematical definition by recursive
//! subdivision, the generator that builds it, and the proof that its
//! thresholds are a permutation of `1..=order²`.

use vstd::prelude::*;

verus! {

/// Largest matrix side for which every threshold still fits in a `u32`.
pub const MAX_BAYER_ORDER: usize = 32768;

/// `n` is one of 1, 2, 4, 8, ...
pub open spec fn is_power_of_two(n: int) -> bool
    decreases n,
{
    if n <= 1 {
        n == 1
    } else {
        n % 2 == 0 && is_power_of_two(n / 2)
    }
}

/// Decides whether `n` is a power of two. Zero is not.
pub fn check_power_of_two(n: usize) -> (r: bool)
    ensures
        r == is_power_of_two(n as int),
{
    if n == 0 {
        return false;
    }
    let mut m: usize = n;
    while m % 2 == 0
        invariant
            m >= 1,
            is_power_of_two(m as int) == is_power_of_two(n as int),
        decreases m,
    {
        m = m / 2;
    }
    m == 1
}

/// What the quadrant of a cell adds to four times the rank of the cell it
/// was derived from: 1 top-left, 3 top-right, 2 bottom-left, 0 bottom-right.
pub open spec fn quadrant_offset(lower: bool, right: bool) -> int {
    if lower {
        if right {
            0
        } else {
            2
        }
    } else {
        if right {
            3
        } else {
            1
        }
    }
}

/// The 0-based rank of cell `(row, col)` in the `size`×`size` pattern.
///
/// The 1×1 pattern holds rank 0. The pattern of side `size` is built from
/// the one of side `size / 2`: a cell takes four times the rank of the cell
/// at the same place within its quadrant, plus the offset of the quadrant.
pub open spec fn bayer_rank(size: int, row: int, col: int) -> int
    decreases size,
{
    if size <= 1 {
        0
    } else {
        let half = size / 2;
        let r = if row >= half { row - half } else { row };
        let c = if col >= half { col - half } else { col };
        4 * bayer_rank(half, r, c) + quadrant_offset(row >= half, col >= half)
    }
}

/// The threshold at `(row, col)` of the Bayer matrix of side `order`:
/// the rank of the cell, counted from 1.
pub open spec fn bayer_threshold(order: int, row: int, col: int) -> int {
    bayer_rank(order, row, col) + 1
}

/// Some cell of the matrix of side `order` holds the threshold `k`.
pub open spec fn threshold_occurs(order: int, k: int) -> bool {
    exists|row: int, col: int|
        0 <= row < order && 0 <= col < order && #[trigger] bayer_threshold(order, row, col) == k
}

/// Position of cell `(row, col)` in a row-major array of rows of `n` cells.
pub open spec fn flat_index(n: int, row: int, col: int) -> int {
    row * n + col
}

proof fn lemma_flat_index_in_range(n: int, row: int, col: int)
    requires
        0 <= row < n,
        0 <= col < n,
    ensures
        0 <= flat_index(n, row, col) < n * n,
{
    assert(row * n + col < n * n) by (nonlinear_arith)
        requires
            0 <= row < n,
            0 <= col < n,
    ;
    assert(0 <= row * n) by (nonlinear_arith)
        requires
            0 <= row,
            0 <= n,
    ;
}

proof fn lemma_flat_index_injective(n: int, r1: int, c1: int, r2: int, c2: int)
    requires
        0 <= r1 < n,
        0 <= c1 < n,
        0 <= r2 < n,
        0 <= c2 < n,
        flat_index(n, r1, c1) == flat_index(n, r2, c2),
    ensures
        r1 == r2,
        c1 == c2,
{
    assert(r1 == r2) by (nonlinear_arith)
        requires
            0 <= c1 < n,
            0 <= c2 < n,
            r1 * n + c1 == r2 * n + c2,
    ;
}

proof fn lemma_power_of_two_positive(n: int)
    requires
        is_power_of_two(n),
    ensures
        n >= 1,
{
}

/// Between two distinct powers of two lies at least a factor of two.
proof fn lemma_power_of_two_gap(a: int, b: int)
    requires
        is_power_of_two(a),
        is_power_of_two(b),
        a < b,
    ensures
        2 * a <= b,
    decreases a + b,
{
    lemma_power_of_two_positive(a);
    if a > b / 2 {
        lemma_power_of_two_gap(b / 2, a);
    }
}

proof fn lemma_square_of_double(half: int)
    ensures
        (2 * half) * (2 * half) == 4 * (half * half),
{
    assert((2 * half) * (2 * half) == 4 * (half * half)) by (nonlinear_arith);
}

/// Every rank of the pattern of side `size` lies in `0..size²`.
pub proof fn lemma_rank_in_range(size: int, row: int, col: int)
    requires
        is_power_of_two(size),
        0 <= row < size,
        0 <= col < size,
    ensures
        0 <= bayer_rank(size, row, col) < size * size,
    decreases size,
{
    if size > 1 {
        let half = size / 2;
        let r = if row >= half { row - half } else { row };
        let c = if col >= half { col - half } else { col };
        lemma_rank_in_range(half, r, c);
        lemma_square_of_double(half);
    }
}

/// Two cells of the pattern with the same rank are the same cell.
pub proof fn lemma_rank_injective(size: int, r1: int, c1: int, r2: int, c2: int)
    requires
        is_power_of_two(size),
        0 <= r1 < size,
        0 <= c1 < size,
        0 <= r2 < size,
        0 <= c2 < size,
        bayer_rank(size, r1, c1) == bayer_rank(size, r2, c2),
    ensures
        r1 == r2,
        c1 == c2,
    decreases size,
{
    if size > 1 {
        let half = size / 2;
        let a1 = if r1 >= half { r1 - half } else { r1 };
        let b1 = if c1 >= half { c1 - half } else { c1 };
        let a2 = if r2 >= half { r2 - half } else { r2 };
        let b2 = if c2 >= half { c2 - half } else { c2 };
        lemma_rank_injective(half, a1, b1, a2, b2);
    }
}

/// The cell of the pattern of side `size` that holds rank `k`.
pub proof fn lemma_rank_position(size: int, k: int) -> (cell: (int, int))
    requires
        is_power_of_two(size),
        0 <= k < size * size,
    ensures
        0 <= cell.0 < size,
        0 <= cell.1 < size,
        bayer_rank(size, cell.0, cell.1) == k,
    decreases size,
{
    if size <= 1 {
        assert(size * size == 1) by (nonlinear_arith)
            requires
                size == 1,
        ;
        (0, 0)
    } else {
        let half = size / 2;
        lemma_square_of_double(half);
        let inner = lemma_rank_position(half, k / 4);
        let offset = k % 4;
        let row = if offset == 2 || offset == 0 { inner.0 + half } else { inner.0 };
        let col = if offset == 3 || offset == 0 { inner.1 + half } else { inner.1 };
        assert(quadrant_offset(row >= half, col >= half) == offset);
        assert(bayer_rank(size, row, col) == 4 * bayer_rank(half, inner.0, inner.1) + offset);
        (row, col)
    }
}

/// The thresholds of the Bayer matrix of side `order` are a permutation of
/// `1..=order²`: each lies in that range, no two cells share one, and every
/// number of the range is the threshold of some cell.
pub proof fn lemma_thresholds_are_permutation(order: int)
    requires
        is_power_of_two(order),
    ensures
        forall|row: int, col: int|
            0 <= row < order && 0 <= col < order ==> 1 <= #[trigger] bayer_threshold(
                order,
                row,
                col,
            ) <= order * order,
        forall|r1: int, c1: int, r2: int, c2: int|
            0 <= r1 < order && 0 <= c1 < order && 0 <= r2 < order && 0 <= c2 < order
                && #[trigger] bayer_threshold(order, r1, c1) == #[trigger] bayer_threshold(
                order,
                r2,
                c2,
            ) ==> r1 == r2 && c1 == c2,
        forall|k: int| 1 <= k <= order * order ==> #[trigger] threshold_occurs(order, k),
{
    assert forall|row: int, col: int| 0 <= row < order && 0 <= col < order implies 1
        <= #[trigger] bayer_threshold(order, row, col) <= order * order by {
        lemma_rank_in_range(order, row, col);
    }
    assert forall|r1: int, c1: int, r2: int, c2: int|
        0 <= r1 < order && 0 <= c1 < order && 0 <= r2 < order && 0 <= c2 < order
            && #[trigger] bayer_threshold(order, r1, c1) == #[trigger] bayer_threshold(
            order,
            r2,
            c2,
        ) implies r1 == r2 && c1 == c2 by {
        lemma_rank_injective(order, r1, c1, r2, c2);
    }
    assert forall|k: int| 1 <= k <= order * order implies #[trigger] threshold_occurs(
        order,
        k,
    ) by {
        let cell = lemma_rank_position(order, k - 1);
        assert(bayer_threshold(order, cell.0, cell.1) == k);
    }
}

/// The Bayer matrix of side `order`, row by row.
pub open spec fn bayer_matrix(order: int) -> Seq<Seq<int>> {
    Seq::new(
        order as nat,
        |row: int| Seq::new(order as nat, |col: int| bayer_threshold(order, row, col)),
    )
}

/// Every rank that a pattern of side up to `MAX_BAYER_ORDER` can hold is
/// below this bound.
const RANK_LIMIT: u32 = 0x4000_0000;

proof fn lemma_flat_index_injective_everywhere(n: int)
    ensures
        forall|r1: int, c1: int, r2: int, c2: int|
            0 <= r1 < n && 0 <= c1 < n && 0 <= r2 < n && 0 <= c2 < n && #[trigger] flat_index(
                n,
                r1,
                c1,
            ) == #[trigger] flat_index(n, r2, c2) ==> r1 == r2 && c1 == c2,
{
    assert forall|r1: int, c1: int, r2: int, c2: int|
        0 <= r1 < n && 0 <= c1 < n && 0 <= r2 < n && 0 <= c2 < n && #[trigger] flat_index(
            n,
            r1,
            c1,
        ) == #[trigger] flat_index(n, r2, c2) implies r1 == r2 && c1 == c2 by {
        lemma_flat_index_injective(n, r1, c1, r2, c2);
    }
}

/// How far the doubling step from side `s` to side `2 * s` has come for the
/// cell `(a, b)` of the old pattern, when the step walks the old pattern row
/// by row and stands before `(i, j)`: a cell already walked has been replaced
/// by its four descendants, a cell still ahead holds its old rank.
spec fn block_state(cells: Seq<u32>, n: int, s: int, a: int, b: int, i: int, j: int) -> bool {
    if a < i || (a == i && b < j) {
        &&& cells[flat_index(n, a, b)] == bayer_rank(2 * s, a, b)
        &&& cells[flat_index(n, a + s, b)] == bayer_rank(2 * s, a + s, b)
        &&& cells[flat_index(n, a, b + s)] == bayer_rank(2 * s, a, b + s)
        &&& cells[flat_index(n, a + s, b + s)] == bayer_rank(2 * s, a + s, b + s)
    } else {
        cells[flat_index(n, a, b)] == bayer_rank(s, a, b)
    }
}

fn cell_index(order: usize, row: usize, col: usize) -> (k: usize)
    requires
        row < order,
        col < order,
        order <= MAX_BAYER_ORDER,
    ensures
        k == flat_index(order as int, row as int, col as int),
        k < order * order,
{
    proof {
        lemma_flat_index_in_range(order as int, row as int, col as int);
        assert(order * order <= 0x4000_0000) by (nonlinear_arith)
            requires
                0 <= order <= 32768,
        ;
    }
    row * order + col
}

/// A Bayer threshold matrix. A value of this type always holds the whole
/// matrix of its order, as `bayer_matrix` defines it.
pub struct BayerMatrix {
    order: usize,
    cells: Vec<u32>,
}

impl View for BayerMatrix {
    type V = Seq<Seq<int>>;

    closed spec fn view(&self) -> Seq<Seq<int>> {
        Seq::new(
            self.order as nat,
            |row: int|
                Seq::new(
                    self.order as nat,
                    |col: int| self.cells@[flat_index(self.order as int, row, col)] as int,
                ),
        )
    }
}

impl BayerMatrix {
    #[verifier::type_invariant]
    spec fn well_formed(self) -> bool {
        &&& is_power_of_two(self.order as int)
        &&& self.order <= MAX_BAYER_ORDER
        &&& self.cells@.len() == self.order * self.order
        &&& forall|row: int, col: int|
            0 <= row < self.order && 0 <= col < self.order ==> self.cells@[#[trigger] flat_index(
                self.order as int,
                row,
                col,
            )] == bayer_threshold(self.order as int, row, col)
    }

    /// The side length of the matrix.
    pub fn order(&self) -> (n: usize)
        ensures
            n == self@.len(),
            is_power_of_two(n as int),
            n <= MAX_BAYER_ORDER,
            self@ == bayer_matrix(n as int),
    {
        proof {
            use_type_invariant(self);
            assert(self@ =~~= bayer_matrix(self.order as int));
        }
        self.order
    }

    /// The threshold at `(row, col)`.
    pub fn get(&self, row: usize, col: usize) -> (v: u32)
        requires
            row < self@.len(),
            col < self@.len(),
        ensures
            v == self@[row as int][col as int],
            v == bayer_threshold(self@.len() as int, row as int, col as int),
            1 <= v <= self@.len() * self@.len(),
    {
        proof {
            use_type_invariant(self);
            lemma_rank_in_range(self.order as int, row as int, col as int);
        }
        let k = cell_index(self.order, row, col);
        self.cells[k]
    }

    /// The matrix as a vector of rows.
    pub fn to_rows(&self) -> (rows: Vec<Vec<u32>>)
        ensures
            rows@.len() == self@.len(),
            forall|row: int|
                0 <= row < rows@.len() ==> (#[trigger] rows@[row])@.len() == self@.len(),
            forall|row: int, col: int|
                0 <= row < self@.len() && 0 <= col < self@.len() ==> rows@[row]@[col]
                    == #[trigger] self@[row][col],
    {
        proof {
            use_type_invariant(self);
        }
        let mut rows: Vec<Vec<u32>> = Vec::new();
        let mut row: usize = 0;
        while row < self.order
            invariant
                row <= self.order,
                self.order == self@.len(),
                self.order <= MAX_BAYER_ORDER,
                self.cells@.len() == self.order * self.order,
                rows@.len() == row,
                forall|r: int| 0 <= r < row ==> (#[trigger] rows@[r])@.len() == self.order,
                forall|r: int, c: int|
                    0 <= r < row && 0 <= c < self.order ==> rows@[r]@[c] == #[trigger] self@[r][c],
            decreases self.order - row,
        {
            let mut line: Vec<u32> = Vec::new();
            let mut col: usize = 0;
            while col < self.order
                invariant
                    row < self.order,
                    col <= self.order,
                    self.order == self@.len(),
                    self.order <= MAX_BAYER_ORDER,
                    self.cells@.len() == self.order * self.order,
                    line@.len() == col,
                    forall|c: int| 0 <= c < col ==> line@[c] == #[trigger] self@[row as int][c],
                decreases self.order - col,
            {
                let k = cell_index(self.order, row, col);
                line.push(self.cells[k]);
                col += 1;
            }
            rows.push(line);
            row += 1;
        }
        rows
    }
}

/// Builds the Bayer matrix of side `order` by repeated doubling: from the
/// 1×1 pattern that holds rank 0, each step replaces every cell by its four
/// descendants, one per quadrant of the doubled pattern; at the end every
/// rank is raised by one.
pub fn generate_bayer_matrix(order: usize) -> (matrix: BayerMatrix)
    requires
        is_power_of_two(order as int),
        order <= MAX_BAYER_ORDER,
    ensures
        matrix@ == bayer_matrix(order as int),
{
    proof {
        assert(order * order <= 0x4000_0000) by (nonlinear_arith)
            requires
                0 <= order <= 32768,
        ;
        lemma_power_of_two_positive(order as int);
    }
    let total: usize = order * order;
    let mut cells: Vec<u32> = vec![0u32; total];
    let mut size: usize = 1;
    proof {
        lemma_flat_index_in_range(order as int, 0, 0);
    }
    while size < order
        invariant
            is_power_of_two(order as int),
            is_power_of_two(size as int),
            order <= MAX_BAYER_ORDER,
            1 <= size <= order,
            total == order * order,
            cells@.len() == total,
            forall|k: int| 0 <= k < cells@.len() ==> cells@[k] < RANK_LIMIT,
            forall|r: int, c: int|
                0 <= r < size && 0 <= c < size ==> cells@[#[trigger] flat_index(
                    order as int,
                    r,
                    c,
                )] == bayer_rank(size as int, r, c),
        decreases order - size,
    {
        proof {
            lemma_power_of_two_gap(size as int, order as int);
            assert(size * size <= 0x1000_0000) by (nonlinear_arith)
                requires
                    0 <= size <= 16384,
            ;
        }
        let mut i: usize = 0;
        while i < size
            invariant
                is_power_of_two(size as int),
                order <= MAX_BAYER_ORDER,
                1 <= size,
                2 * size <= order,
                size * size <= 0x1000_0000,
                i <= size,
                cells@.len() == order * order,
                forall|k: int| 0 <= k < cells@.len() ==> cells@[k] < RANK_LIMIT,
                forall|a: int, b: int|
                    0 <= a < size && 0 <= b < size ==> #[trigger] block_state(
                        cells@,
                        order as int,
                        size as int,
                        a,
                        b,
                        i as int,
                        0,
                    ),
            decreases size - i,
        {
            let mut j: usize = 0;
            while j < size
                invariant
                    is_power_of_two(size as int),
                    order <= MAX_BAYER_ORDER,
                    1 <= size,
                    2 * size <= order,
                    size * size <= 0x1000_0000,
                    i < size,
                    j <= size,
                    cells@.len() == order * order,
                    forall|k: int| 0 <= k < cells@.len() ==> cells@[k] < RANK_LIMIT,
                    forall|a: int, b: int|
                        0 <= a < size && 0 <= b < size ==> #[trigger] block_state(
                            cells@,
                            order as int,
                            size as int,
                            a,
                            b,
                            i as int,
                            j as int,
                        ),
                decreases size - j,
            {
                let here = cell_index(order, i, j);
                let below = cell_index(order, i + size, j);
                let beside = cell_index(order, i, j + size);
                let across = cell_index(order, i + size, j + size);
                let val = cells[here];
                let ghost before = cells@;
                proof {
                    assert(block_state(
                        before,
                        order as int,
                        size as int,
                        i as int,
                        j as int,
                        i as int,
                        j as int,
                    ));
                    lemma_rank_in_range(size as int, i as int, j as int);
                    lemma_flat_index_injective_everywhere(order as int);
                }
                cells.set(here, 4 * val + 1);
                cells.set(below, 4 * val + 2);
                cells.set(beside, 4 * val + 3);
                cells.set(across, 4 * val);
                proof {
                    assert forall|a: int, b: int|
                        0 <= a < size && 0 <= b < size implies #[trigger] block_state(
                        cells@,
                        order as int,
                        size as int,
                        a,
                        b,
                        i as int,
                        j + 1,
                    ) by {
                        assert(block_state(
                            before,
                            order as int,
                            size as int,
                            a,
                            b,
                            i as int,
                            j as int,
                        ));
                        lemma_flat_index_in_range(order as int, a, b);
                        lemma_flat_index_in_range(order as int, a + size, b);
                        lemma_flat_index_in_range(order as int, a, b + size);
                        lemma_flat_index_in_range(order as int, a + size, b + size);
                    }
                }
                j += 1;
            }
            proof {
                assert forall|a: int, b: int|
                    0 <= a < size && 0 <= b < size implies #[trigger] block_state(
                    cells@,
                    order as int,
                    size as int,
                    a,
                    b,
                    i + 1,
                    0,
                ) by {
                    assert(block_state(
                        cells@,
                        order as int,
                        size as int,
                        a,
                        b,
                        i as int,
                        size as int,
                    ));
                }
            }
            i += 1;
        }
        proof {
            assert forall|r: int, c: int|
                0 <= r < 2 * size && 0 <= c < 2 * size implies cells@[#[trigger] flat_index(
                order as int,
                r,
                c,
            )] == bayer_rank(2 * size, r, c) by {
                let a = if r >= size { r - size } else { r };
                let b = if c >= size { c - size } else { c };
                assert(block_state(cells@, order as int, size as int, a, b, size as int, 0));
            }
        }
        size = 2 * size;
    }
    let ghost ranks = cells@;
    let mut k: usize = 0;
    while k < total
        invariant
            k <= total,
            cells@.len() == total,
            ranks.len() == total,
            forall|t: int| 0 <= t < total ==> ranks[t] < RANK_LIMIT,
            forall|t: int| 0 <= t < k ==> #[trigger] cells@[t] == ranks[t] + 1,
            forall|t: int| k <= t < total ==> #[trigger] cells@[t] == ranks[t],
        decreases total - k,
    {
        let rank = cells[k];
        cells.set(k, rank + 1);
        k += 1;
    }
    proof {
        assert forall|row: int, col: int|
            0 <= row < order && 0 <= col < order implies cells@[#[trigger] flat_index(
            order as int,
            row,
            col,
        )] == bayer_threshold(order as int, row, col) by {
            lemma_flat_index_in_range(order as int, row, col);
        }
    }
    let matrix = BayerMatrix { order, cells };
    proof {
        assert(matrix@ =~~= bayer_matrix(order as int));
    }
    matrix
}

/// Builds the Bayer matrix of side `order` if there is one that this
/// library can hold: `order` a power of two, at most `MAX_BAYER_ORDER`.
pub fn try_generate_bayer_matrix(order: usize) -> (matrix: Option<BayerMatrix>)
    ensures
        matrix is Some <==> is_power_of_two(order as int) && order <= MAX_BAYER_ORDER,
        matrix matches Some(m) ==> m@ == bayer_matrix(order as int),
{
    if order <= MAX_BAYER_ORDER && check_power_of_two(order) {
        Some(generate_bayer_matrix(order))
    } else {
        None
    }
}

/// Two matrices generated for the same order are equal, cell for cell.
pub proof fn lemma_generation_is_deterministic(first: BayerMatrix, second: BayerMatrix, order: int)
    requires
        first@ == bayer_matrix(order),
        second@ == bayer_matrix(order),
    ensures
        first@ == second@,
{
}

} // verus!
