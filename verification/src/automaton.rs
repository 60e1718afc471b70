//! The automaton engine: the rolling history of rows, the transition rule,
//! and the detectors that signal when the pattern has settled.

use vstd::prelude::*;

verus! {

/// Packs a three-cell neighborhood into its 3-bit index:
/// `left` contributes 4, `center` 2, `right` 1.
pub open spec fn triple_index(left: bool, center: bool, right: bool) -> int {
    (if left { 4int } else { 0int }) + (if center { 2int } else { 0int })
        + (if right { 1int } else { 0int })
}

/// The next state of a cell under `rule`: bit `triple_index(left, center, right)`
/// of `rule`, read as a boolean.
pub open spec fn rule_output(rule: u8, left: bool, center: bool, right: bool) -> bool {
    rule & (1u8 << (triple_index(left, center, right) as u8)) != 0
}

/// The generation that follows `row` under `rule`, with a dead border: the
/// off-grid neighbors of the two edge cells are fixed to `false`.
pub open spec fn next_row(rule: u8, row: Seq<bool>) -> Seq<bool> {
    Seq::new(
        row.len(),
        |i: int|
            rule_output(
                rule,
                if i == 0 { false } else { row[i - 1] },
                row[i],
                if i == row.len() - 1 { false } else { row[i + 1] },
            ),
    )
}

/// Every cell of `row` equals `b`.
pub open spec fn row_all(row: Seq<bool>, b: bool) -> bool {
    forall|i: int| 0 <= i < row.len() ==> row[i] == b
}

/// Every cell of `row` has the same value: all `true` or all `false`.
pub open spec fn row_uniform(row: Seq<bool>) -> bool {
    row_all(row, true) || row_all(row, false)
}

/// The most recent `p` rows of `s` are identical, row for row, to the `p`
/// rows immediately preceding them.
pub open spec fn has_period(s: Seq<Vec<bool>>, p: int) -> bool {
    forall|i: int|
        0 <= i < p ==> (#[trigger] s[s.len() - 1 - i])@ == s[s.len() - 1 - i - p]@
}

/// Some period in `1 .. MAX_PERIOD` repeats at the end of `s`.
pub open spec fn history_periodic(s: Seq<Vec<bool>>) -> bool {
    exists|p: int| 1 <= p < MAX_PERIOD && #[trigger] has_period(s, p)
}

/// Exclusive upper bound of the period search window.
pub const MAX_PERIOD: usize = 10;

/// Pixel value for a dead cell.
pub const BLACK: u32 = 0x00000000;

/// Pixel value for a live cell.
pub const WHITE: u32 = 0x00FFFFFF;

/// A one-dimensional elementary cellular automaton with a rolling history.
///
/// `states` holds the most recent generations, oldest first, newest last.
/// Every row has the same width, and the history length never changes after
/// construction.
pub struct Automaton {
    pub rule: u8,
    pub states: Vec<Vec<bool>>,
    pub age: usize,
}

impl Automaton {
    /// Builds an automaton from an explicit seed row: `height - 1` all-dead
    /// rows followed by `seed` as the newest row, with age zero.
    pub fn with_seed(rule: u8, height: usize, seed: Vec<bool>) -> (a: Automaton)
        requires
            seed@.len() >= 3,
            height >= 1,
        ensures
            a.wf(),
            a.rule == rule,
            a.age == 0,
            a.height() == height,
            a.width() == seed@.len(),
            forall|i: int| 0 <= i < height - 1 ==> row_all((#[trigger] a.states@[i])@, false),
            a.states@[height - 1]@ == seed@,
    {
        let w = seed.len();
        let mut states: Vec<Vec<bool>> = Vec::new();
        let mut i: usize = 0;
        while i < height - 1
            invariant
                0 <= i <= height - 1,
                states@.len() == i,
                forall|k: int| 0 <= k < i ==> (#[trigger] states@[k])@.len() == w,
                forall|k: int| 0 <= k < i ==> row_all((#[trigger] states@[k])@, false),
            decreases height - 1 - i,
        {
            states.push(all_false_row(w));
            i += 1;
        }
        states.push(seed);
        Automaton { rule, states, age: 0 }
    }

    /// Builds an automaton whose seed row is drawn from the random source:
    /// `height - 1` all-dead rows, then one row of independent uniform
    /// random booleans. Age starts at zero.
    pub fn new(rule: u8, width: usize, height: usize) -> (a: Automaton)
        requires
            width >= 3,
            height >= 1,
        ensures
            a.wf(),
            a.rule == rule,
            a.age == 0,
            a.height() == height,
            a.width() == width,
            forall|i: int| 0 <= i < height - 1 ==> row_all((#[trigger] a.states@[i])@, false),
    {
        let seed = crate::rng::random_row(width);
        Automaton::with_seed(rule, height, seed)
    }

    /// Grid width: the length of each row.
    pub open spec fn width(self) -> int {
        self.states@[0]@.len() as int
    }

    /// Grid height: the number of retained generations.
    pub open spec fn height(self) -> int {
        self.states@.len() as int
    }

    /// Well-formedness: at least one row, every row of the same width, and a
    /// width of at least three so the two edge cells are distinct from each
    /// other and have at least one neighbor on the grid.
    pub open spec fn wf(self) -> bool {
        &&& self.states@.len() >= 1
        &&& self.width() >= 3
        &&& forall|i: int|
            0 <= i < self.states@.len() ==> (#[trigger] self.states@[i])@.len() == self.width()
    }

    /// Evaluates the transition rule on one neighborhood.
    pub fn eval(&self, left: bool, center: bool, right: bool) -> (r: bool)
        ensures
            r == rule_output(self.rule, left, center, right),
    {
        let i: u8 = (if left { 4u8 } else { 0u8 }) + (if center { 2u8 } else { 0u8 })
            + (if right { 1u8 } else { 0u8 });
        self.rule & (1u8 << i) != 0
    }

    /// Computes the generation that follows `last`, applying the rule to every
    /// cell with the dead-border convention at the two edges.
    fn compute_next(&self, last: &Vec<bool>) -> (r: Vec<bool>)
        requires
            last@.len() >= 3,
        ensures
            r@ == next_row(self.rule, last@),
    {
        let n = last.len();
        let mut next: Vec<bool> = Vec::new();
        next.push(self.eval(false, last[0], last[1]));
        let mut i: usize = 1;
        while i < n - 1
            invariant
                3 <= n == last@.len(),
                1 <= i <= n - 1,
                next@.len() == i,
                forall|k: int| 0 <= k < i ==> next@[k] == next_row(self.rule, last@)[k],
            decreases n - i,
        {
            next.push(self.eval(last[i - 1], last[i], last[i + 1]));
            i += 1;
        }
        next.push(self.eval(last[n - 2], last[n - 1], false));
        assert(next@ =~= next_row(self.rule, last@));
        next
    }

    /// Advances the automaton one generation: appends the successor of the
    /// newest row, evicts the oldest row, and increments the age.
    pub fn step(&mut self)
        requires
            old(self).wf(),
            old(self).age < usize::MAX,
        ensures
            final(self).wf(),
            final(self).rule == old(self).rule,
            final(self).age == old(self).age + 1,
            final(self).height() == old(self).height(),
            final(self).width() == old(self).width(),
            forall|i: int|
                0 <= i < old(self).height() - 1 ==> (#[trigger] final(self).states@[i])@
                    == old(self).states@[i + 1]@,
            final(self).states@[final(self).height() - 1]@ == next_row(
                old(self).rule,
                old(self).states@[old(self).height() - 1]@,
            ),
            cell_count(final(self).states@) == cell_count(old(self).states@),
    {
        let h = self.states.len();
        let next = self.compute_next(&self.states[h - 1]);
        self.states.push(next);
        self.states.remove(0);
        self.age += 1;
        proof {
            lemma_cell_count_uniform_width(old(self).states@, old(self).width());
            lemma_cell_count_uniform_width(self.states@, old(self).width());
        }
    }

    /// True iff the newest row is uniform: every cell `true`, or every cell
    /// `false`.
    pub fn uniform(&self) -> (r: bool)
        requires
            self.wf(),
        ensures
            r == row_uniform(self.states@[self.height() - 1]@),
    {
        let last = &self.states[self.states.len() - 1];
        let n = last.len();
        let mut all_true = true;
        let mut all_false = true;
        let mut i: usize = 0;
        while i < n
            invariant
                n == last@.len(),
                0 <= i <= n,
                all_true == (forall|k: int| 0 <= k < i ==> #[trigger] last@[k] == true),
                all_false == (forall|k: int| 0 <= k < i ==> #[trigger] last@[k] == false),
            decreases n - i,
        {
            if last[i] {
                all_false = false;
            } else {
                all_true = false;
            }
            i += 1;
        }
        all_true || all_false
    }

    /// True iff the most recent `p` rows repeat the `p` rows before them.
    fn matches_period(&self, p: usize) -> (r: bool)
        requires
            self.wf(),
            1 <= p,
            self.states@.len() >= 2 * p,
        ensures
            r == has_period(self.states@, p as int),
    {
        let n = self.states.len() - 1;
        let mut i: usize = 0;
        while i < p
            invariant
                self.wf(),
                1 <= p,
                self.states@.len() >= 2 * p,
                n == self.states@.len() - 1,
                0 <= i <= p,
                forall|j: int|
                    0 <= j < i ==> (#[trigger] self.states@[n - j])@
                        == self.states@[n - j - p]@,
            decreases p - i,
        {
            if !rows_equal(&self.states[n - i], &self.states[n - i - p]) {
                assert(!has_period(self.states@, p as int));
                return false;
            }
            i += 1;
        }
        assert(has_period(self.states@, p as int));
        true
    }

    /// True iff some period `p` in `1 .. MAX_PERIOD` repeats at the end of
    /// the history: the most recent `p` rows equal the `p` rows immediately
    /// before them. The history must be long enough for the widest window the
    /// search may probe.
    pub fn periodic(&self) -> (r: bool)
        requires
            self.wf(),
            self.states@.len() >= 2 * (MAX_PERIOD - 1),
        ensures
            r == history_periodic(self.states@),
    {
        let mut p: usize = 1;
        while p < MAX_PERIOD
            invariant
                self.wf(),
                self.states@.len() >= 2 * (MAX_PERIOD - 1),
                1 <= p <= MAX_PERIOD,
                forall|q: int| 1 <= q < p ==> !#[trigger] has_period(self.states@, q),
            decreases MAX_PERIOD - p,
        {
            if self.matches_period(p) {
                return true;
            }
            p += 1;
        }
        assert(!history_periodic(self.states@));
        false
    }

    /// Current age: the number of generations advanced since construction.
    pub fn age(&self) -> (r: usize)
        ensures
            r == self.age,
    {
        self.age
    }

    /// Projects the history onto a row-major pixel buffer: one pixel per
    /// cell, oldest row first, `WHITE` for a live cell and `BLACK` for a
    /// dead one.
    pub fn render(&self) -> (r: Vec<u32>)
        requires
            self.wf(),
        ensures
            r@.len() == self.height() * self.width(),
            forall|i: int, j: int|
                0 <= i < self.height() && 0 <= j < self.width() ==> r@[i * self.width() + j]
                    == (if self.states@[i]@[j] { WHITE } else { BLACK }),
            forall|k: int| 0 <= k < r@.len() ==> r@[k] == WHITE || #[trigger] r@[k] == BLACK,
    {
        let w = self.states[0].len();
        let h = self.states.len();
        let mut r: Vec<u32> = Vec::new();
        let mut i: usize = 0;
        while i < h
            invariant
                self.wf(),
                w == self.width(),
                h == self.height(),
                0 <= i <= h,
                r@.len() == i * self.width(),
                forall|a: int, b: int|
                    0 <= a < i && 0 <= b < w ==> r@[a * self.width() + b]
                        == (if self.states@[a]@[b] { WHITE } else { BLACK }),
                forall|k: int| 0 <= k < r@.len() ==> r@[k] == WHITE || #[trigger] r@[k] == BLACK,
            decreases h - i,
        {
            let row = &self.states[i];
            let mut j: usize = 0;
            while j < w
                invariant
                    self.wf(),
                    w == self.width(),
                    h == self.height(),
                    0 <= i < h,
                    row == &self.states[i as int],
                    0 <= j <= w,
                    r@.len() == i * self.width() + j,
                    forall|a: int, b: int|
                        0 <= a < i && 0 <= b < w ==> r@[a * self.width() + b]
                            == (if self.states@[a]@[b] { WHITE } else { BLACK }),
                    forall|b: int|
                        0 <= b < j ==> r@[i * self.width() + b]
                            == (if self.states@[i as int]@[b] { WHITE } else { BLACK }),
                    forall|k: int|
                        0 <= k < r@.len() ==> r@[k] == WHITE || #[trigger] r@[k] == BLACK,
                decreases w - j,
            {
                r.push(if row[j] { WHITE } else { BLACK });
                proof {
                    assert forall|a: int, b: int|
                        0 <= a < i && 0 <= b < w implies #[trigger] (a * self.width() + b) < i
                        * self.width() by {
                        vstd::arithmetic::mul::lemma_mul_inequality(a + 1, i as int, self.width());
                        vstd::arithmetic::mul::lemma_mul_is_distributive_add_other_way(
                            self.width(),
                            a,
                            1,
                        );
                    };
                }
                j += 1;
            }
            proof {
                vstd::arithmetic::mul::lemma_mul_is_distributive_add_other_way(
                    self.width(),
                    i as int,
                    1,
                );
            }
            i += 1;
        }
        r
    }
}

/// A row of `width` dead cells.
fn all_false_row(width: usize) -> (r: Vec<bool>)
    ensures
        r@.len() == width,
        row_all(r@, false),
{
    let mut r: Vec<bool> = Vec::new();
    let mut i: usize = 0;
    while i < width
        invariant
            0 <= i <= width,
            r@.len() == i,
            row_all(r@, false),
        decreases width - i,
    {
        r.push(false);
        i += 1;
    }
    r
}

/// Law: rule 0 maps every neighborhood to a dead cell, so the successor of
/// any row is uniformly dead and the uniform detector fires after one tick.
pub proof fn lemma_rule_zero_next_row(row: Seq<bool>)
    ensures
        row_all(next_row(0u8, row), false),
        row_uniform(next_row(0u8, row)),
{
    assert forall|i: int| 0 <= i < next_row(0u8, row).len() implies next_row(0u8, row)[i]
        == false by {
        let l = if i == 0 { false } else { row[i - 1] };
        let c = row[i];
        let r = if i == row.len() - 1 { false } else { row[i + 1] };
        let b = triple_index(l, c, r) as u8;
        assert(0u8 & (1u8 << b) == 0) by (bit_vector);
    }
}

/// Law: rule 255 maps every neighborhood to a live cell, so the successor of
/// any row is uniformly live and the uniform detector fires after one tick.
pub proof fn lemma_rule_max_next_row(row: Seq<bool>)
    ensures
        row_all(next_row(255u8, row), true),
        row_uniform(next_row(255u8, row)),
{
    assert forall|i: int| 0 <= i < next_row(255u8, row).len() implies next_row(255u8, row)[i]
        == true by {
        let l = if i == 0 { false } else { row[i - 1] };
        let c = row[i];
        let r = if i == row.len() - 1 { false } else { row[i + 1] };
        let b = triple_index(l, c, r) as u8;
        assert(b < 8 ==> 255u8 & (1u8 << b) != 0) by (bit_vector);
    }
}

/// Total number of cells in a history: the sum of its rows' lengths.
pub open spec fn cell_count(s: Seq<Vec<bool>>) -> int
    decreases s.len(),
{
    if s.len() == 0 {
        0
    } else {
        s[0]@.len() + cell_count(s.drop_first())
    }
}

/// Law: a history of `n` rows that are all `w` cells wide holds exactly
/// `n * w` cells.
pub proof fn lemma_cell_count_uniform_width(s: Seq<Vec<bool>>, w: int)
    requires
        forall|i: int| 0 <= i < s.len() ==> (#[trigger] s[i])@.len() == w,
    ensures
        cell_count(s) == s.len() * w,
    decreases s.len(),
{
    if s.len() == 0 {
    } else {
        assert(forall|i: int|
            0 <= i < s.drop_first().len() ==> (#[trigger] s.drop_first()[i])@.len() == w);
        lemma_cell_count_uniform_width(s.drop_first(), w);
        assert(s.len() * w == w + (s.len() - 1) * w) by (nonlinear_arith);
    }
}

/// True iff the two rows hold the same cells in the same order.
fn rows_equal(a: &Vec<bool>, b: &Vec<bool>) -> (r: bool)
    ensures
        r == (a@ == b@),
{
    if a.len() != b.len() {
        assert(a@ != b@);
        return false;
    }
    let n = a.len();
    let mut i: usize = 0;
    while i < n
        invariant
            n == a@.len() == b@.len(),
            0 <= i <= n,
            forall|k: int| 0 <= k < i ==> a@[k] == b@[k],
        decreases n - i,
    {
        if a[i] != b[i] {
            return false;
        }
        i += 1;
    }
    assert(a@ =~= b@);
    true
}

} // verus!
