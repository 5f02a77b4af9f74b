//! Bins of genetic distance.
//!
//! A bin is an interval of genetic distance with edges in thousandths of a centimorgan. At a
//! recombination rate of `num / den` crossovers per base pair, an edge `e` lies at
//! `e * den / (100000 * num)` base pairs. Distances between sites are whole numbers of base
//! pairs, so each left edge is held rounded up and each right edge rounded down: a whole
//! distance lies between the rounded edges exactly when it lies between the exact ones.

use crate::ratio::Ratio;
use vstd::prelude::*;

verus! {

/// Thousandths of a centimorgan in one Morgan.
pub const UNITS_PER_MORGAN: u64 = 100_000;

/// The number of bins of the default scheme.
pub const DEFAULT_BIN_COUNT: usize = 19;

/// The left edge of the first bin of the default scheme: half a centimorgan.
pub const DEFAULT_FIRST_EDGE: u32 = 500;

/// The width of each bin of the default scheme: half a centimorgan.
pub const DEFAULT_BIN_WIDTH: u32 = 500;

/// The largest position on a contig.
pub const MAX_POSITION: u64 = 0x7fff_ffff_ffff_ffff;

/// The number of edge units that one base pair is the `den`-th part of.
pub open spec fn bp_unit(rate: Ratio) -> int {
    UNITS_PER_MORGAN * rate.num
}

/// The position in base pairs of an edge, rounded down.
pub open spec fn bp_floor(edge: int, rate: Ratio) -> int {
    (edge * rate.den) / bp_unit(rate)
}

/// The position in base pairs of an edge, rounded up.
pub open spec fn bp_ceil(edge: int, rate: Ratio) -> int {
    (edge * rate.den + bp_unit(rate) - 1) / bp_unit(rate)
}

/// The position in base pairs of an edge, rounded to the nearest whole number, a half upwards.
pub open spec fn bp_round(edge: int, rate: Ratio) -> int {
    (2 * (edge * rate.den) + bp_unit(rate)) / (2 * bp_unit(rate))
}

/// A whole number is at most a quotient rounded down exactly when its multiple is at most
/// the dividend, and at least a quotient rounded up exactly when its multiple is at least
/// the dividend.
pub proof fn lemma_rounded_quotients(a: int, unit: int, d: int)
    by (nonlinear_arith)
    requires
        0 <= a,
        0 < unit,
    ensures
        d <= a / unit <==> d * unit <= a,
        (a + unit - 1) / unit <= d <==> a <= d * unit,
        (a + unit - 1) / unit <= a / unit + 1,
        a / unit <= (a + unit - 1) / unit,
{
    assert(a == unit * (a / unit) + a % unit && 0 <= a % unit < unit);
    let b = a + unit - 1;
    assert(b == unit * (b / unit) + b % unit && 0 <= b % unit < unit);
}

/// A quotient without remainder is the same rounded down, rounded up and rounded to the
/// nearest.
pub proof fn lemma_whole_quotient(a: int, unit: int)
    by (nonlinear_arith)
    requires
        0 < unit,
        a % unit == 0,
    ensures
        (a + unit - 1) / unit == a / unit,
        (2 * a + unit) / (2 * unit) == a / unit,
{
    let q = a / unit;
    assert(a == unit * q + a % unit);
    assert(a == unit * q);
    let up = a + unit - 1;
    assert(up == unit * (up / unit) + up % unit && 0 <= up % unit < unit);
    let double = 2 * unit;
    let near = 2 * a + unit;
    assert(near == double * (near / double) + near % double && 0 <= near % double < double);
    assert(near == double * q + unit);
}

/// Of two edges, the nearer one is the nearer one in rounded base pairs too.
pub proof fn lemma_round_is_monotonic(near: int, far: int, rate: Ratio)
    requires
        0 <= near <= far,
        rate.is_positive(),
    ensures
        bp_round(near, rate) <= bp_round(far, rate),
{
    let unit = bp_unit(rate);
    let x = 2 * (near * rate.den) + unit;
    let y = 2 * (far * rate.den) + unit;
    assert(near * rate.den <= far * rate.den) by (nonlinear_arith)
        requires
            near <= far,
            rate.den >= 0,
    ;
    assert(x / (2 * unit) <= y / (2 * unit)) by (nonlinear_arith)
        requires
            x <= y,
            unit > 0,
    ;
}

/// A sequence of adjacent bins of genetic distance and the window of distances they span.
#[derive(Clone, Debug)]
pub struct Bins {
    pub nbins: usize,
    /// The rate at which the edges were converted to base pairs.
    pub recombination_rate: Ratio,
    /// Left edges in thousandths of a centimorgan.
    pub left_edges_in_cm: Vec<u32>,
    /// Right edges in thousandths of a centimorgan.
    pub right_edges_in_cm: Vec<u32>,
    /// Left edges in base pairs, rounded up.
    pub left_edges_in_bp: Vec<u64>,
    /// Right edges in base pairs, rounded down.
    pub right_edges_in_bp: Vec<u64>,
    /// The left edge of the first bin in base pairs, rounded to the nearest.
    pub minimum: u64,
    /// The right edge of the last bin in base pairs, rounded to the nearest.
    pub maximum: u64,
}

impl Bins {
    /// The bins are adjacent with strictly increasing edges, and the edges in base pairs
    /// are those in centimorgans, converted at the recombination rate.
    pub open spec fn wf(&self) -> bool {
        &&& self.recombination_rate.is_positive()
        &&& self.nbins >= 1
        &&& self.left_edges_in_cm.len() == self.nbins
        &&& self.right_edges_in_cm.len() == self.nbins
        &&& self.left_edges_in_bp.len() == self.nbins
        &&& self.right_edges_in_bp.len() == self.nbins
        &&& forall|i: int|
            0 <= i < self.nbins ==> #[trigger] self.left_edges_in_cm[i] < self.right_edges_in_cm[i]
        &&& forall|i: int|
            0 <= i < self.nbins - 1 ==> #[trigger] self.right_edges_in_cm[i]
                == self.left_edges_in_cm[i + 1]
        &&& forall|i: int|
            0 <= i < self.nbins ==> #[trigger] self.left_edges_in_bp[i] == bp_ceil(
                self.left_edges_in_cm[i] as int,
                self.recombination_rate,
            )
        &&& forall|i: int|
            0 <= i < self.nbins ==> #[trigger] self.right_edges_in_bp[i] == bp_floor(
                self.right_edges_in_cm[i] as int,
                self.recombination_rate,
            )
        &&& self.minimum == bp_round(self.left_edges_in_cm[0] as int, self.recombination_rate)
        &&& self.maximum == bp_round(
            self.right_edges_in_cm[self.nbins - 1] as int,
            self.recombination_rate,
        )
        &&& self.minimum <= self.maximum
        &&& self.maximum <= MAX_POSITION
    }

    /// The distance lies in the window from `minimum` to `maximum`.
    pub open spec fn in_window(&self, distance: u64) -> bool {
        self.minimum <= distance <= self.maximum
    }

    /// The distance lies between the left edge of the first bin and the right edge of the
    /// last one.
    pub open spec fn covers(&self, distance: u64) -> bool {
        self.left_edges_in_bp[0] <= distance <= self.right_edges_in_bp[self.nbins - 1]
    }

    /// The distance lies in bin `index`, edges included.
    pub open spec fn holds(&self, index: int, distance: u64) -> bool {
        self.left_edges_in_bp[index] <= distance <= self.right_edges_in_bp[index]
    }

    /// Bin `index` is the one that a forward search from `cursor` finds for the distance:
    /// the distance lies in it, and beyond the right edge of every bin from `cursor` up to it.
    pub open spec fn is_located(&self, cursor: int, distance: u64, index: int) -> bool {
        &&& cursor <= index < self.nbins
        &&& self.holds(index, distance)
        &&& forall|j: int| cursor <= j < index ==> #[trigger] self.right_edges_in_bp[j] < distance
    }

    /// The first bin from `from` on whose right edge the distance does not exceed; the last
    /// bin where it exceeds them all.
    pub open spec fn first_bin(&self, distance: u64, from: int) -> int
        decreases self.nbins - from,
    {
        if from >= self.nbins - 1 || distance <= self.right_edges_in_bp[from] {
            from
        } else {
            self.first_bin(distance, from + 1)
        }
    }

    /// The bin that a forward search finds is the first one whose right edge the distance
    /// does not exceed.
    pub proof fn lemma_located_is_first(&self, cursor: int, distance: u64, index: int)
        requires
            0 <= cursor,
            self.is_located(cursor, distance, index),
        ensures
            self.first_bin(distance, cursor) == index,
        decreases index - cursor,
    {
        if cursor < index {
            assert(self.right_edges_in_bp[cursor] < distance);
            self.lemma_located_is_first(cursor + 1, distance, index);
        }
    }

    /// The cursor may be kept from one distance to the next. Where a search from `cursor`
    /// found the bin `found` for a distance, a search for a distance that is no smaller may
    /// start at `found`; it does not go back behind it, and it finds the bin that a search
    /// from `cursor` finds.
    pub proof fn lemma_cursor_may_be_kept(
        &self,
        cursor: int,
        distance: u64,
        found: int,
        next_distance: u64,
        next_found: int,
    )
        requires
            self.is_located(cursor, distance, found),
            distance <= next_distance,
            self.is_located(found, next_distance, next_found),
        ensures
            cursor <= found <= next_found,
            self.left_edges_in_bp[found] <= next_distance,
            self.is_located(cursor, next_distance, next_found),
    {
    }

    /// A distance that the bins cover lies in the first bin whose right edge it does not
    /// exceed.
    pub proof fn lemma_first_bin_holds(&self, distance: u64, from: int)
        requires
            self.wf(),
            0 <= from < self.nbins,
            self.left_edges_in_bp[from] <= distance,
            distance <= self.right_edges_in_bp[self.nbins - 1],
        ensures
            self.is_located(from, distance, self.first_bin(distance, from)),
        decreases self.nbins - from,
    {
        if from < self.nbins - 1 && distance > self.right_edges_in_bp[from] {
            self.lemma_adjacent(from);
            self.lemma_first_bin_holds(distance, from + 1);
        }
    }

    /// Every distance of the window lies in some bin: rounding the outer edges to the
    /// nearest base pair moved neither of them outwards.
    pub open spec fn window_covered(&self) -> bool {
        self.left_edges_in_bp[0] <= self.minimum && self.maximum <= self.right_edges_in_bp[self.nbins
            - 1]
    }

    /// Decides `in_window`.
    pub fn is_in_window(&self, distance: u64) -> (r: bool)
        ensures
            r == self.in_window(distance),
    {
        self.minimum <= distance && distance <= self.maximum
    }

    /// Decides `covers`.
    pub fn is_covered(&self, distance: u64) -> (r: bool)
        requires
            self.wf(),
        ensures
            r == self.covers(distance),
    {
        self.left_edges_in_bp[0] <= distance && distance <= self.right_edges_in_bp[self.nbins - 1]
    }

    /// Decides `window_covered`.
    pub fn is_window_covered(&self) -> (r: bool)
        requires
            self.wf(),
        ensures
            r == self.window_covered(),
    {
        self.left_edges_in_bp[0] <= self.minimum && self.maximum <= self.right_edges_in_bp[self.nbins
            - 1]
    }

    /// No whole distance falls between two neighbouring bins.
    pub proof fn lemma_adjacent(&self, i: int)
        requires
            self.wf(),
            0 <= i < self.nbins - 1,
        ensures
            self.left_edges_in_bp[i + 1] <= self.right_edges_in_bp[i] + 1,
    {
        let rate = self.recombination_rate;
        let edge = self.right_edges_in_cm[i] as int;
        assert(self.left_edges_in_cm[i + 1] == edge);
        assert(self.left_edges_in_bp[i + 1] == bp_ceil(edge, rate));
        assert(self.right_edges_in_bp[i] == bp_floor(edge, rate));
        assert(edge * rate.den >= 0) by (nonlinear_arith)
            requires
                edge >= 0,
                rate.den >= 0,
        ;
        lemma_rounded_quotients(edge * rate.den, bp_unit(rate), 0);
    }

    /// Where the two outer edges lie at whole numbers of base pairs, the window is the
    /// range that the bins cover.
    pub proof fn lemma_whole_edges_cover(&self)
        requires
            self.wf(),
            (self.left_edges_in_cm[0] * self.recombination_rate.den) % bp_unit(
                self.recombination_rate,
            ) == 0,
            (self.right_edges_in_cm[self.nbins - 1] * self.recombination_rate.den) % bp_unit(
                self.recombination_rate,
            ) == 0,
        ensures
            self.minimum == self.left_edges_in_bp[0],
            self.maximum == self.right_edges_in_bp[self.nbins - 1],
            self.window_covered(),
    {
        let rate = self.recombination_rate;
        let unit = bp_unit(rate);
        let left = self.left_edges_in_cm[0] * rate.den;
        let right = self.right_edges_in_cm[self.nbins - 1] * rate.den;
        assert(self.left_edges_in_bp[0] == bp_ceil(self.left_edges_in_cm[0] as int, rate));
        assert(self.right_edges_in_bp[self.nbins - 1] == bp_floor(
            self.right_edges_in_cm[self.nbins - 1] as int,
            rate,
        ));
        lemma_whole_quotient(left, unit);
        lemma_whole_quotient(right, unit);
    }

    /// A whole distance lies in bin `index` exactly when it lies between the exact edges
    /// of that bin: `left * den <= distance * 100000 * num <= right * den`.
    pub proof fn lemma_holds_exactly(&self, index: int, distance: u64)
        requires
            self.wf(),
            0 <= index < self.nbins,
        ensures
            self.holds(index, distance) <==> (self.left_edges_in_cm[index]
                * self.recombination_rate.den <= distance * bp_unit(self.recombination_rate)
                <= self.right_edges_in_cm[index] * self.recombination_rate.den),
    {
        let rate = self.recombination_rate;
        let left = self.left_edges_in_cm[index] as int;
        let right = self.right_edges_in_cm[index] as int;
        assert(self.left_edges_in_bp[index] == bp_ceil(left, rate));
        assert(self.right_edges_in_bp[index] == bp_floor(right, rate));
        assert(left * rate.den >= 0 && right * rate.den >= 0) by (nonlinear_arith)
            requires
                left >= 0,
                right >= 0,
                rate.den >= 0,
        ;
        lemma_rounded_quotients(left * rate.den, bp_unit(rate), distance as int);
        lemma_rounded_quotients(right * rate.den, bp_unit(rate), distance as int);
    }

    /// Finds the bin of a distance, starting at `cursor` and moving forward only: the first
    /// bin from `cursor` on whose right edge the distance does not exceed.
    ///
    /// Within one window the distances come in ascending order, so the bin found for one
    /// distance is the cursor for the next.
    pub fn locate(&self, distance: u64, cursor: usize) -> (index: usize)
        requires
            self.wf(),
            cursor < self.nbins,
            self.left_edges_in_bp[cursor as int] <= distance,
            distance <= self.right_edges_in_bp[self.nbins - 1],
        ensures
            self.is_located(cursor as int, distance, index as int),
    {
        let mut index: usize = cursor;
        while distance > self.right_edges_in_bp[index]
            invariant
                self.wf(),
                cursor <= index < self.nbins,
                self.left_edges_in_bp[index as int] <= distance,
                distance <= self.right_edges_in_bp[self.nbins - 1],
                forall|j: int|
                    cursor <= j < index ==> #[trigger] self.right_edges_in_bp[j] < distance,
            decreases self.nbins - index,
        {
            proof {
                self.lemma_adjacent(index as int);
            }
            index += 1;
        }
        index
    }

    /// The default scheme: nineteen bins of half a centimorgan each, from half a
    /// centimorgan to ten centimorgans.
    pub fn hapne_default(recombination_rate: Ratio) -> (bins: Bins)
        requires
            recombination_rate.is_positive(),
        ensures
            bins.wf(),
            bins.nbins == DEFAULT_BIN_COUNT,
            bins.recombination_rate == recombination_rate,
            forall|i: int|
                0 <= i < DEFAULT_BIN_COUNT ==> #[trigger] bins.left_edges_in_cm[i]
                    == DEFAULT_FIRST_EDGE + DEFAULT_BIN_WIDTH * i,
            forall|i: int|
                0 <= i < DEFAULT_BIN_COUNT ==> #[trigger] bins.right_edges_in_cm[i]
                    == DEFAULT_FIRST_EDGE + DEFAULT_BIN_WIDTH * (i + 1),
    {
        let rate: Ratio = recombination_rate;
        let mut left_edges_in_cm: Vec<u32> = Vec::new();
        let mut right_edges_in_cm: Vec<u32> = Vec::new();
        let mut left_edges_in_bp: Vec<u64> = Vec::new();
        let mut right_edges_in_bp: Vec<u64> = Vec::new();
        let mut i: usize = 0;
        while i < DEFAULT_BIN_COUNT
            invariant
                i <= DEFAULT_BIN_COUNT,
                rate.is_positive(),
                left_edges_in_cm.len() == i,
                right_edges_in_cm.len() == i,
                left_edges_in_bp.len() == i,
                right_edges_in_bp.len() == i,
                forall|j: int|
                    0 <= j < i ==> #[trigger] left_edges_in_cm[j] == DEFAULT_FIRST_EDGE
                        + DEFAULT_BIN_WIDTH * j,
                forall|j: int|
                    0 <= j < i ==> #[trigger] right_edges_in_cm[j] == DEFAULT_FIRST_EDGE
                        + DEFAULT_BIN_WIDTH * (j + 1),
                forall|j: int|
                    0 <= j < i ==> #[trigger] left_edges_in_bp[j] == bp_ceil(
                        left_edges_in_cm[j] as int,
                        rate,
                    ),
                forall|j: int|
                    0 <= j < i ==> #[trigger] right_edges_in_bp[j] == bp_floor(
                        right_edges_in_cm[j] as int,
                        rate,
                    ),
            decreases DEFAULT_BIN_COUNT - i,
        {
            let left: u32 = DEFAULT_FIRST_EDGE + DEFAULT_BIN_WIDTH * (i as u32);
            let right: u32 = left + DEFAULT_BIN_WIDTH;
            let left_bp: u64 = edge_in_bp_rounded_up(left, rate);
            let right_bp: u64 = edge_in_bp_rounded_down(right, rate);
            left_edges_in_cm.push(left);
            right_edges_in_cm.push(right);
            left_edges_in_bp.push(left_bp);
            right_edges_in_bp.push(right_bp);
            i += 1;
        }
        let minimum: u64 = edge_in_bp_rounded(left_edges_in_cm[0], rate);
        let maximum: u64 = edge_in_bp_rounded(right_edges_in_cm[DEFAULT_BIN_COUNT - 1], rate);
        proof {
            lemma_round_is_monotonic(
                left_edges_in_cm[0] as int,
                right_edges_in_cm[DEFAULT_BIN_COUNT - 1] as int,
                rate,
            );
        }
        Bins {
            nbins: DEFAULT_BIN_COUNT,
            recombination_rate: rate,
            left_edges_in_cm,
            right_edges_in_cm,
            left_edges_in_bp,
            right_edges_in_bp,
            minimum,
            maximum,
        }
    }
}

/// The largest edge, in thousandths of a centimorgan, that the conversions below take:
/// forty centimorgans. Up to this edge a position in base pairs fits at any positive rate.
pub const MAX_EDGE: u32 = 40_000;

proof fn lemma_conversion_bounds(edge: int, den: int, num: int, m: int, extra: int, q: int)
    by (nonlinear_arith)
    requires
        0 <= edge <= 40_000,
        0 <= den <= 0xffff_ffff_ffff_ffff,
        1 <= num,
        1 <= m <= 2,
        0 <= extra < m * (100_000 * num),
        q == (m * (edge * den) + extra) / (m * (100_000 * num)),
    ensures
        0 <= q <= 0x7fff_ffff_ffff_ffff,
{
    let divisor = m * (100_000 * num);
    let a = m * (edge * den) + extra;
    assert(a == divisor * q + a % divisor && 0 <= a % divisor < divisor);
    assert(0 <= edge * den <= 40_000 * den);
    assert(0 <= a);
    assert(q >= 0);
    if q >= 1 {
        assert(divisor * (q - 1) < m * (40_000 * den));
        assert(divisor * (q - 1) >= (m * 100_000) * (q - 1));
        assert(100_000 * (q - 1) < 40_000 * den);
    }
}

/// Converts an edge to base pairs, rounding down.
pub fn edge_in_bp_rounded_down(edge: u32, rate: Ratio) -> (r: u64)
    requires
        rate.is_positive(),
        edge <= MAX_EDGE,
    ensures
        r == bp_floor(edge as int, rate),
        r <= MAX_POSITION,
{
    let unit: u128 = (UNITS_PER_MORGAN as u128) * (rate.num as u128);
    assert(edge * rate.den <= 40_000 * 0xffff_ffff_ffff_ffff) by (nonlinear_arith)
        requires
            0 <= edge <= 40_000,
            0 <= rate.den <= 0xffff_ffff_ffff_ffff,
    ;
    let scaled: u128 = (edge as u128) * (rate.den as u128);
    proof {
        lemma_conversion_bounds(
            edge as int,
            rate.den as int,
            rate.num as int,
            1,
            0,
            scaled as int / unit as int,
        );
    }
    (scaled / unit) as u64
}

/// Converts an edge to base pairs, rounding up.
pub fn edge_in_bp_rounded_up(edge: u32, rate: Ratio) -> (r: u64)
    requires
        rate.is_positive(),
        edge <= MAX_EDGE,
    ensures
        r == bp_ceil(edge as int, rate),
        r <= MAX_POSITION,
{
    let unit: u128 = (UNITS_PER_MORGAN as u128) * (rate.num as u128);
    assert(edge * rate.den <= 40_000 * 0xffff_ffff_ffff_ffff) by (nonlinear_arith)
        requires
            0 <= edge <= 40_000,
            0 <= rate.den <= 0xffff_ffff_ffff_ffff,
    ;
    let scaled: u128 = (edge as u128) * (rate.den as u128) + (unit - 1);
    proof {
        lemma_conversion_bounds(
            edge as int,
            rate.den as int,
            rate.num as int,
            1,
            unit - 1,
            scaled as int / unit as int,
        );
    }
    (scaled / unit) as u64
}

/// Converts an edge to base pairs, rounding to the nearest whole number, a half upwards.
pub fn edge_in_bp_rounded(edge: u32, rate: Ratio) -> (r: u64)
    requires
        rate.is_positive(),
        edge <= MAX_EDGE,
    ensures
        r == bp_round(edge as int, rate),
        r <= MAX_POSITION,
{
    let unit: u128 = (UNITS_PER_MORGAN as u128) * (rate.num as u128);
    assert(edge * rate.den <= 40_000 * 0xffff_ffff_ffff_ffff) by (nonlinear_arith)
        requires
            0 <= edge <= 40_000,
            0 <= rate.den <= 0xffff_ffff_ffff_ffff,
    ;
    let scaled: u128 = 2 * ((edge as u128) * (rate.den as u128)) + unit;
    let divisor: u128 = 2 * unit;
    proof {
        lemma_conversion_bounds(
            edge as int,
            rate.den as int,
            rate.num as int,
            2,
            unit as int,
            scaled as int / divisor as int,
        );
    }
    (scaled / divisor) as u64
}

} // verus!
