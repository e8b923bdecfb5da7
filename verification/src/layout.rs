//! The layout engine: partitions the drawing surface into non-overlapping
//! sub-areas, one per pane, in pane order, and resolves each pane's
//! referenced widget into a render plan.
//!
//! Constraints are resolved in pane order. A fixed pane wants exactly its
//! cell count; a percentage pane wants its share of the surface's extent
//! along the split axis, rounded down; fill panes divide whatever is left
//! over evenly, rounding down, with the remainder accruing to the last of
//! them. Wants are then granted left to right, each clipped to the extent
//! still available, so the sub-areas never overlap and never leave the
//! surface.

use vstd::prelude::*;
use vstd::arithmetic::div_mod::{
    lemma_div_is_ordered,
    lemma_div_pos_is_pos,
    lemma_fundamental_div_mod,
    lemma_mod_division_less_than_divisor,
    lemma_div_by_multiple,
};
use vstd::arithmetic::mul::{
    lemma_mul_inequality,
    lemma_mul_is_distributive_sub_other_way,
    lemma_mul_nonnegative,
};
use crate::widgets::{percentage_value, LayoutConfig, PaneConfig, PaneView, SizeConfig, SizeView,
    WidgetConfig, WidgetView};
use crate::widgets::parse_percentage;
use crate::registry::WidgetRegistry;
use crate::text::str_eq;

verus! {

/// A rectangular area of the drawing surface, in character cells.
#[derive(Clone, Copy, PartialEq, Eq, Structural, Debug)]
pub struct Area {
    pub x: u16,
    pub y: u16,
    pub width: u16,
    pub height: u16,
}

impl Area {
    /// The full drawing surface of the given dimensions, anchored at the
    /// origin.
    pub fn full(width: u16, height: u16) -> (r: Area)
        ensures
            r == (Area { x: 0, y: 0, width, height }),
    {
        Area { x: 0, y: 0, width, height }
    }
}

impl DeepView for SizeConfig {
    type V = SizeView;

    open spec fn deep_view(&self) -> SizeView {
        self@
    }
}

/// The extent a pane asks for along the split axis, before fill panes are
/// given the leftover space: a fixed count as is, a percentage of the
/// surface's extent rounded down, and nothing yet for a fill pane.
pub open spec fn base_size(s: SizeView, extent: int) -> int {
    match s {
        SizeView::Fixed(n) => n as int,
        SizeView::Percentage(p) => extent * percentage_value(p) / 100,
        SizeView::Fill => 0,
    }
}

/// Total of the base sizes of all panes.
pub open spec fn sum_base(sizes: Seq<SizeView>, extent: int) -> int
    decreases sizes.len(),
{
    if sizes.len() == 0 {
        0
    } else {
        sum_base(sizes.drop_last(), extent) + base_size(sizes.last(), extent)
    }
}

/// How many panes are fill panes.
pub open spec fn fill_count(sizes: Seq<SizeView>) -> int
    decreases sizes.len(),
{
    if sizes.len() == 0 {
        0
    } else {
        fill_count(sizes.drop_last()) + if sizes.last() is Fill {
            1int
        } else {
            0int
        }
    }
}

/// Whether pane `i` is the last fill pane.
pub open spec fn is_last_fill(sizes: Seq<SizeView>, i: int) -> bool {
    &&& sizes[i] is Fill
    &&& forall|j: int| i < j < sizes.len() ==> !(#[trigger] sizes[j] is Fill)
}

/// The extent left over for fill panes once every fixed and percentage
/// pane is satisfied; nothing is left when those alone overrun the
/// surface.
pub open spec fn fill_remainder(sizes: Seq<SizeView>, extent: int) -> int {
    if extent - sum_base(sizes, extent) >= 0 {
        extent - sum_base(sizes, extent)
    } else {
        0
    }
}

/// The extent pane `i` asks for once fill panes are given the leftover
/// space: every fill pane gets an equal share rounded down, and the last
/// fill pane also gets what rounding left behind.
pub open spec fn resolved_size(sizes: Seq<SizeView>, extent: int, i: int) -> int {
    if sizes[i] is Fill {
        let k = fill_count(sizes);
        let rem = fill_remainder(sizes, extent);
        if is_last_fill(sizes, i) {
            rem - (k - 1) * (rem / k)
        } else {
            rem / k
        }
    } else {
        base_size(sizes[i], extent)
    }
}

/// The extent consumed by panes `0..i` once each is granted its resolved
/// size clipped to what is still available.
pub open spec fn taken(sizes: Seq<SizeView>, extent: int, i: int) -> int
    decreases i,
{
    if i <= 0 {
        0
    } else {
        let t = taken(sizes, extent, i - 1);
        let g = resolved_size(sizes, extent, i - 1);
        t + if g <= extent - t {
            g
        } else {
            extent - t
        }
    }
}

/// The extent granted to pane `i`: its resolved size, clipped to what
/// panes before it have left.
pub open spec fn give(sizes: Seq<SizeView>, extent: int, i: int) -> int {
    let t = taken(sizes, extent, i);
    let g = resolved_size(sizes, extent, i);
    if g <= extent - t {
        g
    } else {
        extent - t
    }
}

proof fn lemma_fill_count_nonneg(sizes: Seq<SizeView>)
    ensures
        fill_count(sizes) >= 0,
    decreases sizes.len(),
{
    if sizes.len() > 0 {
        lemma_fill_count_nonneg(sizes.drop_last());
    }
}

proof fn lemma_fill_count_at_least_one(sizes: Seq<SizeView>, i: int)
    requires
        0 <= i < sizes.len(),
        sizes[i] is Fill,
    ensures
        fill_count(sizes) >= 1,
    decreases sizes.len(),
{
    lemma_fill_count_nonneg(sizes.drop_last());
    if i == sizes.len() - 1 {
    } else {
        lemma_fill_count_at_least_one(sizes.drop_last(), i);
    }
}

/// A percentage of a non-negative extent never exceeds the extent and is
/// never negative.
proof fn lemma_percentage_cells_range(extent: int, pv: int)
    requires
        extent >= 0,
        0 <= pv <= 100,
    ensures
        0 <= extent * pv / 100 <= extent,
{
    lemma_mul_nonnegative(extent, pv);
    lemma_div_pos_is_pos(extent * pv, 100);
    lemma_mul_inequality(pv, 100, extent);
    assert(pv * extent <= 100 * extent);
    assert(extent * pv == pv * extent) by (nonlinear_arith);
    assert(100 * extent == extent * 100) by (nonlinear_arith);
    lemma_div_is_ordered(extent * pv, extent * 100, 100);
    lemma_div_by_multiple(extent, 100);
}

/// The base size of any pane is non-negative.
proof fn lemma_base_size_nonneg(s: SizeView, extent: int)
    requires
        extent >= 0,
    ensures
        base_size(s, extent) >= 0,
{
    match s {
        SizeView::Percentage(p) => {
            crate::widgets::lemma_percentage_value_range(p);
            lemma_percentage_cells_range(extent, percentage_value(p));
        },
        _ => {},
    }
}

/// Every resolved size is non-negative.
proof fn lemma_resolved_size_nonneg(sizes: Seq<SizeView>, extent: int, i: int)
    requires
        extent >= 0,
        0 <= i < sizes.len(),
    ensures
        resolved_size(sizes, extent, i) >= 0,
{
    if sizes[i] is Fill {
        let k = fill_count(sizes);
        let rem = fill_remainder(sizes, extent);
        lemma_fill_count_at_least_one(sizes, i);
        lemma_div_pos_is_pos(rem, k);
        if is_last_fill(sizes, i) {
            lemma_fill_share_bound(sizes, extent);
        }
    } else {
        lemma_base_size_nonneg(sizes[i], extent);
    }
}

/// The shares of the fill panes other than the last never exceed the
/// leftover extent: `(k - 1) * (rem / k) <= rem`.
proof fn lemma_fill_share_bound(sizes: Seq<SizeView>, extent: int)
    requires
        extent >= 0,
        fill_count(sizes) >= 1,
    ensures
        0 <= (fill_count(sizes) - 1) * (fill_remainder(sizes, extent) / fill_count(sizes))
            <= fill_remainder(sizes, extent),
{
    let k = fill_count(sizes);
    let rem = fill_remainder(sizes, extent);
    let q = rem / k;
    lemma_div_pos_is_pos(rem, k);
    lemma_mul_nonnegative(k - 1, q);
    lemma_fundamental_div_mod(rem, k);
    lemma_mod_division_less_than_divisor(rem, k);
    assert(k * q <= rem);
    lemma_mul_is_distributive_sub_other_way(q, k, 1);
    assert((k - 1) * q == k * q - 1 * q);
}

/// What panes `0..i` consume never exceeds the surface's extent.
proof fn lemma_taken_bounds(sizes: Seq<SizeView>, extent: int, i: int)
    requires
        extent >= 0,
        0 <= i <= sizes.len(),
    ensures
        0 <= taken(sizes, extent, i) <= extent,
    decreases i,
{
    if i > 0 {
        lemma_taken_bounds(sizes, extent, i - 1);
        lemma_resolved_size_nonneg(sizes, extent, i - 1);
    }
}

/// Each pane's grant is non-negative and fits in what is available, so
/// the grants of all panes sum to at most the extent.
pub proof fn lemma_give_bounds(sizes: Seq<SizeView>, extent: int, i: int)
    requires
        extent >= 0,
        0 <= i < sizes.len(),
    ensures
        0 <= give(sizes, extent, i),
        taken(sizes, extent, i) + give(sizes, extent, i) == taken(sizes, extent, i + 1),
        taken(sizes, extent, i + 1) <= extent,
        0 <= taken(sizes, extent, i),
{
    lemma_taken_bounds(sizes, extent, i);
    lemma_taken_bounds(sizes, extent, i + 1);
    lemma_resolved_size_nonneg(sizes, extent, i);
}

proof fn lemma_sum_base_nonneg(sizes: Seq<SizeView>, extent: int)
    requires
        extent >= 0,
    ensures
        sum_base(sizes, extent) >= 0,
    decreases sizes.len(),
{
    if sizes.len() > 0 {
        lemma_sum_base_nonneg(sizes.drop_last(), extent);
        lemma_base_size_nonneg(sizes.last(), extent);
    }
}

proof fn lemma_fill_count_step(sizes: Seq<SizeView>, i: int)
    requires
        0 <= i < sizes.len(),
    ensures
        fill_count(sizes.take(i + 1)) == fill_count(sizes.take(i)) + if sizes[i] is Fill {
            1int
        } else {
            0int
        },
{
    assert(sizes.take(i + 1).drop_last() =~= sizes.take(i));
    assert(sizes.take(i + 1).last() == sizes[i]);
}

proof fn lemma_sum_base_step(sizes: Seq<SizeView>, extent: int, i: int)
    requires
        0 <= i < sizes.len(),
    ensures
        sum_base(sizes.take(i + 1), extent) == sum_base(sizes.take(i), extent) + base_size(
            sizes[i],
            extent,
        ),
{
    assert(sizes.take(i + 1).drop_last() =~= sizes.take(i));
    assert(sizes.take(i + 1).last() == sizes[i]);
}

/// Total of the resolved sizes of panes `0..i`, before clipping.
pub open spec fn sum_resolved(sizes: Seq<SizeView>, extent: int, i: int) -> int
    decreases i,
{
    if i <= 0 {
        0
    } else {
        sum_resolved(sizes, extent, i - 1) + resolved_size(sizes, extent, i - 1)
    }
}

proof fn lemma_fill_count_take_monotone(sizes: Seq<SizeView>, a: int, b: int)
    requires
        0 <= a <= b <= sizes.len(),
    ensures
        fill_count(sizes.take(a)) <= fill_count(sizes.take(b)),
    decreases b - a,
{
    if a < b {
        lemma_fill_count_step(sizes, b - 1);
        lemma_fill_count_take_monotone(sizes, a, b - 1);
    }
}

proof fn lemma_fill_count_take_all(sizes: Seq<SizeView>)
    ensures
        fill_count(sizes.take(sizes.len() as int)) == fill_count(sizes),
{
    assert(sizes.take(sizes.len() as int) =~= sizes);
}

/// With no fill pane at or after position `i`, the prefix holds all the
/// fill panes.
proof fn lemma_fill_count_prefix_complete(sizes: Seq<SizeView>, i: int)
    requires
        0 <= i <= sizes.len(),
        forall|j: int| i <= j < sizes.len() ==> !(#[trigger] sizes[j] is Fill),
    ensures
        fill_count(sizes.take(i)) == fill_count(sizes),
    decreases sizes.len() - i,
{
    if i == sizes.len() {
        lemma_fill_count_take_all(sizes);
    } else {
        lemma_fill_count_step(sizes, i);
        lemma_fill_count_prefix_complete(sizes, i + 1);
    }
}

/// With a fill pane at or after position `i`, the prefix is missing at
/// least one fill pane.
proof fn lemma_fill_count_prefix_incomplete(sizes: Seq<SizeView>, i: int, m: int)
    requires
        0 <= i <= m < sizes.len(),
        sizes[m] is Fill,
    ensures
        fill_count(sizes.take(i)) < fill_count(sizes),
{
    lemma_fill_count_take_monotone(sizes, i, m);
    lemma_fill_count_step(sizes, m);
    lemma_fill_count_take_monotone(sizes, m + 1, sizes.len() as int);
    lemma_fill_count_take_all(sizes);
}

proof fn lemma_sum_resolved_shape(sizes: Seq<SizeView>, extent: int, i: int)
    requires
        extent >= 0,
        fill_count(sizes) >= 1,
        sum_base(sizes, extent) <= extent,
        0 <= i <= sizes.len(),
    ensures
        sum_resolved(sizes, extent, i) == sum_base(sizes.take(i), extent) + if fill_count(
            sizes.take(i),
        ) == fill_count(sizes) {
            fill_remainder(sizes, extent)
        } else {
            fill_count(sizes.take(i)) * (fill_remainder(sizes, extent) / fill_count(sizes))
        },
    decreases i,
{
    let k = fill_count(sizes);
    let rem = fill_remainder(sizes, extent);
    let q = rem / k;
    if i == 0 {
        assert(sizes.take(0) =~= Seq::<SizeView>::empty());
    } else {
        lemma_sum_resolved_shape(sizes, extent, i - 1);
        lemma_fill_count_step(sizes, i - 1);
        lemma_sum_base_step(sizes, extent, i - 1);
        lemma_fill_count_nonneg(sizes.take(i - 1));
        if sizes[i - 1] is Fill {
            if is_last_fill(sizes, i - 1) {
                lemma_fill_count_prefix_complete(sizes, i);
                lemma_mul_is_distributive_sub_other_way(q, k, 1);
            } else {
                assert(!is_last_fill(sizes, i - 1));
                let m = choose|j: int|
                    i - 1 < j < sizes.len() && #[trigger] sizes[j] is Fill;
                lemma_fill_count_prefix_incomplete(sizes, i, m);
                lemma_fill_count_prefix_incomplete(sizes, i - 1, m);
                lemma_mul_is_distributive_sub_other_way(q, fill_count(sizes.take(i)), 1);
                assert((fill_count(sizes.take(i)) - 1) * q == fill_count(sizes.take(i)) * q - 1
                    * q);
            }
        }
    }
}

proof fn lemma_sum_resolved_monotone(sizes: Seq<SizeView>, extent: int, a: int, b: int)
    requires
        extent >= 0,
        0 <= a <= b <= sizes.len(),
    ensures
        sum_resolved(sizes, extent, a) <= sum_resolved(sizes, extent, b),
    decreases b - a,
{
    if a < b {
        lemma_resolved_size_nonneg(sizes, extent, b - 1);
        lemma_sum_resolved_monotone(sizes, extent, a, b - 1);
    }
}

proof fn lemma_sum_resolved_total(sizes: Seq<SizeView>, extent: int)
    requires
        extent >= 0,
        fill_count(sizes) >= 1,
        sum_base(sizes, extent) <= extent,
    ensures
        sum_resolved(sizes, extent, sizes.len() as int) == extent,
{
    lemma_sum_resolved_shape(sizes, extent, sizes.len() as int);
    lemma_fill_count_take_all(sizes);
    assert(sizes.take(sizes.len() as int) =~= sizes);
}

proof fn lemma_no_clipping(sizes: Seq<SizeView>, extent: int, i: int)
    requires
        extent >= 0,
        fill_count(sizes) >= 1,
        sum_base(sizes, extent) <= extent,
        0 <= i <= sizes.len(),
    ensures
        taken(sizes, extent, i) == sum_resolved(sizes, extent, i),
    decreases i,
{
    if i > 0 {
        lemma_no_clipping(sizes, extent, i - 1);
        lemma_sum_resolved_monotone(sizes, extent, i, sizes.len() as int);
        lemma_sum_resolved_total(sizes, extent);
        lemma_resolved_size_nonneg(sizes, extent, i - 1);
    }
}

/// Law: when a layout has at least one fill pane and its fixed and
/// percentage panes together fit in the surface, the panes partition the
/// extent exactly: every pane is granted precisely its resolved size — a
/// fixed pane its cell count, a percentage pane its rounded share, the
/// fill panes the rest — and the grants sum to the whole extent.
pub proof fn lemma_fill_partition(sizes: Seq<SizeView>, extent: int)
    requires
        extent >= 0,
        fill_count(sizes) >= 1,
        sum_base(sizes, extent) <= extent,
    ensures
        taken(sizes, extent, sizes.len() as int) == extent,
        forall|i: int|
            0 <= i < sizes.len() ==> #[trigger] give(sizes, extent, i) == resolved_size(
                sizes,
                extent,
                i,
            ),
{
    lemma_sum_resolved_total(sizes, extent);
    lemma_no_clipping(sizes, extent, sizes.len() as int);
    assert forall|i: int| 0 <= i < sizes.len() implies #[trigger] give(sizes, extent, i)
        == resolved_size(sizes, extent, i) by {
        lemma_no_clipping(sizes, extent, i);
        lemma_no_clipping(sizes, extent, i + 1);
        lemma_sum_resolved_monotone(sizes, extent, i + 1, sizes.len() as int);
        lemma_resolved_size_nonneg(sizes, extent, i);
    }
}

proof fn lemma_taken_monotone(sizes: Seq<SizeView>, extent: int, a: int, b: int)
    requires
        extent >= 0,
        0 <= a <= b <= sizes.len(),
    ensures
        taken(sizes, extent, a) <= taken(sizes, extent, b),
    decreases b - a,
{
    if a < b {
        lemma_give_bounds(sizes, extent, b - 1);
        lemma_taken_monotone(sizes, extent, a, b - 1);
    }
}

/// Law: the partition is disjoint and ordered: pane `i`'s stretch of the
/// extent ends at or before where any later pane `j`'s begins, so no two
/// sub-areas overlap, whatever the size specs are.
pub proof fn lemma_partition_disjoint(sizes: Seq<SizeView>, extent: int, i: int, j: int)
    requires
        extent >= 0,
        0 <= i < j < sizes.len(),
    ensures
        taken(sizes, extent, i) + give(sizes, extent, i) <= taken(sizes, extent, j),
{
    lemma_give_bounds(sizes, extent, i);
    lemma_taken_monotone(sizes, extent, i + 1, j);
}

/// The base size a pane asks for, before leftover space is distributed.
fn base_cells(s: &SizeConfig, extent: u16) -> (r: u16)
    ensures
        r as int == base_size(s@, extent as int),
        r <= extent || s@ is Fixed,
{
    match s {
        SizeConfig::Fixed(n) => *n,
        SizeConfig::Percentage(p) => {
            let pv = parse_percentage(p.as_str());
            proof {
                lemma_percentage_cells_range(extent as int, pv as int);
            }
            ((extent as u32) * (pv as u32) / 100) as u16
        },
        SizeConfig::Fill => 0,
    }
}

/// The size specs of the panes, in pane order.
pub open spec fn pane_sizes(panes: Seq<PaneView>) -> Seq<SizeView> {
    panes.map_values(|p: PaneView| p.size)
}

/// Resolves every pane's extent along the split axis, in pane order:
/// the i-th result is exactly what the partition grants pane i.
pub fn resolve_sizes(panes: &Vec<PaneConfig>, extent: u16) -> (r: Vec<u16>)
    ensures
        r@.len() == panes@.len(),
        forall|i: int|
            0 <= i < r@.len() ==> #[trigger] r@[i] as int == give(
                pane_sizes(panes.deep_view()),
                extent as int,
                i,
            ),
{
    let ghost sv = pane_sizes(panes.deep_view());
    let ghost ext = extent as int;
    let n = panes.len();
    let e32 = extent as u32;

    // First pass: count the fill panes, note the last one, and total the
    // base sizes, capped just past the extent (a larger total resolves the
    // same way).
    let mut k: usize = 0;
    let mut lf: usize = 0;
    let mut sum_b: u32 = 0;
    let mut i: usize = 0;
    while i < n
        invariant
            i <= n,
            n == sv.len(),
            sv == pane_sizes(panes.deep_view()),
            e32 == extent as u32,
            ext == extent as int,
            k <= i,
            k as int == fill_count(sv.take(i as int)),
            k > 0 ==> lf < i && sv[lf as int] is Fill,
            k > 0 ==> forall|j: int| lf < j < i ==> !(#[trigger] sv[j] is Fill),
            k == 0 ==> forall|j: int| 0 <= j < i ==> !(#[trigger] sv[j] is Fill),
            sum_b <= e32 + 1,
            sum_b as int == if sum_base(sv.take(i as int), ext) <= ext {
                sum_base(sv.take(i as int), ext)
            } else {
                ext + 1
            },
        decreases n - i,
    {
        proof {
            lemma_fill_count_step(sv, i as int);
            lemma_sum_base_step(sv, ext, i as int);
            lemma_sum_base_nonneg(sv.take(i as int), ext);
            lemma_base_size_nonneg(sv[i as int], ext);
        }
        match &panes[i].size {
            SizeConfig::Fill => {
                k = k + 1;
                lf = i;
            },
            other => {
                let b = base_cells(other, extent);
                let next = sum_b + b as u32;
                sum_b = if next > e32 {
                    e32 + 1
                } else {
                    next
                };
            },
        }
        i = i + 1;
    }
    proof {
        assert(sv.take(n as int) =~= sv);
        lemma_sum_base_nonneg(sv, ext);
    }

    // What is left for the fill panes, and the share of each but the last.
    let rem: u32 = if sum_b <= e32 {
        e32 - sum_b
    } else {
        0
    };
    proof {
        assert(rem as int == fill_remainder(sv, ext));
    }
    let q: u32 = if k > 0 {
        proof {
            lemma_div_pos_is_pos(rem as int, k as int);
            lemma_fundamental_div_mod(rem as int, k as int);
            lemma_mod_division_less_than_divisor(rem as int, k as int);
            lemma_mul_inequality(1, k as int, rem as int / k as int);
        }
        ((rem as u64) / (k as u64)) as u32
    } else {
        0
    };

    // Second pass: grant each pane its resolved size, clipped to what is
    // still available.
    let mut out: Vec<u16> = Vec::new();
    let mut used: u16 = 0;
    let mut p: usize = 0;
    while p < n
        invariant
            p <= n,
            n == sv.len(),
            sv == pane_sizes(panes.deep_view()),
            e32 == extent as u32,
            ext == extent as int,
            out@.len() == p,
            forall|j: int| 0 <= j < p ==> #[trigger] out@[j] as int == give(sv, ext, j),
            used as int == taken(sv, ext, p as int),
            used <= extent,
            k as int == fill_count(sv),
            k > 0 ==> lf < n && sv[lf as int] is Fill,
            k > 0 ==> forall|j: int| lf < j < n ==> !(#[trigger] sv[j] is Fill),
            k == 0 ==> forall|j: int| 0 <= j < n ==> !(#[trigger] sv[j] is Fill),
            rem as int == fill_remainder(sv, ext),
            rem <= extent,
            k > 0 ==> q as int == rem as int / k as int,
            q <= rem,
        decreases n - p,
    {
        let res: u32;
        match &panes[p].size {
            SizeConfig::Fill => {
                proof {
                    lemma_fill_count_at_least_one(sv, p as int);
                }
                if p == lf {
                    proof {
                        assert(is_last_fill(sv, p as int));
                    }
                    if q == 0 {
                        res = rem;
                        proof {
                            assert(q as int == rem as int / k as int);
                            assert(fill_remainder(sv, ext) / fill_count(sv) == 0);
                            vstd::arithmetic::mul::lemma_mul_basics(fill_count(sv) - 1);
                            assert(res as int == resolved_size(sv, ext, p as int));
                        }
                    } else {
                        proof {
                            lemma_fundamental_div_mod(rem as int, k as int);
                            lemma_mod_division_less_than_divisor(rem as int, k as int);
                            lemma_mul_inequality(1, q as int, k as int);
                            assert(k as int <= k as int * q as int);
                            assert(k as int <= rem as int);
                            lemma_fill_share_bound(sv, ext);
                        }
                        res = rem - ((k - 1) as u32) * q;
                        proof {
                            assert(res as int == resolved_size(sv, ext, p as int));
                        }
                    }
                } else {
                    proof {
                        assert(!is_last_fill(sv, p as int));
                    }
                    res = q;
                    proof {
                        assert(res as int == resolved_size(sv, ext, p as int));
                    }
                }
            },
            other => {
                res = base_cells(other, extent) as u32;
                proof {
                    assert(res as int == resolved_size(sv, ext, p as int));
                }
            },
        }
        proof {
            lemma_give_bounds(sv, ext, p as int);
        }
        let avail: u16 = extent - used;
        let g: u16 = if res <= avail as u32 {
            res as u16
        } else {
            avail
        };
        proof {
            assert(g as int == give(sv, ext, p as int));
        }
        out.push(g);
        used = used + g;
        p = p + 1;
    }
    out
}

/// Where pane `i` lands: panes are laid out in pane order along the split
/// axis, each at the offset the panes before it consumed, spanning the
/// whole surface across the other axis.
pub open spec fn pane_rect(area: Area, horizontal: bool, sizes: Seq<SizeView>, i: int) -> Area {
    if horizontal {
        Area {
            x: (area.x + taken(sizes, area.width as int, i)) as u16,
            y: area.y,
            width: give(sizes, area.width as int, i) as u16,
            height: area.height,
        }
    } else {
        Area {
            x: area.x,
            y: (area.y + taken(sizes, area.height as int, i)) as u16,
            width: area.width,
            height: give(sizes, area.height as int, i) as u16,
        }
    }
}

/// Splits the area among the panes along the given axis. The i-th
/// sub-area belongs to the i-th pane: the result has one entry per pane,
/// in the same order as the input, whatever each pane's size spec is.
pub fn split_area(area: Area, horizontal: bool, panes: &Vec<PaneConfig>) -> (r: Vec<Area>)
    requires
        area.x + area.width <= u16::MAX,
        area.y + area.height <= u16::MAX,
    ensures
        r@.len() == panes@.len(),
        forall|i: int|
            0 <= i < r@.len() ==> #[trigger] r@[i] == pane_rect(
                area,
                horizontal,
                pane_sizes(panes.deep_view()),
                i,
            ),
{
    let ghost sv = pane_sizes(panes.deep_view());
    let extent = if horizontal {
        area.width
    } else {
        area.height
    };
    let parts = resolve_sizes(panes, extent);
    let mut out: Vec<Area> = Vec::new();
    let mut offset: u16 = 0;
    let mut i: usize = 0;
    while i < parts.len()
        invariant
            i <= parts@.len(),
            parts@.len() == sv.len(),
            sv == pane_sizes(panes.deep_view()),
            extent == if horizontal {
                area.width
            } else {
                area.height
            },
            area.x + area.width <= u16::MAX,
            area.y + area.height <= u16::MAX,
            forall|j: int| 0 <= j < sv.len() ==> #[trigger] parts@[j] as int == give(
                sv,
                extent as int,
                j,
            ),
            out@.len() == i,
            forall|j: int|
                0 <= j < i ==> #[trigger] out@[j] == pane_rect(area, horizontal, sv, j),
            offset as int == taken(sv, extent as int, i as int),
            offset <= extent,
        decreases parts@.len() - i,
    {
        proof {
            lemma_give_bounds(sv, extent as int, i as int);
        }
        let g = parts[i];
        let a = if horizontal {
            Area { x: area.x + offset, y: area.y, width: g, height: area.height }
        } else {
            Area { x: area.x, y: area.y + offset, width: area.width, height: g }
        };
        out.push(a);
        offset = offset + g;
        i = i + 1;
    }
    out
}

/// Spec-level form of one step of a render plan.
pub struct RenderStepView {
    pub area: Area,
    pub widget: WidgetView,
}

/// One step of a render plan: draw this widget definition into this area.
pub struct RenderStep {
    pub area: Area,
    pub widget: WidgetConfig,
}

impl View for RenderStep {
    type V = RenderStepView;

    open spec fn view(&self) -> RenderStepView {
        RenderStepView { area: self.area, widget: self.widget@ }
    }
}

impl DeepView for RenderStep {
    type V = RenderStepView;

    open spec fn deep_view(&self) -> RenderStepView {
        self@
    }
}

/// The steps of a layout render over panes `0..i`: one step per pane
/// whose reference resolves against the stored definitions, in pane
/// order; a pane whose widget is gone is skipped, not an error.
pub open spec fn spec_plan(
    defs: Map<u64, WidgetView>,
    panes: Seq<PaneView>,
    area: Area,
    horizontal: bool,
    i: int,
) -> Seq<RenderStepView>
    decreases i,
{
    if i <= 0 {
        Seq::empty()
    } else {
        let pre = spec_plan(defs, panes, area, horizontal, i - 1);
        let id = panes[i - 1].widget.id;
        if defs.contains_key(id) {
            pre.push(
                RenderStepView {
                    area: pane_rect(area, horizontal, pane_sizes(panes), i - 1),
                    widget: defs[id],
                },
            )
        } else {
            pre
        }
    }
}

/// Whether the direction string selects a horizontal split; any other
/// direction, recognized or not, splits vertically.
pub open spec fn spec_horizontal(direction: Seq<char>) -> bool {
    direction == "horizontal"@
}

/// Resolves a layout against the registry: splits the current drawing
/// surface along the layout's direction (an unrecognized direction falls
/// back to vertical) and pairs each pane's sub-area with its widget's
/// definition, in pane order, skipping panes whose reference no longer
/// resolves.
pub fn layout_plan(registry: &WidgetRegistry, layout: &LayoutConfig, area: Area) -> (r: Vec<
    RenderStep,
>)
    requires
        area.x + area.width <= u16::MAX,
        area.y + area.height <= u16::MAX,
    ensures
        r.deep_view() == spec_plan(
            registry@,
            layout@.panes,
            area,
            spec_horizontal(layout@.direction),
            layout@.panes.len() as int,
        ),
{
    let ghost pv = layout@.panes;
    let horizontal = str_eq(layout.direction.as_str(), "horizontal");
    let rects = split_area(area, horizontal, &layout.panes);
    let mut out: Vec<RenderStep> = Vec::new();
    let mut i: usize = 0;
    while i < layout.panes.len()
        invariant
            i <= pv.len(),
            pv == layout@.panes,
            rects@.len() == pv.len(),
            horizontal == spec_horizontal(layout@.direction),
            forall|j: int|
                0 <= j < rects@.len() ==> #[trigger] rects@[j] == pane_rect(
                    area,
                    horizontal,
                    pane_sizes(pv),
                    j,
                ),
            out.deep_view() == spec_plan(registry@, pv, area, horizontal, i as int),
        decreases pv.len() - i,
    {
        let id = layout.panes[i].widget.id;
        match registry.get(id) {
            Some(config) => {
                let step = RenderStep { area: rects[i], widget: config.duplicate() };
                out.push(step);
                proof {
                    assert(out.deep_view() =~= spec_plan(
                        registry@,
                        pv,
                        area,
                        horizontal,
                        i as int + 1,
                    ));
                }
            },
            None => {},
        }
        i = i + 1;
    }
    out
}

} // verus!
