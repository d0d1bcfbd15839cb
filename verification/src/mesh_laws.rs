//! Proofs about the collision-mesh builder: the plates of a row are the
//! row's maximal solid runs, and the mesh a grid builds covers its solid
//! cells exactly, with no overlap, the same way on every run.

use vstd::prelude::*;

use crate::grid::GridModel;
use crate::mesh::covered;
use crate::mesh::in_plates;
use crate::mesh::plate_covers;
use crate::mesh::plates_row;
use crate::mesh::plates_scan;
use crate::mesh::rect_covers;
use crate::mesh::rects_disjoint;
use crate::mesh::all_rects;
use crate::mesh::closed_from;
use crate::mesh::extend_rect;
use crate::mesh::first_match;
use crate::mesh::new_active_from;
use crate::mesh::row_step;
use crate::mesh::span_in_plates;
use crate::mesh::spec_mesh;
use crate::mesh::state_after;
use crate::mesh::BuildState;
use crate::mesh::PlateModel;
use crate::mesh::RectModel;

verus! {

/// The plate list `ps` describes row `y` of `g` from column `lo` on: every
/// plate lies in `[lo, width)` and holds solid cells only, plates are
/// maximal (bounded by non-solid cells or the row ends), they appear in
/// strictly left-to-right order with gaps between them, and together they
/// cover every solid cell of the row from `lo` on.
pub open spec fn plates_describe_row(g: GridModel, y: int, lo: int, ps: Seq<PlateModel>) -> bool {
    &&& forall|i: int|
        0 <= i < ps.len() ==> lo <= (#[trigger] ps[i]).left <= ps[i].right < g.width
    &&& forall|i: int, c: int|
        0 <= i < ps.len() && #[trigger] plate_covers(ps[i], c) ==> g.is_solid(c, y)
    &&& forall|i: int|
        0 <= i < ps.len() ==> ((#[trigger] ps[i]).left == 0 || !g.is_solid(ps[i].left - 1, y))
    &&& forall|i: int|
        0 <= i < ps.len() ==> ((#[trigger] ps[i]).right == g.width - 1 || !g.is_solid(
            ps[i].right + 1,
            y,
        ))
    &&& forall|i: int, j: int|
        0 <= i < j < ps.len() ==> (#[trigger] ps[i]).right + 1 < (#[trigger] ps[j]).left
    &&& forall|c: int| lo <= c < g.width ==> (g.is_solid(c, y) <==> in_plates(ps, c))
}

/// The scan's invariant on its carried run: an open run started at a
/// maximal-left solid stretch reaching the scan position, and a scan with
/// no open run stands just after a non-solid cell or at the row's start.
pub open spec fn run_inv(g: GridModel, y: int, x: int, run_start: Option<int>) -> bool {
    match run_start {
        Some(s) => {
            &&& 0 <= s < x
            &&& forall|t: int| s <= t < x ==> g.is_solid(t, y)
            &&& (s == 0 || !g.is_solid(s - 1, y))
        },
        None => x == 0 || !g.is_solid(x - 1, y),
    }
}

/// The leftmost column the rest of the scan is responsible for.
pub open spec fn scan_lo(x: int, run_start: Option<int>) -> int {
    match run_start {
        Some(s) => s,
        None => x,
    }
}

/// The scan of a row's remainder yields plates that describe it.
pub proof fn lemma_plates_scan_props(g: GridModel, y: int, x: int, run_start: Option<int>)
    requires
        g.wf(),
        0 <= x <= g.width,
        run_inv(g, y, x, run_start),
    ensures
        plates_describe_row(g, y, scan_lo(x, run_start), plates_scan(g, y, x, run_start)),
    decreases g.width - x,
{
    let ps = plates_scan(g, y, x, run_start);
    let lo = scan_lo(x, run_start);
    if x >= g.width {
        match run_start {
            Some(s) => {
                assert(ps == seq![PlateModel { left: s, right: g.width - 1 }]);
                assert forall|c: int| lo <= c < g.width implies (g.is_solid(c, y) <==> in_plates(
                    ps,
                    c,
                )) by {
                    assert(g.is_solid(c, y));
                    assert(plate_covers(ps[0], c));
                }
            },
            None => {
                assert(ps =~= Seq::<PlateModel>::empty());
            },
        }
    } else if g.is_solid(x, y) {
        let next = match run_start {
            Some(s) => Some(s),
            None => Some(x),
        };
        assert(run_inv(g, y, x + 1, next));
        lemma_plates_scan_props(g, y, x + 1, next);
        assert(scan_lo(x + 1, next) == lo);
    } else {
        match run_start {
            None => {
                lemma_plates_scan_props(g, y, x + 1, None);
                // Column x itself is not solid and no plate reaches it.
                assert forall|c: int| lo <= c < g.width implies (g.is_solid(c, y) <==> in_plates(
                    ps,
                    c,
                )) by {
                    if c == x {
                        assert(!g.is_solid(c, y));
                        assert(forall|i: int|
                            0 <= i < ps.len() ==> (#[trigger] ps[i]).left >= x + 1);
                    }
                }
            },
            Some(s) => {
                let head = PlateModel { left: s, right: x - 1 };
                let rest = plates_scan(g, y, x + 1, None);
                lemma_plates_scan_props(g, y, x + 1, None);
                assert(ps == seq![head] + rest);
                assert(ps.len() == rest.len() + 1);
                assert(ps[0] == head);
                assert(forall|i: int| 1 <= i < ps.len() ==> ps[i] == rest[i - 1]);
                // Bounds and order.
                assert forall|i: int| 0 <= i < ps.len() implies lo <= (#[trigger] ps[i]).left
                    <= ps[i].right < g.width by {
                    if i >= 1 {
                        assert(rest[i - 1].left >= x + 1);
                    }
                }
                // Solidity of covered cells.
                assert forall|i: int, c: int|
                    0 <= i < ps.len() && #[trigger] plate_covers(ps[i], c) implies g.is_solid(
                    c,
                    y,
                ) by {
                    if i >= 1 {
                        assert(plate_covers(rest[i - 1], c));
                    }
                }
                // Maximality on both sides.
                assert forall|i: int| 0 <= i < ps.len() implies ((#[trigger] ps[i]).left == 0
                    || !g.is_solid(ps[i].left - 1, y)) by {
                    if i >= 1 {
                        assert(rest[i - 1].left == 0 || !g.is_solid(rest[i - 1].left - 1, y));
                    }
                }
                assert forall|i: int| 0 <= i < ps.len() implies ((#[trigger] ps[i]).right == g.width
                    - 1 || !g.is_solid(ps[i].right + 1, y)) by {
                    if i == 0 {
                        assert(!g.is_solid(x, y));
                    } else {
                        assert(rest[i - 1].right == g.width - 1 || !g.is_solid(
                            rest[i - 1].right + 1,
                            y,
                        ));
                    }
                }
                assert forall|i: int, j: int| 0 <= i < j < ps.len() implies (#[trigger] ps[i]).right
                    + 1 < (#[trigger] ps[j]).left by {
                    if i == 0 {
                        assert(rest[j - 1].left >= x + 1);
                    } else {
                        assert(rest[i - 1].right + 1 < rest[j - 1].left);
                    }
                }
                // Exact coverage from lo on.
                assert forall|c: int| lo <= c < g.width implies (g.is_solid(c, y) <==> in_plates(
                    ps,
                    c,
                )) by {
                    if c < x {
                        assert(g.is_solid(c, y));
                        assert(plate_covers(ps[0], c));
                    } else if c == x {
                        assert(!g.is_solid(c, y));
                        assert(!plate_covers(ps[0], c));
                        assert(forall|i: int|
                            1 <= i < ps.len() ==> (#[trigger] ps[i]).left >= x + 1);
                    } else {
                        if g.is_solid(c, y) {
                            assert(in_plates(rest, c));
                            let i = choose|i: int|
                                0 <= i < rest.len() && plate_covers(#[trigger] rest[i], c);
                            assert(plate_covers(ps[i + 1], c));
                        }
                        if in_plates(ps, c) {
                            let i = choose|i: int|
                                0 <= i < ps.len() && plate_covers(#[trigger] ps[i], c);
                            if i == 0 {
                                assert(false);
                            } else {
                                assert(plate_covers(rest[i - 1], c));
                                assert(in_plates(rest, c));
                            }
                        }
                    }
                }
            },
        }
    }
}

/// The plates of a row describe it in full: they are exactly the row's
/// maximal solid runs, in order.
pub proof fn lemma_plates_row_props(g: GridModel, y: int)
    requires
        g.wf(),
    ensures
        plates_describe_row(g, y, 0, plates_row(g, y)),
{
    lemma_plates_scan_props(g, y, 0, None);
}

/// Two rectangles that share a column span keep disjoint row ranges.
pub open spec fn rect_pair_ok(a: RectModel, b: RectModel) -> bool {
    (a.left == b.left && a.right == b.right) ==> (a.top < b.bottom || b.top < a.bottom)
}

/// Every pair of rectangles in the sequence is compatible.
pub open spec fn pairwise_ok(rs: Seq<RectModel>) -> bool {
    forall|i: int, j: int|
        0 <= i < j < rs.len() ==> rect_pair_ok(#[trigger] rs[i], #[trigger] rs[j])
}

/// `first_match` finds the first index with the asked span, if any.
pub proof fn lemma_first_match(rs: Seq<RectModel>, left: int, right: int, i: int)
    requires
        0 <= i <= rs.len(),
    ensures
        ({
            let m = first_match(rs, left, right, i);
            &&& i <= m <= rs.len()
            &&& (m < rs.len() ==> rs[m].left == left && rs[m].right == right)
            &&& forall|k: int|
                i <= k < m ==> !((#[trigger] rs[k]).left == left && rs[k].right == right)
        }),
    decreases rs.len() - i,
{
    if i < rs.len() && !(rs[i].left == left && rs[i].right == right) {
        lemma_first_match(rs, left, right, i + 1);
    }
}

/// The closed rectangles are exactly the in-progress ones whose span no
/// current plate carries.
pub proof fn lemma_closed_from_elems(active: Seq<RectModel>, ps: Seq<PlateModel>, i: int)
    requires
        0 <= i <= active.len(),
    ensures
        ({
            let cl = closed_from(active, ps, i);
            &&& forall|k: int|
                0 <= k < cl.len() ==> exists|t: int|
                    i <= t < active.len() && #[trigger] cl[k] == active[t] && !span_in_plates(
                        ps,
                        active[t].left,
                        active[t].right,
                    )
            &&& forall|t: int|
                i <= t < active.len() && !span_in_plates(
                    ps,
                    (#[trigger] active[t]).left,
                    active[t].right,
                ) ==> exists|k: int| 0 <= k < cl.len() && #[trigger] cl[k] == active[t]
        }),
    decreases active.len() - i,
{
    if i < active.len() {
        lemma_closed_from_elems(active, ps, i + 1);
        let cl = closed_from(active, ps, i);
        let rest = closed_from(active, ps, i + 1);
        if !span_in_plates(ps, active[i].left, active[i].right) {
            assert(cl == seq![active[i]] + rest);
            assert(cl[0] == active[i]);
            assert(forall|k: int| 1 <= k < cl.len() ==> cl[k] == rest[k - 1]);
            assert forall|k: int| 0 <= k < cl.len() implies exists|t: int|
                i <= t < active.len() && #[trigger] cl[k] == active[t] && !span_in_plates(
                    ps,
                    active[t].left,
                    active[t].right,
                ) by {
                if k == 0 {
                    assert(cl[k] == active[i] && !span_in_plates(
                        ps,
                        active[i].left,
                        active[i].right,
                    ));
                } else {
                    let t = choose|t: int|
                        i + 1 <= t < active.len() && #[trigger] rest[k - 1] == active[t]
                            && !span_in_plates(ps, active[t].left, active[t].right);
                    assert(cl[k] == active[t] && !span_in_plates(
                        ps,
                        active[t].left,
                        active[t].right,
                    ));
                }
            }
            assert forall|t: int|
                i <= t < active.len() && !span_in_plates(
                    ps,
                    (#[trigger] active[t]).left,
                    active[t].right,
                ) implies exists|k: int| 0 <= k < cl.len() && #[trigger] cl[k] == active[t] by {
                if t == i {
                    assert(cl[0] == active[t]);
                } else {
                    let k = choose|k: int| 0 <= k < rest.len() && #[trigger] rest[k] == active[t];
                    assert(cl[k + 1] == active[t]);
                }
            }
        } else {
            assert(cl == rest);
            assert forall|t: int|
                i <= t < active.len() && !span_in_plates(
                    ps,
                    (#[trigger] active[t]).left,
                    active[t].right,
                ) implies exists|k: int| 0 <= k < cl.len() && #[trigger] cl[k] == active[t] by {
                assert(t != i);
            }
        }
    }
}

/// Closing preserves pairwise compatibility.
pub proof fn lemma_closed_from_pairwise(active: Seq<RectModel>, ps: Seq<PlateModel>, i: int)
    requires
        0 <= i <= active.len(),
        forall|t1: int, t2: int|
            i <= t1 < t2 < active.len() ==> rect_pair_ok(
                #[trigger] active[t1],
                #[trigger] active[t2],
            ),
    ensures
        pairwise_ok(closed_from(active, ps, i)),
    decreases active.len() - i,
{
    if i < active.len() {
        lemma_closed_from_pairwise(active, ps, i + 1);
        lemma_closed_from_elems(active, ps, i + 1);
        let cl = closed_from(active, ps, i);
        let rest = closed_from(active, ps, i + 1);
        if !span_in_plates(ps, active[i].left, active[i].right) {
            assert(cl == seq![active[i]] + rest);
            assert forall|a: int, b: int| 0 <= a < b < cl.len() implies rect_pair_ok(
                #[trigger] cl[a],
                #[trigger] cl[b],
            ) by {
                if a == 0 {
                    let t = choose|t: int|
                        i + 1 <= t < active.len() && #[trigger] rest[b - 1] == active[t]
                            && !span_in_plates(ps, active[t].left, active[t].right);
                    assert(rect_pair_ok(active[i], active[t]));
                } else {
                    assert(rect_pair_ok(rest[a - 1], rest[b - 1]));
                }
            }
        }
    }
}

/// The next in-progress row mirrors the row plates, one rectangle each.
pub proof fn lemma_new_active_from(
    active: Seq<RectModel>,
    ps: Seq<PlateModel>,
    y: int,
    j: int,
)
    requires
        0 <= j <= ps.len(),
    ensures
        ({
            let na = new_active_from(active, ps, y, j);
            &&& na.len() == ps.len() - j
            &&& forall|k: int|
                0 <= k < na.len() ==> #[trigger] na[k] == extend_rect(active, ps[j + k], y)
        }),
    decreases ps.len() - j,
{
    if j < ps.len() {
        lemma_new_active_from(active, ps, y, j + 1);
        let na = new_active_from(active, ps, y, j);
        let rest = new_active_from(active, ps, y, j + 1);
        assert(na == seq![extend_rect(active, ps[j], y)] + rest);
        assert forall|k: int| 0 <= k < na.len() implies #[trigger] na[k] == extend_rect(
            active,
            ps[j + k],
            y,
        ) by {
            if k >= 1 {
                assert(na[k] == rest[k - 1]);
                assert(rest[k - 1] == extend_rect(active, ps[j + 1 + (k - 1)], y));
            }
        }
    }
}

/// The builder's invariant after processing rows `0 .. n`: the in-progress
/// rectangles mirror the plates of row `n - 1` and reach exactly that row;
/// every held rectangle spans rows whose plates carried its exact column
/// span; rectangles sharing a span keep disjoint row ranges; and every
/// solid cell of a processed row is covered by some held rectangle.
pub open spec fn builder_inv(g: GridModel, n: int, st: BuildState) -> bool {
    let all = all_rects(st);
    let prev = plates_row(g, n - 1);
    &&& st.active.len() == (if n <= 0 {
        0int
    } else {
        prev.len() as int
    })
    &&& (n > 0 ==> forall|k: int|
        0 <= k < st.active.len() ==> (#[trigger] st.active[k]).left == prev[k].left
            && st.active[k].right == prev[k].right && st.active[k].top == n - 1)
    &&& forall|t: int|
        0 <= t < all.len() ==> 0 <= (#[trigger] all[t]).bottom <= all[t].top <= n - 1
    &&& forall|t: int| 0 <= t < st.emitted.len() ==> (#[trigger] st.emitted[t]).top <= n - 2
    &&& forall|t: int, r: int|
        #![trigger span_in_plates(plates_row(g, r), all[t].left, all[t].right)]
        0 <= t < all.len() && all[t].bottom <= r <= all[t].top ==> span_in_plates(
            plates_row(g, r),
            all[t].left,
            all[t].right,
        )
    &&& pairwise_ok(all)
    &&& forall|x: int, r: int|
        0 <= r < n && #[trigger] g.is_solid(x, r) ==> covered(all, x, r)
}

/// The builder's invariant holds after any number of processed rows.
#[verifier::rlimit(100)]
pub proof fn lemma_state_inv(g: GridModel, n: int)
    requires
        g.wf(),
        0 <= n,
    ensures
        builder_inv(g, n, state_after(g, n)),
    decreases n,
{
    if n == 0 {
        let st = state_after(g, 0);
        assert(all_rects(st) =~= Seq::<RectModel>::empty());
    } else {
        lemma_state_inv(g, n - 1);
        let y = n - 1;
        let st0 = state_after(g, n - 1);
        let ps = plates_row(g, y);
        let st1 = state_after(g, n);
        assert(st1 == row_step(st0, ps, y));
        lemma_plates_row_props(g, y);
        let active = st0.active;
        let cl = closed_from(active, ps, 0);
        let na = new_active_from(active, ps, y, 0);
        lemma_closed_from_elems(active, ps, 0);
        lemma_new_active_from(active, ps, y, 0);
        let all0 = all_rects(st0);
        let all1 = all_rects(st1);
        let e0 = st0.emitted.len() as int;
        let c0 = cl.len() as int;
        // Index bookkeeping over the three segments of the new holdings.
        assert(st1.emitted == st0.emitted + cl);
        assert(st1.active == na);
        assert(all1 =~= st0.emitted + cl + na);
        assert(all1.len() == e0 + c0 + na.len());
        assert(forall|t: int| 0 <= t < e0 ==> #[trigger] all1[t] == st0.emitted[t]);
        assert(forall|t: int| e0 <= t < e0 + c0 ==> #[trigger] all1[t] == cl[t - e0]);
        assert(forall|t: int|
            e0 + c0 <= t < all1.len() ==> #[trigger] all1[t] == na[t - e0 - c0]);
        assert(forall|t: int| 0 <= t < e0 ==> #[trigger] all0[t] == st0.emitted[t]);
        assert(forall|t: int| e0 <= t < all0.len() ==> #[trigger] all0[t] == active[t - e0]);
        assert(all0.len() == e0 + active.len());
        // Plates of the current row carry pairwise distinct spans.
        assert forall|j1: int, j2: int| 0 <= j1 < j2 < ps.len() implies (#[trigger] ps[j1]).left
            < (#[trigger] ps[j2]).left by {
            assert(ps[j1].right + 1 < ps[j2].left);
        }
        // The old in-progress spans are pairwise distinct as well.
        if n >= 2 {
            lemma_plates_row_props(g, n - 2);
        }
        let prev = plates_row(g, n - 2);
        assert forall|k1: int, k2: int| 0 <= k1 < k2 < active.len() implies !((
        #[trigger] active[k1]).left == (#[trigger] active[k2]).left && active[k1].right
            == active[k2].right) by {
            assert(active[k1].left == prev[k1].left);
            assert(active[k2].left == prev[k2].left);
            assert(prev[k1].right + 1 < prev[k2].left);
        }
        // Matched plates extend the unique in-progress rectangle of their span.
        assert forall|k: int| 0 <= k < na.len() implies #[trigger] na[k] == extend_rect(
            active,
            ps[k],
            y,
        ) && na[k].left == ps[k].left && na[k].right == ps[k].right && na[k].top == y by {
            lemma_first_match(active, ps[k].left, ps[k].right, 0);
        }
        // Bounds of every held rectangle.
        assert forall|t: int| 0 <= t < all1.len() implies 0 <= (#[trigger] all1[t]).bottom
            <= all1[t].top <= n - 1 by {
            if t < e0 {
                assert(all0[t] == all1[t]);
                assert(0 <= all0[t].bottom <= all0[t].top <= n - 2);
            } else if t < e0 + c0 {
                let k = t - e0;
                let tt = choose|tt: int|
                    0 <= tt < active.len() && #[trigger] cl[k] == active[tt] && !span_in_plates(
                        ps,
                        active[tt].left,
                        active[tt].right,
                    );
                assert(all0[e0 + tt] == active[tt]);
                assert(0 <= active[tt].bottom <= active[tt].top <= n - 2);
            } else {
                let k = t - e0 - c0;
                let m = first_match(active, ps[k].left, ps[k].right, 0);
                lemma_first_match(active, ps[k].left, ps[k].right, 0);
                if m < active.len() {
                    assert(all0[e0 + m] == active[m]);
                    assert(0 <= active[m].bottom <= active[m].top <= n - 2);
                }
            }
        }
        // Emitted rectangles stop below the just-processed row.
        assert forall|t: int| 0 <= t < st1.emitted.len() implies (#[trigger] st1.emitted[t]).top
            <= n - 2 by {
            if t < e0 {
                assert(st1.emitted[t] == st0.emitted[t]);
            } else {
                let k = t - e0;
                let tt = choose|tt: int|
                    0 <= tt < active.len() && #[trigger] cl[k] == active[tt] && !span_in_plates(
                        ps,
                        active[tt].left,
                        active[tt].right,
                    );
                assert(all0[e0 + tt] == active[tt]);
                assert(active[tt].top <= n - 2);
            }
        }
        // Every row a rectangle spans had a plate of its exact span.
        assert forall|t: int, r: int|
            #![trigger span_in_plates(plates_row(g, r), all1[t].left, all1[t].right)]
            0 <= t < all1.len() && all1[t].bottom <= r <= all1[t].top implies span_in_plates(
            plates_row(g, r),
            all1[t].left,
            all1[t].right,
        ) by {
            if t < e0 {
                assert(all0[t] == all1[t]);
                assert(span_in_plates(plates_row(g, r), all0[t].left, all0[t].right));
            } else if t < e0 + c0 {
                let k = t - e0;
                let tt = choose|tt: int|
                    0 <= tt < active.len() && #[trigger] cl[k] == active[tt] && !span_in_plates(
                        ps,
                        active[tt].left,
                        active[tt].right,
                    );
                assert(all0[e0 + tt] == active[tt]);
                assert(span_in_plates(plates_row(g, r), all0[e0 + tt].left, all0[e0 + tt].right));
            } else {
                let k = t - e0 - c0;
                let m = first_match(active, ps[k].left, ps[k].right, 0);
                lemma_first_match(active, ps[k].left, ps[k].right, 0);
                if r == y {
                    assert(0 <= k < ps.len() && ps[k].left == all1[t].left && ps[k].right
                        == all1[t].right);
                } else {
                    assert(m < active.len());
                    assert(all0[e0 + m] == active[m]);
                    assert(active[m].bottom <= r <= active[m].top);
                    assert(span_in_plates(plates_row(g, r), all0[e0 + m].left, all0[e0 + m].right));
                }
            }
        }
        // Pairwise compatibility of the new holdings.
        assert forall|t1: int, t2: int| 0 <= t1 < t2 < active.len() implies rect_pair_ok(
            #[trigger] active[t1],
            #[trigger] active[t2],
        ) by {
            assert(rect_pair_ok(all0[e0 + t1], all0[e0 + t2]));
        }
        lemma_closed_from_pairwise(active, ps, 0);
        assert forall|i: int, j: int| 0 <= i < j < all1.len() implies rect_pair_ok(
            #[trigger] all1[i],
            #[trigger] all1[j],
        ) by {
            if j < e0 {
                assert(rect_pair_ok(all0[i], all0[j]));
            } else if j < e0 + c0 {
                let kj = j - e0;
                let tj = choose|tj: int|
                    0 <= tj < active.len() && #[trigger] cl[kj] == active[tj] && !span_in_plates(
                        ps,
                        active[tj].left,
                        active[tj].right,
                    );
                if i < e0 {
                    assert(all0[e0 + tj] == active[tj]);
                    assert(rect_pair_ok(all0[i], all0[e0 + tj]));
                } else {
                    assert(rect_pair_ok(cl[i - e0], cl[kj]));
                }
            } else {
                let kj = j - e0 - c0;
                let a = na[kj];
                let m = first_match(active, ps[kj].left, ps[kj].right, 0);
                lemma_first_match(active, ps[kj].left, ps[kj].right, 0);
                if i >= e0 + c0 {
                    // Two fresh-row rectangles carry distinct plate spans.
                    let ki = i - e0 - c0;
                    assert(na[ki].left == ps[ki].left && na[ki].right == ps[ki].right);
                    assert(ps[ki].left < ps[kj].left);
                } else {
                    let e = all1[i];
                    if e.left == a.left && e.right == a.right {
                        // The older rectangle ends below row y; if the plate
                        // extends an in-progress rectangle, the older one even
                        // ends below that rectangle's bottom row.
                        assert(e.top <= n - 2);
                        if m == active.len() {
                            assert(a.bottom == y);
                        } else {
                            assert(active[m].left == a.left && active[m].right == a.right);
                            assert(a.bottom == active[m].bottom);
                            if i < e0 {
                                assert(all0[e0 + m] == active[m]);
                                assert(rect_pair_ok(all0[i], all0[e0 + m]));
                                assert(active[m].top == n - 2);
                                assert(e.top < active[m].bottom || active[m].top < e.bottom);
                                assert(e.top <= n - 2 && e.bottom <= e.top);
                                assert(e.top < a.bottom);
                            } else {
                                // A closed rectangle of this very span cannot
                                // exist: the span is carried by plate kj.
                                let ki = i - e0;
                                let ti = choose|ti: int|
                                    0 <= ti < active.len() && #[trigger] cl[ki] == active[ti]
                                        && !span_in_plates(ps, active[ti].left, active[ti].right);
                                assert(0 <= kj < ps.len() && ps[kj].left == active[ti].left
                                    && ps[kj].right == active[ti].right);
                                assert(false);
                            }
                        }
                    }
                }
            }
        }
        // Every solid cell of a processed row stays covered.
        assert forall|x: int, r: int|
            0 <= r < n && #[trigger] g.is_solid(x, r) implies covered(all1, x, r) by {
            if r < n - 1 {
                assert(covered(all0, x, r));
                let t = choose|t: int| 0 <= t < all0.len() && rect_covers(#[trigger] all0[t], x, r);
                if t < e0 {
                    assert(rect_covers(all1[t], x, r));
                } else {
                    let t0 = t - e0;
                    if span_in_plates(ps, active[t0].left, active[t0].right) {
                        let j0 = choose|j0: int|
                            0 <= j0 < ps.len() && (#[trigger] ps[j0]).left == active[t0].left
                                && ps[j0].right == active[t0].right;
                        let m = first_match(active, ps[j0].left, ps[j0].right, 0);
                        lemma_first_match(active, ps[j0].left, ps[j0].right, 0);
                        assert(m < active.len());
                        assert(m == t0);
                        assert(na[j0].bottom == active[t0].bottom && na[j0].top == y);
                        assert(rect_covers(all1[e0 + c0 + j0], x, r));
                    } else {
                        let k = choose|k: int| 0 <= k < cl.len() && #[trigger] cl[k] == active[t0];
                        assert(rect_covers(all1[e0 + k], x, r));
                    }
                }
            } else {
                // The just-processed row: its plates cover every solid cell.
                assert(0 <= x < g.width);
                assert(in_plates(ps, x));
                let j0 = choose|j0: int| 0 <= j0 < ps.len() && plate_covers(#[trigger] ps[j0], x);
                let m = first_match(active, ps[j0].left, ps[j0].right, 0);
                lemma_first_match(active, ps[j0].left, ps[j0].right, 0);
                if m < active.len() {
                    assert(all0[e0 + m] == active[m]);
                    assert(na[j0].bottom == active[m].bottom <= n - 2);
                }
                assert(rect_covers(all1[e0 + c0 + j0], x, r));
            }
        }
    }
}

/// Coverage exactness: the mesh of a well-formed grid covers each solid
/// cell, covers nothing else, and no two of its rectangles overlap.
pub proof fn lemma_mesh_exact_cover(g: GridModel)
    requires
        g.wf(),
    ensures
        forall|x: int, y: int| covered(spec_mesh(g), x, y) <==> #[trigger] g.is_solid(x, y),
        rects_disjoint(spec_mesh(g)),
{
    lemma_state_inv(g, g.height);
    let st = state_after(g, g.height);
    let mesh = spec_mesh(g);
    assert(mesh == all_rects(st));
    assert forall|x: int, y: int| covered(mesh, x, y) <==> #[trigger] g.is_solid(x, y) by {
        if covered(mesh, x, y) {
            let t = choose|t: int| 0 <= t < mesh.len() && rect_covers(#[trigger] mesh[t], x, y);
            assert(0 <= mesh[t].bottom <= mesh[t].top <= g.height - 1);
            assert(span_in_plates(plates_row(g, y), mesh[t].left, mesh[t].right));
            let ps = plates_row(g, y);
            let k = choose|k: int|
                0 <= k < ps.len() && (#[trigger] ps[k]).left == mesh[t].left && ps[k].right
                    == mesh[t].right;
            lemma_plates_row_props(g, y);
            assert(plate_covers(ps[k], x));
        }
        if g.is_solid(x, y) {
            assert(0 <= y < g.height);
            assert(covered(all_rects(st), x, y));
        }
    }
    assert forall|i: int, j: int, x: int, y: int|
        #![trigger rect_covers(mesh[i], x, y), rect_covers(mesh[j], x, y)]
        0 <= i < j < mesh.len() implies !(rect_covers(mesh[i], x, y) && rect_covers(
        mesh[j],
        x,
        y,
    )) by {
        if rect_covers(mesh[i], x, y) && rect_covers(mesh[j], x, y) {
            assert(0 <= mesh[i].bottom <= mesh[i].top <= g.height - 1);
            assert(span_in_plates(plates_row(g, y), mesh[i].left, mesh[i].right));
            assert(span_in_plates(plates_row(g, y), mesh[j].left, mesh[j].right));
            let ps = plates_row(g, y);
            let ki = choose|k: int|
                0 <= k < ps.len() && (#[trigger] ps[k]).left == mesh[i].left && ps[k].right
                    == mesh[i].right;
            let kj = choose|k: int|
                0 <= k < ps.len() && (#[trigger] ps[k]).left == mesh[j].left && ps[k].right
                    == mesh[j].right;
            lemma_plates_row_props(g, y);
            if ki == kj {
                // Same column span: the two rectangles' row ranges are
                // disjoint, yet both contain y.
                assert(rect_pair_ok(mesh[i], mesh[j]));
                assert(false);
            } else {
                // Distinct plates of one row never share a column.
                if ki < kj {
                    assert(ps[ki].right + 1 < ps[kj].left);
                } else {
                    assert(ps[kj].right + 1 < ps[ki].left);
                }
                assert(false);
            }
        }
    }
}

/// Determinism: the mesh is a function of the level's dimensions and its
/// solid-cell set alone, so rebuilding an unchanged grid rebuilds the very
/// same rectangle sequence.
pub proof fn lemma_mesh_deterministic(g1: GridModel, g2: GridModel)
    requires
        g1.width == g2.width,
        g1.height == g2.height,
        g1.cells =~= g2.cells,
    ensures
        spec_mesh(g1) == spec_mesh(g2),
{
    assert(g1 =~= g2);
}

/// Every mesh rectangle lies inside the grid: columns within the width,
/// rows within the height, both ranges non-empty.
pub proof fn lemma_mesh_rect_bounds(g: GridModel)
    requires
        g.wf(),
    ensures
        forall|t: int|
            0 <= t < spec_mesh(g).len() ==> {
                let r = #[trigger] spec_mesh(g)[t];
                0 <= r.left <= r.right < g.width && 0 <= r.bottom <= r.top < g.height
            },
{
    lemma_state_inv(g, g.height);
    let st = state_after(g, g.height);
    let mesh = spec_mesh(g);
    assert(mesh == all_rects(st));
    assert forall|t: int| 0 <= t < mesh.len() implies {
        let r = #[trigger] mesh[t];
        0 <= r.left <= r.right < g.width && 0 <= r.bottom <= r.top < g.height
    } by {
        let r = mesh[t];
        assert(0 <= r.bottom <= r.top <= g.height - 1);
        assert(span_in_plates(plates_row(g, r.bottom), r.left, r.right));
        let ps = plates_row(g, r.bottom);
        let k = choose|k: int|
            0 <= k < ps.len() && (#[trigger] ps[k]).left == r.left && ps[k].right == r.right;
        lemma_plates_row_props(g, r.bottom);
    }
}

} // verus!
