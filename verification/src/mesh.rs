//! Collision-mesh builder: turns a level's solid-cell grid into a set of
//! axis-aligned rectangles that covers the solid cells exactly, with no
//! overlap, using a greedy row-by-row plate-merging pass.
//!
//! Rows are walked from row 0 upward. Each row is first split into plates
//! (maximal horizontal runs of solid cells); a plate whose column span
//! matches a plate of the previous row extends that rectangle by one row,
//! a plate with no match starts a new rectangle, and a rectangle whose
//! plate disappears is closed and emitted. The whole pass is a function of
//! the grid alone, so rebuilding an unchanged grid yields the same mesh.

use vstd::prelude::*;

use crate::grid::GridModel;
use crate::grid::SolidGrid;
use crate::mesh_laws::lemma_mesh_exact_cover;

verus! {

/// A maximal horizontal run of solid cells within one row, identified by
/// its inclusive column range.
#[derive(Clone, Copy, PartialEq, Eq, Structural, Debug)]
pub struct Plate {
    pub left: usize,
    pub right: usize,
}

/// Mathematical counterpart of `Plate`.
pub ghost struct PlateModel {
    pub left: int,
    pub right: int,
}

impl View for Plate {
    type V = PlateModel;

    open spec fn view(&self) -> PlateModel {
        PlateModel { left: self.left as int, right: self.right as int }
    }
}

/// An axis-aligned rectangle of grid cells, all bounds inclusive: columns
/// `left..=right`, rows `bottom..=top`.
#[derive(Clone, Copy, PartialEq, Eq, Structural, Debug)]
pub struct Rect {
    pub left: usize,
    pub right: usize,
    pub bottom: usize,
    pub top: usize,
}

/// Mathematical counterpart of `Rect`.
pub ghost struct RectModel {
    pub left: int,
    pub right: int,
    pub bottom: int,
    pub top: int,
}

impl View for Rect {
    type V = RectModel;

    open spec fn view(&self) -> RectModel {
        RectModel {
            left: self.left as int,
            right: self.right as int,
            bottom: self.bottom as int,
            top: self.top as int,
        }
    }
}

/// The models of a sequence of plates.
pub open spec fn plate_views(s: Seq<Plate>) -> Seq<PlateModel> {
    s.map_values(|p: Plate| p@)
}

/// The models of a sequence of rectangles.
pub open spec fn rect_views(s: Seq<Rect>) -> Seq<RectModel> {
    s.map_values(|r: Rect| r@)
}

/// A plate covers a column.
pub open spec fn plate_covers(p: PlateModel, c: int) -> bool {
    p.left <= c <= p.right
}

/// Some plate of the sequence covers column `c`.
pub open spec fn in_plates(ps: Seq<PlateModel>, c: int) -> bool {
    exists|i: int| 0 <= i < ps.len() && plate_covers(#[trigger] ps[i], c)
}

/// Some plate of the sequence has exactly the column span `(left, right)`.
pub open spec fn span_in_plates(ps: Seq<PlateModel>, left: int, right: int) -> bool {
    exists|i: int| 0 <= i < ps.len() && (#[trigger] ps[i]).left == left && ps[i].right == right
}

/// A rectangle covers a cell.
pub open spec fn rect_covers(r: RectModel, x: int, y: int) -> bool {
    r.left <= x <= r.right && r.bottom <= y <= r.top
}

/// Some rectangle of the sequence covers cell `(x, y)`.
pub open spec fn covered(rs: Seq<RectModel>, x: int, y: int) -> bool {
    exists|i: int| 0 <= i < rs.len() && rect_covers(#[trigger] rs[i], x, y)
}

/// No cell is covered by two distinct rectangles of the sequence.
pub open spec fn rects_disjoint(rs: Seq<RectModel>) -> bool {
    forall|i: int, j: int, x: int, y: int|
        #![trigger rect_covers(rs[i], x, y), rect_covers(rs[j], x, y)]
        0 <= i < j < rs.len() ==> !(rect_covers(rs[i], x, y) && rect_covers(rs[j], x, y))
}

/// Left-to-right scan of row `y` from column `x` on, carrying the start
/// column of the solid run currently open, if any. Yields the plates of
/// the rest of the row.
pub open spec fn plates_scan(g: GridModel, y: int, x: int, run_start: Option<int>) -> Seq<
    PlateModel,
>
    decreases g.width - x,
    when x <= g.width
{
    if x >= g.width {
        match run_start {
            Some(s) => seq![PlateModel { left: s, right: g.width - 1 }],
            None => Seq::empty(),
        }
    } else if g.is_solid(x, y) {
        plates_scan(
            g,
            y,
            x + 1,
            match run_start {
                Some(s) => Some(s),
                None => Some(x),
            },
        )
    } else {
        match run_start {
            Some(s) => seq![PlateModel { left: s, right: x - 1 }] + plates_scan(g, y, x + 1, None),
            None => plates_scan(g, y, x + 1, None),
        }
    }
}

/// The plates of row `y`: its maximal solid runs, in left-to-right order.
pub open spec fn plates_row(g: GridModel, y: int) -> Seq<PlateModel> {
    plates_scan(g, y, 0, None)
}

/// Index of the first rectangle of `rs` from position `i` on whose column
/// span is exactly `(left, right)`, or `rs.len()` if there is none.
pub open spec fn first_match(rs: Seq<RectModel>, left: int, right: int, i: int) -> int
    decreases rs.len() - i,
    when 0 <= i <= rs.len()
{
    if i >= rs.len() {
        rs.len() as int
    } else if rs[i].left == left && rs[i].right == right {
        i
    } else {
        first_match(rs, left, right, i + 1)
    }
}

/// The in-progress rectangles from position `i` on whose span matches no
/// plate of the current row: these close now, in their stored order.
pub open spec fn closed_from(active: Seq<RectModel>, ps: Seq<PlateModel>, i: int) -> Seq<RectModel>
    decreases active.len() - i,
    when 0 <= i <= active.len()
{
    if i >= active.len() {
        Seq::empty()
    } else if span_in_plates(ps, active[i].left, active[i].right) {
        closed_from(active, ps, i + 1)
    } else {
        seq![active[i]] + closed_from(active, ps, i + 1)
    }
}

/// The rectangle that plate `p` of row `y` continues or starts: a matching
/// in-progress rectangle keeps its bottom row and is extended to row `y`,
/// an unmatched plate opens a fresh one-row rectangle.
pub open spec fn extend_rect(active: Seq<RectModel>, p: PlateModel, y: int) -> RectModel {
    let m = first_match(active, p.left, p.right, 0);
    if m < active.len() {
        RectModel { left: p.left, right: p.right, bottom: active[m].bottom, top: y }
    } else {
        RectModel { left: p.left, right: p.right, bottom: y, top: y }
    }
}

/// The in-progress rectangles after row `y`, one per plate of the row from
/// position `j` on, in plate order.
pub open spec fn new_active_from(
    active: Seq<RectModel>,
    ps: Seq<PlateModel>,
    y: int,
    j: int,
) -> Seq<RectModel>
    decreases ps.len() - j,
    when 0 <= j <= ps.len()
{
    if j >= ps.len() {
        Seq::empty()
    } else {
        seq![extend_rect(active, ps[j], y)] + new_active_from(active, ps, y, j + 1)
    }
}

/// Builder state: the rectangles still open after the last processed row,
/// and the rectangles already emitted.
#[verifier::ext_equal]
pub ghost struct BuildState {
    pub active: Seq<RectModel>,
    pub emitted: Seq<RectModel>,
}

/// All rectangles the builder holds, emitted ones first.
pub open spec fn all_rects(st: BuildState) -> Seq<RectModel> {
    st.emitted + st.active
}

/// Processes one row: rectangles whose plate disappeared are emitted, the
/// row's plates extend or open the rectangles that stay in progress.
pub open spec fn row_step(st: BuildState, ps: Seq<PlateModel>, y: int) -> BuildState {
    BuildState {
        active: new_active_from(st.active, ps, y, 0),
        emitted: st.emitted + closed_from(st.active, ps, 0),
    }
}

/// Builder state after processing rows `0 .. n`.
pub open spec fn state_after(g: GridModel, n: int) -> BuildState
    decreases n,
    when n >= 0
{
    if n <= 0 {
        BuildState { active: Seq::empty(), emitted: Seq::empty() }
    } else {
        row_step(state_after(g, n - 1), plates_row(g, n - 1), n - 1)
    }
}

/// The full mesh of a grid: all rows processed, the rectangles still open
/// after the last row closing in order behind the emitted ones.
pub open spec fn spec_mesh(g: GridModel) -> Seq<RectModel> {
    let st = state_after(g, g.height);
    st.emitted + st.active
}

/// The spec model of `run_start` as the scan carries it.
pub open spec fn run_model(o: Option<usize>) -> Option<int> {
    match o {
        Some(s) => Some(s as int),
        None => None,
    }
}

/// Collects the plates of row `y`: the row's maximal runs of solid cells.
#[verifier::loop_isolation(false)]
pub fn row_plates(grid: &SolidGrid, y: usize) -> (ps: Vec<Plate>)
    requires
        grid.wf(),
        y < grid.height,
    ensures
        plate_views(ps@) == plates_row(grid@, y as int),
{
    let mut ps: Vec<Plate> = Vec::new();
    let mut run_start: Option<usize> = None;
    let width: usize = grid.width;
    for x in 0..width
        invariant
            plates_row(grid@, y as int) == plate_views(ps@) + plates_scan(
                grid@,
                y as int,
                x as int,
                run_model(run_start),
            ),
            (match run_start {
                Some(s) => s < x,
                None => true,
            }),
    {
        let solid: bool = grid.is_solid(x, y);
        match (run_start, solid) {
            (Some(s), false) => {
                proof {
                    lemma_plate_views_push(ps@, (Plate { left: s, right: (x - 1) as usize }));
                    assert(plate_views(ps@) + plates_scan(
                        grid@,
                        y as int,
                        x as int,
                        run_model(run_start),
                    ) =~= plate_views(ps@.push((Plate { left: s, right: (x - 1) as usize }))) + plates_scan(
                        grid@,
                        y as int,
                        x as int + 1,
                        None,
                    ));
                }
                ps.push(Plate { left: s, right: x - 1 });
                run_start = None;
            },
            (None, true) => {
                run_start = Some(x);
            },
            _ => {},
        }
    }
    if let Some(s) = run_start {
        proof {
            lemma_plate_views_push(ps@, (Plate { left: s, right: (width - 1) as usize }));
            assert(plate_views(ps@.push((Plate { left: s, right: (width - 1) as usize }))) =~= plate_views(
                ps@,
            ) + plates_scan(grid@, y as int, width as int, run_model(run_start)));
        }
        ps.push(Plate { left: s, right: width - 1 });
    }
    proof {
        assert(plate_views(ps@) =~= plates_row(grid@, y as int));
    }
    ps
}

/// Mapping plate views commutes with push.
pub proof fn lemma_plate_views_push(s: Seq<Plate>, p: Plate)
    ensures
        plate_views(s.push(p)) == plate_views(s).push(p@),
{
    assert(plate_views(s.push(p)) =~= plate_views(s).push(p@));
}

/// Mapping rectangle views commutes with push.
pub proof fn lemma_rect_views_push(s: Seq<Rect>, r: Rect)
    ensures
        rect_views(s.push(r)) == rect_views(s).push(r@),
{
    assert(rect_views(s.push(r)) =~= rect_views(s).push(r@));
}

/// Does any plate of `ps` have exactly the span `(left, right)`?
#[verifier::loop_isolation(false)]
fn span_matches_any(ps: &Vec<Plate>, left: usize, right: usize) -> (r: bool)
    ensures
        r == span_in_plates(plate_views(ps@), left as int, right as int),
{
    let mut k: usize = 0;
    while k < ps.len()
        invariant
            0 <= k <= ps.len(),
            forall|i: int|
                0 <= i < k ==> !((#[trigger] plate_views(ps@)[i]).left == left
                    && plate_views(ps@)[i].right == right),
        decreases ps.len() - k,
    {
        if ps[k].left == left && ps[k].right == right {
            assert(plate_views(ps@)[k as int].left == left);
            return true;
        }
        k += 1;
    }
    false
}

/// Index of the first in-progress rectangle with span `(left, right)`, or
/// `active.len()` if none matches.
#[verifier::loop_isolation(false)]
fn find_match_idx(active: &Vec<Rect>, left: usize, right: usize) -> (m: usize)
    ensures
        m as int == first_match(rect_views(active@), left as int, right as int, 0),
{
    let mut k: usize = 0;
    while k < active.len()
        invariant
            0 <= k <= active.len(),
            first_match(rect_views(active@), left as int, right as int, 0) == first_match(
                rect_views(active@),
                left as int,
                right as int,
                k as int,
            ),
        decreases active.len() - k,
    {
        if active[k].left == left && active[k].right == right {
            assert(rect_views(active@)[k as int].left == left);
            return k;
        }
        assert(!(rect_views(active@)[k as int].left == left && rect_views(active@)[k as int].right
            == right));
        k += 1;
    }
    active.len()
}

/// Builds the collision mesh of a grid: the greedy row-merge pass over all
/// rows. The result is exactly `spec_mesh` of the grid's model, so the
/// mesh is a function of the solid-cell set alone; it covers the grid's
/// solid cells exactly, and no two of its rectangles overlap.
#[verifier::loop_isolation(false)]
pub fn build_mesh(grid: &SolidGrid) -> (rects: Vec<Rect>)
    requires
        grid.wf(),
    ensures
        rect_views(rects@) == spec_mesh(grid@),
        forall|x: int, y: int|
            covered(rect_views(rects@), x, y) <==> #[trigger] grid@.is_solid(x, y),
        rects_disjoint(rect_views(rects@)),
{
    proof {
        grid.lemma_wf_model();
        lemma_mesh_exact_cover(grid@);
    }
    let mut active: Vec<Rect> = Vec::new();
    let mut emitted: Vec<Rect> = Vec::new();
    let height: usize = grid.height;
    for y in 0..height
        invariant
            rect_views(active@) == state_after(grid@, y as int).active,
            rect_views(emitted@) == state_after(grid@, y as int).emitted,
    {
        let ps = row_plates(grid, y);
        let ghost st = state_after(grid@, y as int);
        let ghost pv = plate_views(ps@);
        // Close and emit the rectangles whose plate is gone in this row.
        let mut i: usize = 0;
        while i < active.len()
            invariant
                0 <= i <= active.len(),
                st.emitted + closed_from(st.active, pv, 0) =~= rect_views(emitted@) + closed_from(
                    st.active,
                    pv,
                    i as int,
                ),
            decreases active.len() - i,
        {
            let keep = span_matches_any(&ps, active[i].left, active[i].right);
            if !keep {
                proof {
                    lemma_rect_views_push(emitted@, active@[i as int]);
                    assert(rect_views(emitted@) + closed_from(st.active, pv, i as int)
                        =~= rect_views(emitted@.push(active@[i as int])) + closed_from(
                        st.active,
                        pv,
                        i as int + 1,
                    ));
                }
                let r = active[i];
                emitted.push(r);
            }
            i += 1;
        }
        // Extend matched rectangles and open fresh ones, in plate order.
        let mut next_active: Vec<Rect> = Vec::new();
        let mut j: usize = 0;
        while j < ps.len()
            invariant
                0 <= j <= ps.len(),
                new_active_from(st.active, pv, y as int, 0) =~= rect_views(next_active@)
                    + new_active_from(st.active, pv, y as int, j as int),
            decreases ps.len() - j,
        {
            let p = ps[j];
            let m = find_match_idx(&active, p.left, p.right);
            let r = if m < active.len() {
                Rect { left: p.left, right: p.right, bottom: active[m].bottom, top: y }
            } else {
                Rect { left: p.left, right: p.right, bottom: y, top: y }
            };
            proof {
                lemma_rect_views_push(next_active@, r);
                assert(r@ == extend_rect(st.active, pv[j as int], y as int));
                assert(rect_views(next_active@) + new_active_from(st.active, pv, y as int, j as int)
                    =~= rect_views(next_active@.push(r)) + new_active_from(
                    st.active,
                    pv,
                    y as int,
                    j as int + 1,
                ));
            }
            next_active.push(r);
            j += 1;
        }
        active = next_active;
        proof {
            assert(state_after(grid@, y as int + 1) == row_step(st, pv, y as int));
            assert(rect_views(active@) =~= state_after(grid@, y as int + 1).active);
            assert(rect_views(emitted@) =~= state_after(grid@, y as int + 1).emitted);
        }
    }
    // After the last row every rectangle still open closes, in order.
    let ghost st_end = state_after(grid@, height as int);
    let mut i: usize = 0;
    while i < active.len()
        invariant
            0 <= i <= active.len(),
            rect_views(emitted@) == st_end.emitted + st_end.active.take(i as int),
        decreases active.len() - i,
    {
        proof {
            lemma_rect_views_push(emitted@, active@[i as int]);
            assert(st_end.active.take(i as int).push(st_end.active[i as int]) =~= st_end.active.take(
                i as int + 1,
            ));
            assert(rect_views(emitted@).push(active@[i as int]@) =~= st_end.emitted
                + st_end.active.take(i as int + 1));
        }
        let r = active[i];
        emitted.push(r);
        i += 1;
    }
    proof {
        assert(st_end.active.take(active@.len() as int) =~= st_end.active);
        assert(rect_views(emitted@) =~= spec_mesh(grid@));
    }
    emitted
}

} // verus!
