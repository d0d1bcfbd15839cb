//! The level side of the world: registering the built mesh as wall
//! colliders in world space, tracking which loaded level region contains
//! the actor, and the full-level reset decision.

use vstd::prelude::*;

use crate::grid::SolidGrid;
use crate::mesh::build_mesh;
use crate::mesh::rect_views;
use crate::mesh::spec_mesh;
use crate::mesh::Rect;
use crate::mesh::RectModel;
use crate::mesh_laws::lemma_mesh_rect_bounds;
use crate::movement::PlayerInputEvent;

verus! {

/// Micro-units per half grid pixel: half of the cell-to-world scale.
pub const HALF_CELL_SCALE: i64 = 500_000;

/// Largest cell-to-world scale factor accepted, in pixels per cell.
pub const MAX_GRID_SIZE: u32 = 10_000;

/// Largest grid dimension accepted, in cells.
pub const MAX_GRID_DIM: usize = 1_000_000;

/// Player collider half extents, in micro-units.
pub const PLAYER_HALF_WIDTH: i64 = 14_000_000;

/// Player collider half extents, in micro-units.
pub const PLAYER_HALF_HEIGHT: i64 = 20_000_000;

/// A static, immovable wall collider handed to the physics system:
/// world-space center and half extents, in micro-units.
#[derive(Clone, Copy, PartialEq, Eq, Structural, Debug)]
pub struct WallCollider {
    pub center_x: i64,
    pub center_y: i64,
    pub half_width: i64,
    pub half_height: i64,
}

/// The collider a mesh rectangle registers, for a given cell-to-world
/// scale: centered on the rectangle, half a cell wide per covered cell.
pub open spec fn spec_wall_collider(r: RectModel, grid_size: int) -> WallCollider {
    WallCollider {
        center_x: ((r.left + r.right + 1) * grid_size * HALF_CELL_SCALE) as i64,
        center_y: ((r.bottom + r.top + 1) * grid_size * HALF_CELL_SCALE) as i64,
        half_width: ((r.right - r.left + 1) * grid_size * HALF_CELL_SCALE) as i64,
        half_height: ((r.top - r.bottom + 1) * grid_size * HALF_CELL_SCALE) as i64,
    }
}

/// Converts mesh rectangles to world-space wall colliders.
#[verifier::loop_isolation(false)]
pub fn wall_colliders(rects: &Vec<Rect>, grid_size: u32) -> (cs: Vec<WallCollider>)
    requires
        1 <= grid_size <= MAX_GRID_SIZE,
        forall|i: int|
            0 <= i < rects@.len() ==> (#[trigger] rects@[i]).left <= rects@[i].right
                < MAX_GRID_DIM && rects@[i].bottom <= rects@[i].top < MAX_GRID_DIM,
    ensures
        cs@.len() == rects@.len(),
        forall|i: int|
            0 <= i < cs@.len() ==> #[trigger] cs@[i] == spec_wall_collider(
                rects@[i]@,
                grid_size as int,
            ),
{
    let mut cs: Vec<WallCollider> = Vec::new();
    let mut i: usize = 0;
    while i < rects.len()
        invariant
            0 <= i <= rects.len(),
            cs@.len() == i,
            forall|k: int|
                0 <= k < i ==> #[trigger] cs@[k] == spec_wall_collider(
                    rects@[k]@,
                    grid_size as int,
                ),
        decreases rects.len() - i,
    {
        let r = rects[i];
        proof {
            assert((r.left + r.right + 1) * grid_size * HALF_CELL_SCALE < i64::MAX
                && (r.right - r.left + 1) * grid_size * HALF_CELL_SCALE < i64::MAX
                && (r.bottom + r.top + 1) * grid_size * HALF_CELL_SCALE < i64::MAX
                && (r.top - r.bottom + 1) * grid_size * HALF_CELL_SCALE < i64::MAX
                && 0 <= (r.right - r.left + 1) * grid_size * HALF_CELL_SCALE
                && 0 <= (r.left + r.right + 1) * grid_size * HALF_CELL_SCALE
                && 0 <= (r.bottom + r.top + 1) * grid_size * HALF_CELL_SCALE
                && 0 <= (r.top - r.bottom + 1) * grid_size * HALF_CELL_SCALE)
                by (nonlinear_arith)
                requires
                    0 <= r.left <= r.right < MAX_GRID_DIM,
                    0 <= r.bottom <= r.top < MAX_GRID_DIM,
                    1 <= grid_size <= MAX_GRID_SIZE,
            ;
        }
        let gs: i64 = grid_size as i64;
        let c = WallCollider {
            center_x: ((r.left as i64) + (r.right as i64) + 1) * gs * HALF_CELL_SCALE,
            center_y: ((r.bottom as i64) + (r.top as i64) + 1) * gs * HALF_CELL_SCALE,
            half_width: ((r.right as i64) - (r.left as i64) + 1) * gs * HALF_CELL_SCALE,
            half_height: ((r.top as i64) - (r.bottom as i64) + 1) * gs * HALF_CELL_SCALE,
        };
        cs.push(c);
        i += 1;
    }
    cs
}

/// Builds a level's collision mesh and registers it: the wall colliders
/// of `spec_mesh`, one per rectangle, in emission order.
pub fn spawn_wall_collision(grid: &SolidGrid, grid_size: u32) -> (cs: Vec<WallCollider>)
    requires
        grid.wf(),
        grid.width <= MAX_GRID_DIM,
        grid.height <= MAX_GRID_DIM,
        1 <= grid_size <= MAX_GRID_SIZE,
    ensures
        cs@.len() == spec_mesh(grid@).len(),
        forall|i: int|
            0 <= i < cs@.len() ==> #[trigger] cs@[i] == spec_wall_collider(
                spec_mesh(grid@)[i],
                grid_size as int,
            ),
{
    let rects = build_mesh(grid);
    proof {
        grid.lemma_wf_model();
        lemma_mesh_rect_bounds(grid@);
        assert forall|i: int|
            0 <= i < rects@.len() implies (#[trigger] rects@[i]).left <= rects@[i].right
            < MAX_GRID_DIM && rects@[i].bottom <= rects@[i].top < MAX_GRID_DIM by {
            assert(rects@[i]@ == rect_views(rects@)[i]);
            let r = spec_mesh(grid@)[i];
            assert(0 <= r.left <= r.right < grid@.width && 0 <= r.bottom <= r.top < grid@.height);
        }
        assert(forall|i: int|
            0 <= i < rects@.len() ==> #[trigger] rects@[i]@ == rect_views(rects@)[i]);
    }
    wall_colliders(&rects, grid_size)
}

/// One loaded level region: its identifier and its world-space bounds in
/// micro-units.
#[derive(Clone, Copy, PartialEq, Eq, Structural, Debug)]
pub struct LevelBounds {
    pub iid: u64,
    pub min_x: i64,
    pub min_y: i64,
    pub max_x: i64,
    pub max_y: i64,
}

impl LevelBounds {
    /// Half-open containment: strictly inside on both axes.
    pub open spec fn spec_contains(self, x: int, y: int) -> bool {
        self.min_x < x < self.max_x && self.min_y < y < self.max_y
    }

    /// Does this region contain the position?
    pub fn contains(&self, x: i64, y: i64) -> (r: bool)
        ensures
            r == self.spec_contains(x as int, y as int),
    {
        self.min_x < x && x < self.max_x && self.min_y < y && y < self.max_y
    }
}

/// The selection after polling the loaded regions in order: a region that
/// contains the actor and is not already selected becomes the selection.
pub open spec fn spec_select(levels: Seq<LevelBounds>, x: int, y: int, current: u64) -> u64
    decreases levels.len(),
{
    if levels.len() == 0 {
        current
    } else {
        let next = if levels[0].spec_contains(x, y) && levels[0].iid != current {
            levels[0].iid
        } else {
            current
        };
        spec_select(levels.drop_first(), x, y, next)
    }
}

/// No region containing the actor leaves the selection unchanged.
proof fn lemma_select_outside(levels: Seq<LevelBounds>, x: int, y: int, current: u64)
    requires
        forall|i: int| 0 <= i < levels.len() ==> !(#[trigger] levels[i]).spec_contains(x, y),
    ensures
        spec_select(levels, x, y, current) == current,
    decreases levels.len(),
{
    if levels.len() > 0 {
        lemma_select_outside(levels.drop_first(), x, y, current);
    }
}

/// Determines which loaded level region contains the actor's position and
/// makes it the active selection if it differs from the current one; with
/// the actor inside no region, the selection stays as it was.
#[verifier::loop_isolation(false)]
pub fn update_level_selection(
    levels: &Vec<LevelBounds>,
    pos_x: i64,
    pos_y: i64,
    current: u64,
) -> (sel: u64)
    ensures
        sel == spec_select(levels@, pos_x as int, pos_y as int, current),
        (forall|i: int|
            0 <= i < levels@.len() ==> !(#[trigger] levels@[i]).spec_contains(
                pos_x as int,
                pos_y as int,
            )) ==> sel == current,
{
    let ghost lv = levels@;
    proof {
        assert(lv.skip(0) =~= lv);
    }
    let mut sel: u64 = current;
    let mut i: usize = 0;
    while i < levels.len()
        invariant
            0 <= i <= levels.len(),
            spec_select(lv, pos_x as int, pos_y as int, current) == spec_select(
                lv.skip(i as int),
                pos_x as int,
                pos_y as int,
                sel,
            ),
        decreases levels.len() - i,
    {
        proof {
            assert(lv.skip(i as int)[0] == lv[i as int]);
            assert(lv.skip(i as int).drop_first() =~= lv.skip(i as int + 1));
        }
        let l = levels[i];
        if l.contains(pos_x, pos_y) && l.iid != sel {
            sel = l.iid;
        }
        i += 1;
    }
    proof {
        assert(lv.skip(lv.len() as int) =~= Seq::<LevelBounds>::empty());
        if forall|i: int|
            0 <= i < lv.len() ==> !(#[trigger] lv[i]).spec_contains(pos_x as int, pos_y as int) {
            lemma_select_outside(lv, pos_x as int, pos_y as int, current);
        }
    }
    sel
}

/// The reset decision: a reset intent marks every loaded level region for
/// a full reload (destroy and rebuild, its mesh included); without it no
/// region is touched.
pub fn restart_level(ev: &PlayerInputEvent) -> (restart: bool)
    ensures
        restart == ev.reset_level,
{
    ev.reset_level
}

/// The collider half extents an entity instance gets: the player's fixed
/// box, and no collider for anything else.
pub fn collider_bundle_for(is_player: bool) -> (c: (i64, i64))
    ensures
        is_player ==> c == (PLAYER_HALF_WIDTH, PLAYER_HALF_HEIGHT),
        !is_player ==> c == (0i64, 0i64),
{
    if is_player {
        (PLAYER_HALF_WIDTH, PLAYER_HALF_HEIGHT)
    } else {
        (0, 0)
    }
}

} // verus!
