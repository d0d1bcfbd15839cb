use fight_game::grid::SolidGrid;
use fight_game::mesh::Rect;
use fight_game::movement::PlayerInputEvent;
use fight_game::world::collider_bundle_for;
use fight_game::world::restart_level;
use fight_game::world::spawn_wall_collision;
use fight_game::world::update_level_selection;
use fight_game::world::wall_colliders;
use fight_game::world::LevelBounds;
use fight_game::world::PLAYER_HALF_HEIGHT;
use fight_game::world::PLAYER_HALF_WIDTH;

fn level(iid: u64, min_x: i64, min_y: i64, max_x: i64, max_y: i64) -> LevelBounds {
    LevelBounds { iid, min_x, min_y, max_x, max_y }
}

#[test]
fn wall_collider_conversion_exact() {
    let rects = vec![Rect { left: 0, right: 2, bottom: 0, top: 0 }];
    let cs = wall_colliders(&rects, 16);
    assert_eq!(cs.len(), 1);
    assert_eq!(cs[0].center_x, 24_000_000);
    assert_eq!(cs[0].center_y, 8_000_000);
    assert_eq!(cs[0].half_width, 24_000_000);
    assert_eq!(cs[0].half_height, 8_000_000);
}

#[test]
fn wall_collider_tall_rect() {
    let rects = vec![Rect { left: 1, right: 1, bottom: 0, top: 3 }];
    let cs = wall_colliders(&rects, 16);
    assert_eq!(cs[0].center_x, 24_000_000);
    assert_eq!(cs[0].center_y, 32_000_000);
    assert_eq!(cs[0].half_width, 8_000_000);
    assert_eq!(cs[0].half_height, 32_000_000);
}

#[test]
fn spawn_wall_collision_from_grid() {
    let g = SolidGrid::new(3, 1, vec![true, true, true]);
    let cs = spawn_wall_collision(&g, 16);
    assert_eq!(cs.len(), 1);
    assert_eq!(cs[0].center_x, 24_000_000);
    assert_eq!(cs[0].half_width, 24_000_000);
}

#[test]
fn selection_picks_containing_region() {
    let levels = vec![level(1, 0, 0, 100, 100), level(2, 100, 0, 200, 100)];
    let sel = update_level_selection(&levels, 150, 50, 1);
    assert_eq!(sel, 2);
}

#[test]
fn selection_containment_is_strict() {
    let levels = vec![level(2, 100, 0, 200, 100)];
    // On the region's edge: not contained, selection unchanged.
    assert_eq!(update_level_selection(&levels, 100, 50, 1), 1);
    assert_eq!(update_level_selection(&levels, 200, 50, 1), 1);
    assert_eq!(update_level_selection(&levels, 150, 0, 1), 1);
    assert_eq!(update_level_selection(&levels, 150, 100, 1), 1);
    assert_eq!(update_level_selection(&levels, 101, 1, 1), 2);
}

#[test]
fn selection_outside_every_region_keeps_current() {
    let levels = vec![level(1, 0, 0, 100, 100), level(2, 100, 0, 200, 100)];
    let sel = update_level_selection(&levels, 500, 500, 1);
    assert_eq!(sel, 1);
}

#[test]
fn selection_already_active_region_stays() {
    let levels = vec![level(7, 0, 0, 100, 100)];
    let sel = update_level_selection(&levels, 50, 50, 7);
    assert_eq!(sel, 7);
}

#[test]
fn restart_only_on_reset_intent() {
    let reset = PlayerInputEvent {
        left: false,
        right: false,
        up: false,
        down: false,
        attack: false,
        reset_level: true,
    };
    let idle = PlayerInputEvent { reset_level: false, ..reset };
    assert!(restart_level(&reset));
    assert!(!restart_level(&idle));
}

#[test]
fn player_gets_the_player_collider() {
    assert_eq!(collider_bundle_for(true), (PLAYER_HALF_WIDTH, PLAYER_HALF_HEIGHT));
    assert_eq!(collider_bundle_for(false), (0, 0));
}
