use fight_game::attack::despawn_attack;
use fight_game::attack::spawn_attack;
use fight_game::attack::AttackDespawnTimer;
use fight_game::attack::AttackHitbox;
use fight_game::attack::AttackProperties;
use fight_game::attack::ATTACK_DAMAGE;
use fight_game::attack::ATTACK_RANGE;
use fight_game::attack::HITBOX_HALF_HEIGHT;
use fight_game::attack::HITBOX_HALF_WIDTH;
use fight_game::attack::HITBOX_TTL_MS;
use fight_game::player::AttackCooldown;
use fight_game::player::AttackHeight;
use fight_game::player::Direction;
use fight_game::timer::TickTimer;

fn ready_cooldown() -> AttackCooldown {
    AttackCooldown(TickTimer { elapsed_ms: 500, duration_ms: 500 })
}

fn hitbox(center_x: i64, center_y: i64, elapsed_ms: u64, duration_ms: u64) -> AttackHitbox {
    AttackHitbox {
        center_x,
        center_y,
        half_width: HITBOX_HALF_WIDTH,
        half_height: HITBOX_HALF_HEIGHT,
        properties: AttackProperties { damage: ATTACK_DAMAGE, range: ATTACK_RANGE },
        despawn: AttackDespawnTimer { timer: TickTimer { elapsed_ms, duration_ms } },
    }
}

#[test]
fn cooldown_gates_second_attack() {
    let mut cd = ready_cooldown();
    let first = spawn_attack(&mut cd, true, Direction::Right, AttackHeight::Normal, 0, 0, 0);
    assert!(first.is_some());
    assert_eq!(cd.0.elapsed_ms, 0);
    // A second attack intent 300 ms later: under the 500 ms duration.
    let second = spawn_attack(&mut cd, true, Direction::Right, AttackHeight::Normal, 0, 0, 300);
    assert!(second.is_none());
    assert_eq!(cd.0.elapsed_ms, 300);
    // Another 250 ms: 550 ms have elapsed since the spawn, so it spawns again.
    let third = spawn_attack(&mut cd, true, Direction::Right, AttackHeight::Normal, 0, 0, 250);
    assert!(third.is_some());
    assert_eq!(cd.0.elapsed_ms, 0);
}

#[test]
fn attack_without_intent_is_noop() {
    let mut cd = ready_cooldown();
    let spawned = spawn_attack(&mut cd, false, Direction::Left, AttackHeight::Normal, 0, 0, 100);
    assert!(spawned.is_none());
    assert_eq!(cd.0.elapsed_ms, 500);
}

#[test]
fn attack_before_first_cooldown_is_noop() {
    let mut cd = AttackCooldown(TickTimer { elapsed_ms: 0, duration_ms: 500 });
    let spawned = spawn_attack(&mut cd, true, Direction::Left, AttackHeight::Normal, 0, 0, 100);
    assert!(spawned.is_none());
    assert_eq!(cd.0.elapsed_ms, 100);
}

#[test]
fn hitbox_placement_left_low() {
    let mut cd = ready_cooldown();
    let spawned =
        spawn_attack(&mut cd, true, Direction::Left, AttackHeight::Low, 1_000_000, 2_000_000, 0);
    let h = spawned.unwrap();
    assert_eq!(h.center_x, -19_000_000);
    assert_eq!(h.center_y, -8_000_000);
    assert_eq!(h.half_width, HITBOX_HALF_WIDTH);
    assert_eq!(h.half_height, HITBOX_HALF_HEIGHT);
    assert_eq!(h.properties.damage, ATTACK_DAMAGE);
    assert_eq!(h.properties.range, ATTACK_RANGE);
    assert_eq!(h.despawn.timer.elapsed_ms, 0);
    assert_eq!(h.despawn.timer.duration_ms, HITBOX_TTL_MS);
}

#[test]
fn hitbox_placement_right_normal() {
    let mut cd = ready_cooldown();
    let spawned =
        spawn_attack(&mut cd, true, Direction::Right, AttackHeight::Normal, 5_000_000, 7_000_000, 0);
    let h = spawned.unwrap();
    assert_eq!(h.center_x, 25_000_000);
    assert_eq!(h.center_y, 7_000_000);
}

#[test]
fn hitbox_lives_exactly_its_time_to_live() {
    let mut boxes = vec![hitbox(0, 0, 0, HITBOX_TTL_MS)];
    // 100 ms then 99 ms: 199 ms accumulated, still under the 200 ms life.
    despawn_attack(&mut boxes, 100);
    assert_eq!(boxes.len(), 1);
    assert_eq!(boxes[0].despawn.timer.elapsed_ms, 100);
    despawn_attack(&mut boxes, 99);
    assert_eq!(boxes.len(), 1);
    assert_eq!(boxes[0].despawn.timer.elapsed_ms, 199);
    // The tick on which accumulated time reaches 200 ms removes it.
    despawn_attack(&mut boxes, 1);
    assert_eq!(boxes.len(), 0);
}

#[test]
fn despawn_overshoot_also_removes() {
    let mut boxes = vec![hitbox(0, 0, 0, HITBOX_TTL_MS)];
    despawn_attack(&mut boxes, 10_000);
    assert_eq!(boxes.len(), 0);
}

#[test]
fn despawn_keeps_survivors_in_order() {
    let mut boxes = vec![hitbox(1, 0, 190, 200), hitbox(2, 0, 0, 200), hitbox(3, 0, 50, 200)];
    despawn_attack(&mut boxes, 20);
    assert_eq!(boxes.len(), 2);
    assert_eq!(boxes[0].center_x, 2);
    assert_eq!(boxes[1].center_x, 3);
    assert_eq!(boxes[0].despawn.timer.elapsed_ms, 20);
    assert_eq!(boxes[1].despawn.timer.elapsed_ms, 70);
}

#[test]
fn timer_clamps_at_duration_and_resets() {
    let mut t = TickTimer::from_millis(500);
    t.tick(10_000);
    assert_eq!(t.elapsed_ms, 500);
    assert!(t.finished());
    t.reset();
    assert_eq!(t.elapsed_ms, 0);
    assert!(!t.finished());
    t.tick(200);
    assert_eq!(t.elapsed_ms, 200);
    assert!(!t.finished());
}
