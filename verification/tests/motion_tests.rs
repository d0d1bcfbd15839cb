use fight_game::movement::handle_keyboard_input;
use fight_game::movement::PlayerInput;
use fight_game::movement::PlayerInputEvent;
use fight_game::movement::Velocity;
use fight_game::movement::DEFAULT_MAX_SPEED;
use fight_game::player::apply_velocity;
use fight_game::player::collision_vel_reset;
use fight_game::player::gravity;
use fight_game::player::grounded_from_contacts;
use fight_game::player::input_player;
use fight_game::player::player_jump;
use fight_game::player::ActorState;
use fight_game::player::AttackHeight;
use fight_game::player::ContactNormal;
use fight_game::player::Direction;
use fight_game::player::ATTACK_COOLDOWN_MS;
use fight_game::player::JUMP_SPEED;

fn ev(left: bool, right: bool, up: bool, down: bool) -> PlayerInputEvent {
    PlayerInputEvent { left, right, up, down, attack: false, reset_level: false }
}

#[test]
fn empty_intent_set_contains_nothing() {
    let e = PlayerInputEvent::none();
    assert!(!e.contains(PlayerInput::Left));
    assert!(!e.contains(PlayerInput::Right));
    assert!(!e.contains(PlayerInput::Up));
    assert!(!e.contains(PlayerInput::Down));
    assert!(!e.contains(PlayerInput::Attack));
    assert!(!e.contains(PlayerInput::ResetLevel));
}

#[test]
fn keyboard_mapping_one_to_one() {
    let e = handle_keyboard_input(true, false, true, false, true, false);
    assert!(e.contains(PlayerInput::Left));
    assert!(!e.contains(PlayerInput::Right));
    assert!(e.contains(PlayerInput::Up));
    assert!(!e.contains(PlayerInput::Down));
    assert!(e.contains(PlayerInput::Attack));
    assert!(!e.contains(PlayerInput::ResetLevel));
}

#[test]
fn accelerate_right_exact_step() {
    let mut v = Velocity::default();
    let mut facing = Direction::Left;
    let mut stance = AttackHeight::Normal;
    input_player(&mut v, &mut facing, &mut stance, &ev(false, true, false, false));
    assert_eq!(v.vx, 10_000);
    assert_eq!(v.vy, 0);
    assert!(matches!(facing, Direction::Right));
}

#[test]
fn accelerate_left_sets_facing() {
    let mut v = Velocity::default();
    let mut facing = Direction::Right;
    let mut stance = AttackHeight::Normal;
    input_player(&mut v, &mut facing, &mut stance, &ev(true, false, false, false));
    assert_eq!(v.vx, -10_000);
    assert!(matches!(facing, Direction::Left));
}

#[test]
fn speed_clamped_at_max_over_many_ticks() {
    let mut v = Velocity::default();
    let mut facing = Direction::Left;
    let mut stance = AttackHeight::Normal;
    for _ in 0..25 {
        input_player(&mut v, &mut facing, &mut stance, &ev(false, true, false, false));
        assert!(v.vx.abs() <= v.max_speed);
    }
    assert_eq!(v.vx, DEFAULT_MAX_SPEED);
    for _ in 0..50 {
        input_player(&mut v, &mut facing, &mut stance, &ev(true, false, false, false));
        assert!(v.vx.abs() <= v.max_speed);
    }
    assert_eq!(v.vx, -DEFAULT_MAX_SPEED);
}

#[test]
fn decay_never_overshoots_zero() {
    let mut v = Velocity { vx: 15_000, vy: 0, max_speed: DEFAULT_MAX_SPEED };
    let mut facing = Direction::Left;
    let mut stance = AttackHeight::Normal;
    let idle = ev(false, false, false, false);
    input_player(&mut v, &mut facing, &mut stance, &idle);
    assert_eq!(v.vx, 5_000);
    input_player(&mut v, &mut facing, &mut stance, &idle);
    assert_eq!(v.vx, 0);
    input_player(&mut v, &mut facing, &mut stance, &idle);
    assert_eq!(v.vx, 0);
    v.vx = -5_000;
    input_player(&mut v, &mut facing, &mut stance, &idle);
    assert_eq!(v.vx, 0);
}

#[test]
fn stance_recomputed_every_tick() {
    let mut v = Velocity::default();
    let mut facing = Direction::Left;
    let mut stance = AttackHeight::Normal;
    input_player(&mut v, &mut facing, &mut stance, &ev(false, false, false, true));
    assert!(matches!(stance, AttackHeight::Low));
    input_player(&mut v, &mut facing, &mut stance, &ev(false, false, false, false));
    assert!(matches!(stance, AttackHeight::Normal));
}

#[test]
fn jump_only_when_grounded() {
    let mut v = Velocity::default();
    player_jump(&mut v, false, &ev(false, false, true, false));
    assert_eq!(v.vy, 0);
    player_jump(&mut v, true, &ev(false, false, true, false));
    assert_eq!(v.vy, JUMP_SPEED);
}

#[test]
fn gravity_exact_accumulation() {
    let mut v = Velocity::default();
    gravity(&mut v, false, 16);
    assert_eq!(v.vy, -6_400);
    gravity(&mut v, false, 16);
    assert_eq!(v.vy, -12_800);
    gravity(&mut v, true, 16);
    assert_eq!(v.vy, -12_800);
}

#[test]
fn landing_resets_vertical_velocity() {
    let mut v = Velocity { vx: 20_000, vy: -50_000, max_speed: DEFAULT_MAX_SPEED };
    let contacts = vec![ContactNormal { nx: 0, ny: 1000 }];
    collision_vel_reset(&mut v, &contacts);
    assert_eq!(v.vy, 0);
    assert_eq!(v.vx, 20_000);
}

#[test]
fn head_bump_resets_only_upward_motion() {
    let mut v = Velocity { vx: 0, vy: 50_000, max_speed: DEFAULT_MAX_SPEED };
    let ceiling = vec![ContactNormal { nx: 0, ny: -1000 }];
    collision_vel_reset(&mut v, &ceiling);
    assert_eq!(v.vy, 0);
    let mut falling = Velocity { vx: 0, vy: -50_000, max_speed: DEFAULT_MAX_SPEED };
    collision_vel_reset(&mut falling, &ceiling);
    assert_eq!(falling.vy, -50_000);
}

#[test]
fn wall_contact_zeroes_horizontal_velocity() {
    let mut v = Velocity { vx: 80_000, vy: -10_000, max_speed: DEFAULT_MAX_SPEED };
    let contacts = vec![ContactNormal { nx: -1000, ny: 0 }];
    collision_vel_reset(&mut v, &contacts);
    assert_eq!(v.vx, 0);
    assert_eq!(v.vy, -10_000);
}

#[test]
fn multiple_contacts_each_apply() {
    let mut v = Velocity { vx: 80_000, vy: -10_000, max_speed: DEFAULT_MAX_SPEED };
    let contacts = vec![ContactNormal { nx: 0, ny: 1000 }, ContactNormal { nx: 900, ny: 0 }];
    collision_vel_reset(&mut v, &contacts);
    assert_eq!(v.vx, 0);
    assert_eq!(v.vy, 0);
}

#[test]
fn weak_normal_below_threshold_ignored() {
    let mut v = Velocity { vx: 80_000, vy: -10_000, max_speed: DEFAULT_MAX_SPEED };
    let contacts = vec![ContactNormal { nx: 400, ny: 500 }];
    collision_vel_reset(&mut v, &contacts);
    assert_eq!(v.vx, 80_000);
    assert_eq!(v.vy, -10_000);
}

#[test]
fn grounded_detection_from_contacts() {
    let floor = vec![ContactNormal { nx: 0, ny: 800 }];
    assert!(grounded_from_contacts(&floor));
    let wall = vec![ContactNormal { nx: 1000, ny: 0 }];
    assert!(!grounded_from_contacts(&wall));
    let none: Vec<ContactNormal> = vec![];
    assert!(!grounded_from_contacts(&none));
}

#[test]
fn displacement_is_velocity_times_time() {
    let v = Velocity { vx: 100_000, vy: -6_400, max_speed: DEFAULT_MAX_SPEED };
    let d = apply_velocity(&v, 16);
    assert_eq!(d.0, 1_600_000);
    assert_eq!(d.1, -102_400);
}

#[test]
fn actor_spawn_defaults() {
    let a = ActorState::new(704_000_000, 530_000_000);
    assert_eq!(a.pos_x, 704_000_000);
    assert_eq!(a.pos_y, 530_000_000);
    assert_eq!(a.velocity, Velocity { vx: 0, vy: 0, max_speed: DEFAULT_MAX_SPEED });
    assert!(matches!(a.facing, Direction::Left));
    assert!(matches!(a.stance, AttackHeight::Normal));
    assert!(!a.grounded);
    assert_eq!(a.attack_cooldown.0.elapsed_ms, 0);
    assert_eq!(a.attack_cooldown.0.duration_ms, ATTACK_COOLDOWN_MS);
}

#[test]
fn integrate_tick_grounded_jump() {
    let mut a = ActorState::new(0, 0);
    a.grounded = true;
    let jump = ev(false, false, true, false);
    let no_contacts: Vec<ContactNormal> = vec![];
    let d = a.integrate_tick(&jump, &no_contacts, 16);
    assert_eq!(a.velocity.vy, JUMP_SPEED);
    assert!(!a.grounded);
    assert_eq!(d.1, JUMP_SPEED * 16);
}

#[test]
fn integrate_tick_airborne_falls_and_lands() {
    let mut a = ActorState::new(0, 0);
    let idle = ev(false, false, false, false);
    let no_contacts: Vec<ContactNormal> = vec![];
    a.integrate_tick(&idle, &no_contacts, 100);
    assert_eq!(a.velocity.vy, -40_000);
    let floor = vec![ContactNormal { nx: 0, ny: 1000 }];
    a.integrate_tick(&idle, &floor, 100);
    assert_eq!(a.velocity.vy, 0);
    assert!(a.grounded);
}
