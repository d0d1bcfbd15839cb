//! The attack system: a cooldown-gated spawner of short-lived hitboxes,
//! and the per-tick sweep that ages every hitbox and removes the expired.

use vstd::prelude::*;

use crate::player::AttackHeight;
use crate::player::Direction;
use crate::player::AttackCooldown;
use crate::timer::spec_timer_tick;
use crate::timer::timer_fold;
use crate::timer::total_time;
use crate::timer::lemma_timer_fold;
use crate::timer::lemma_total_time_nonneg;
use crate::timer::TickTimer;

verus! {

/// Horizontal distance of a hitbox's center from the actor, along the
/// facing direction, in micro-units.
pub const ATTACK_OFFSET_X: i64 = 20_000_000;

/// Vertical drop of a hitbox spawned in the low stance, in micro-units.
pub const ATTACK_OFFSET_Y_LOW: i64 = -10_000_000;

/// Half extents of a hitbox, in micro-units.
pub const HITBOX_HALF_WIDTH: i64 = 5_500_000;

/// Half extents of a hitbox, in micro-units.
pub const HITBOX_HALF_HEIGHT: i64 = 5_500_000;

/// How long a hitbox lives, in milliseconds of tick time.
pub const HITBOX_TTL_MS: u64 = 200;

/// Damage a hitbox deals.
pub const ATTACK_DAMAGE: i64 = 10;

/// Reach a hitbox is credited with, in micro-units.
pub const ATTACK_RANGE: i64 = 60_000_000;

/// Largest actor position magnitude the spawner accepts, in micro-units:
/// a machine bound that keeps offset positions inside `i64`.
pub const POS_LIMIT: i64 = 1_000_000_000_000_000;

/// What a hitbox deals and reaches.
#[derive(Clone, Copy, PartialEq, Eq, Structural, Debug)]
pub struct AttackProperties {
    pub damage: i64,
    pub range: i64,
}

/// The time-to-live countdown of one hitbox.
#[derive(Clone, Copy, PartialEq, Eq, Structural, Debug)]
pub struct AttackDespawnTimer {
    pub timer: TickTimer,
}

/// One transient attack hitbox: a fixed-size box placed relative to the
/// actor, destroyed when its time-to-live elapses.
#[derive(Clone, Copy, PartialEq, Eq, Structural, Debug)]
pub struct AttackHitbox {
    pub center_x: i64,
    pub center_y: i64,
    pub half_width: i64,
    pub half_height: i64,
    pub properties: AttackProperties,
    pub despawn: AttackDespawnTimer,
}

/// Where a hitbox's center lands horizontally relative to the actor.
pub open spec fn attack_offset_x(facing: Direction) -> int {
    match facing {
        Direction::Left => -ATTACK_OFFSET_X as int,
        Direction::Right => ATTACK_OFFSET_X as int,
    }
}

/// Where a hitbox's center lands vertically relative to the actor.
pub open spec fn attack_offset_y(stance: AttackHeight) -> int {
    match stance {
        AttackHeight::Low => ATTACK_OFFSET_Y_LOW as int,
        AttackHeight::Normal => 0,
    }
}

/// One tick of the spawner's gate: the cooldown advances (clamped at its
/// duration); an attack intent with the cooldown fully elapsed spawns and
/// resets the cooldown to zero, anything else spawns nothing.
pub open spec fn spec_gate(elapsed: int, duration: int, dt: int, attack: bool) -> (bool, int) {
    let e1 = spec_timer_tick(elapsed, duration, dt);
    if attack && e1 >= duration {
        (true, 0int)
    } else {
        (false, e1)
    }
}

/// The hitbox one spawn produces for a given actor pose and stance.
pub open spec fn spec_hitbox(
    pos_x: int,
    pos_y: int,
    facing: Direction,
    stance: AttackHeight,
) -> AttackHitbox {
    AttackHitbox {
        center_x: (pos_x + attack_offset_x(facing)) as i64,
        center_y: (pos_y + attack_offset_y(stance)) as i64,
        half_width: HITBOX_HALF_WIDTH,
        half_height: HITBOX_HALF_HEIGHT,
        properties: AttackProperties { damage: ATTACK_DAMAGE, range: ATTACK_RANGE },
        despawn: AttackDespawnTimer {
            timer: TickTimer { elapsed_ms: 0, duration_ms: HITBOX_TTL_MS },
        },
    }
}

/// One tick of the attack spawner for one actor. The cooldown always
/// advances by the tick's delta first; exactly when an attack intent is
/// present and the cooldown has fully elapsed, one hitbox is created at
/// the pose-and-stance offset and the cooldown starts over. Anything else
/// is a silent no-op.
pub fn spawn_attack(
    cooldown: &mut AttackCooldown,
    attack_intent: bool,
    facing: Direction,
    stance: AttackHeight,
    pos_x: i64,
    pos_y: i64,
    dt_ms: u64,
) -> (spawned: Option<AttackHitbox>)
    requires
        old(cooldown).0.wf(),
        -POS_LIMIT <= pos_x <= POS_LIMIT,
        -POS_LIMIT <= pos_y <= POS_LIMIT,
    ensures
        ({
            let g = spec_gate(
                old(cooldown).0.elapsed_ms as int,
                old(cooldown).0.duration_ms as int,
                dt_ms as int,
                attack_intent,
            );
            &&& final(cooldown).0.elapsed_ms == g.1
            &&& (spawned matches Some(h) <==> g.0)
            &&& (g.0 ==> spawned == Some(spec_hitbox(pos_x as int, pos_y as int, facing, stance)))
        }),
        final(cooldown).0.duration_ms == old(cooldown).0.duration_ms,
        final(cooldown).0.wf(),
{
    cooldown.0.tick(dt_ms);
    if attack_intent && cooldown.0.finished() {
        cooldown.0.reset();
        let offset_x: i64 = match facing {
            Direction::Left => -ATTACK_OFFSET_X,
            Direction::Right => ATTACK_OFFSET_X,
        };
        let offset_y: i64 = match stance {
            AttackHeight::Low => ATTACK_OFFSET_Y_LOW,
            AttackHeight::Normal => 0,
        };
        Some(
            AttackHitbox {
                center_x: pos_x + offset_x,
                center_y: pos_y + offset_y,
                half_width: HITBOX_HALF_WIDTH,
                half_height: HITBOX_HALF_HEIGHT,
                properties: AttackProperties { damage: ATTACK_DAMAGE, range: ATTACK_RANGE },
                despawn: AttackDespawnTimer { timer: TickTimer::from_millis(HITBOX_TTL_MS) },
            },
        )
    } else {
        None
    }
}

/// A hitbox after its time-to-live advanced by one tick's delta.
pub open spec fn hitbox_ticked(h: AttackHitbox, dt: int) -> AttackHitbox {
    AttackHitbox {
        despawn: AttackDespawnTimer {
            timer: TickTimer {
                elapsed_ms: spec_timer_tick(
                    h.despawn.timer.elapsed_ms as int,
                    h.despawn.timer.duration_ms as int,
                    dt,
                ) as u64,
                duration_ms: h.despawn.timer.duration_ms,
            },
        },
        ..h
    }
}

/// Has this hitbox's time-to-live fully elapsed?
pub open spec fn hitbox_expired(h: AttackHitbox) -> bool {
    h.despawn.timer.elapsed_ms >= h.despawn.timer.duration_ms
}

/// The hitboxes that survive a tick: each ages by the tick's delta, and
/// exactly the expired ones are removed, the order of the rest kept.
pub open spec fn spec_despawn(hs: Seq<AttackHitbox>, dt: int) -> Seq<AttackHitbox>
    decreases hs.len(),
{
    if hs.len() == 0 {
        Seq::empty()
    } else {
        let h0 = hitbox_ticked(hs[0], dt);
        let rest = spec_despawn(hs.drop_first(), dt);
        if hitbox_expired(h0) {
            rest
        } else {
            seq![h0] + rest
        }
    }
}

/// One tick of the despawn sweep: every extant hitbox's time-to-live
/// advances, and the hitboxes whose time-to-live has elapsed are removed.
#[verifier::loop_isolation(false)]
pub fn despawn_attack(hitboxes: &mut Vec<AttackHitbox>, dt_ms: u64)
    requires
        forall|i: int|
            0 <= i < old(hitboxes)@.len() ==> (#[trigger] old(hitboxes)@[i]).despawn.timer.wf(),
    ensures
        final(hitboxes)@ == spec_despawn(old(hitboxes)@, dt_ms as int),
{
    let ghost hs0 = hitboxes@;
    let mut out: Vec<AttackHitbox> = Vec::new();
    proof {
        assert(hs0.skip(0) =~= hs0);
    }
    let mut i: usize = 0;
    while i < hitboxes.len()
        invariant
            0 <= i <= hitboxes.len(),
            hitboxes@ == hs0,
            spec_despawn(hs0, dt_ms as int) == out@ + spec_despawn(hs0.skip(i as int), dt_ms as int),
        decreases hitboxes.len() - i,
    {
        let mut h = hitboxes[i];
        proof {
            assert(hs0.skip(i as int)[0] == hs0[i as int]);
            assert(hs0.skip(i as int).drop_first() =~= hs0.skip(i as int + 1));
        }
        h.despawn.timer.tick(dt_ms);
        proof {
            assert(h == hitbox_ticked(hs0[i as int], dt_ms as int));
        }
        if !(h.despawn.timer.elapsed_ms >= h.despawn.timer.duration_ms) {
            proof {
                assert(out@ + spec_despawn(hs0.skip(i as int), dt_ms as int) =~= out@.push(h)
                    + spec_despawn(hs0.skip(i as int + 1), dt_ms as int));
            }
            out.push(h);
        }
        i += 1;
    }
    proof {
        assert(hs0.skip(hs0.len() as int) =~= Seq::<AttackHitbox>::empty());
        assert(out@ =~= spec_despawn(hs0, dt_ms as int));
    }
    *hitboxes = out;
}

/// Cooldown gate law: once an attack has spawned (cooldown freshly reset),
/// an attack intent issued after further ticks opens its gate exactly when
/// the time since the spawn reaches the cooldown duration — sooner intents
/// spawn nothing, an intent at or past the duration spawns again.
pub proof fn lemma_cooldown_gate(duration: int, waits: Seq<int>, dt: int)
    requires
        0 <= duration,
        0 <= dt,
        forall|i: int| 0 <= i < waits.len() ==> waits[i] >= 0,
    ensures
        spec_gate(timer_fold(0, duration, waits), duration, dt, true).0 <==> total_time(waits) + dt
            >= duration,
{
    lemma_timer_fold(0, duration, waits);
    lemma_total_time_nonneg(waits);
}

/// Hitbox lifecycle law: a hitbox created with time-to-live `ttl` has
/// elapsed its life exactly when the accumulated tick time since its
/// creation first reaches or exceeds `ttl` — the despawn sweep keeps it
/// on every earlier tick and removes it on that one.
pub proof fn lemma_hitbox_lifecycle(ttl: int, dts: Seq<int>)
    requires
        0 <= ttl,
        forall|i: int| 0 <= i < dts.len() ==> dts[i] >= 0,
    ensures
        timer_fold(0, ttl, dts) >= ttl <==> total_time(dts) >= ttl,
        timer_fold(0, ttl, dts) == (if total_time(dts) >= ttl {
            ttl
        } else {
            total_time(dts)
        }),
{
    lemma_timer_fold(0, ttl, dts);
    lemma_total_time_nonneg(dts);
}

} // verus!
