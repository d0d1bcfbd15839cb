//! The motion integrator: per-tick horizontal response to intents, stance
//! update, jumping and gravity, and contact-normal resolution, in that
//! fixed order, followed by the tick's displacement output.

use vstd::prelude::*;

use crate::movement::PlayerInputEvent;
use crate::movement::Velocity;
use crate::movement::ACCEL_STEP;
use crate::movement::DEFAULT_MAX_SPEED;
use crate::movement::MAX_SPEED_LIMIT;
use crate::timer::TickTimer;

verus! {

/// Vertical speed a jump sets, in micro-units per millisecond.
pub const JUMP_SPEED: i64 = 200_000;

/// Downward acceleration while airborne, in micro-units per millisecond of
/// speed gained per millisecond.
pub const GRAVITY: i64 = 400;

/// A contact normal component beyond this magnitude counts as facing that
/// axis; normals are unit vectors scaled to thousandths.
pub const NORMAL_THRESHOLD: i32 = 500;

/// Longest tick delta the integrator accepts, in milliseconds: a machine
/// bound that keeps every product inside `i64`.
pub const MAX_TICK_MS: u64 = 1_000_000;

/// Largest vertical speed magnitude the integrator accepts on entry, in
/// micro-units per millisecond: a machine bound against overflow.
pub const VY_LIMIT: i64 = 1_000_000_000_000;

/// Duration of the attack cooldown gate, in milliseconds.
pub const ATTACK_COOLDOWN_MS: u64 = 500;

/// Which way the actor faces; attacks spawn on this side.
#[derive(Clone, Copy, PartialEq, Eq, Structural, Debug)]
pub enum Direction {
    Left,
    Right,
}

/// The actor's attack stance, recomputed from intents every tick.
#[derive(Clone, Copy, PartialEq, Eq, Structural, Debug)]
pub enum AttackHeight {
    Low,
    Normal,
}

/// The per-actor attack cooldown timer.
#[derive(Clone, Copy, PartialEq, Eq, Structural, Debug)]
pub struct AttackCooldown(pub TickTimer);

/// A contact normal the physics system reported for the tick: a unit
/// vector scaled to thousandths, pointing away from the touched surface.
#[derive(Clone, Copy, PartialEq, Eq, Structural, Debug)]
pub struct ContactNormal {
    pub nx: i32,
    pub ny: i32,
}

impl View for ContactNormal {
    type V = (int, int);

    open spec fn view(&self) -> (int, int) {
        (self.nx as int, self.ny as int)
    }
}

/// The models of a sequence of contact normals.
pub open spec fn contact_views(s: Seq<ContactNormal>) -> Seq<(int, int)> {
    s.map_values(|c: ContactNormal| c@)
}

/// The tick's horizontal velocity response: a movement intent accelerates
/// toward the matching side, clamped at the configured maximum; without
/// one, speed decays toward zero by the same step, never overshooting.
pub open spec fn spec_h_step(vx: int, max: int, left: bool, right: bool) -> int {
    if left {
        if vx - ACCEL_STEP <= -max {
            -max
        } else {
            vx - ACCEL_STEP
        }
    } else if right {
        if vx + ACCEL_STEP >= max {
            max
        } else {
            vx + ACCEL_STEP
        }
    } else if vx > 0 {
        if vx - ACCEL_STEP <= 0 {
            0
        } else {
            vx - ACCEL_STEP
        }
    } else if vx < 0 {
        if vx + ACCEL_STEP >= 0 {
            0
        } else {
            vx + ACCEL_STEP
        }
    } else {
        vx
    }
}

/// The facing after the tick: a movement intent turns the actor, the left
/// one winning when both are present; otherwise facing is kept.
pub open spec fn spec_facing(facing: Direction, left: bool, right: bool) -> Direction {
    if left {
        Direction::Left
    } else if right {
        Direction::Right
    } else {
        facing
    }
}

/// The stance after the tick, recomputed from this tick's intents alone.
pub open spec fn spec_stance(down: bool) -> AttackHeight {
    if down {
        AttackHeight::Low
    } else {
        AttackHeight::Normal
    }
}

/// One contact normal's correction: a surface below zeroes downward
/// vertical speed (landing), a surface above zeroes upward vertical speed
/// (head bump), and a strongly horizontal normal zeroes horizontal speed
/// (wall contact).
pub open spec fn resolve_one(vx: int, vy: int, nx: int, ny: int) -> (int, int) {
    let vy1 = if ny > NORMAL_THRESHOLD && vy < 0 {
        0int
    } else {
        vy
    };
    let vy2 = if ny < -NORMAL_THRESHOLD && vy1 > 0 {
        0int
    } else {
        vy1
    };
    let vx1 = if nx > NORMAL_THRESHOLD || nx < -NORMAL_THRESHOLD {
        0int
    } else {
        vx
    };
    (vx1, vy2)
}

/// All the tick's contact corrections, applied in report order, later
/// contacts seeing the earlier corrections.
pub open spec fn resolve_all(vx: int, vy: int, ns: Seq<(int, int)>) -> (int, int)
    decreases ns.len(),
{
    if ns.len() == 0 {
        (vx, vy)
    } else {
        let h = resolve_one(vx, vy, ns[0].0, ns[0].1);
        resolve_all(h.0, h.1, ns.drop_first())
    }
}

/// Did the tick's contact report include a surface below the actor?
pub open spec fn spec_grounded(ns: Seq<(int, int)>) -> bool {
    exists|i: int| 0 <= i < ns.len() && (#[trigger] ns[i]).1 > NORMAL_THRESHOLD
}

/// Horizontal response and stance update from the tick's intents.
pub fn input_player(
    v: &mut Velocity,
    facing: &mut Direction,
    stance: &mut AttackHeight,
    ev: &PlayerInputEvent,
)
    requires
        old(v).wf(),
    ensures
        final(v).vx == spec_h_step(old(v).vx as int, old(v).max_speed as int, ev.left, ev.right),
        final(v).vy == old(v).vy,
        final(v).max_speed == old(v).max_speed,
        final(v).wf(),
        *final(facing) == spec_facing(*old(facing), ev.left, ev.right),
        *final(stance) == spec_stance(ev.down),
{
    if ev.left {
        let target = -v.max_speed;
        if v.vx - ACCEL_STEP <= target {
            v.vx = target;
        } else {
            v.vx = v.vx - ACCEL_STEP;
        }
        *facing = Direction::Left;
    } else if ev.right {
        if v.vx + ACCEL_STEP >= v.max_speed {
            v.vx = v.max_speed;
        } else {
            v.vx = v.vx + ACCEL_STEP;
        }
        *facing = Direction::Right;
    } else if v.vx > 0 {
        if v.vx - ACCEL_STEP <= 0 {
            v.vx = 0;
        } else {
            v.vx = v.vx - ACCEL_STEP;
        }
    } else if v.vx < 0 {
        if v.vx + ACCEL_STEP >= 0 {
            v.vx = 0;
        } else {
            v.vx = v.vx + ACCEL_STEP;
        }
    }
    if ev.down {
        *stance = AttackHeight::Low;
    } else {
        *stance = AttackHeight::Normal;
    }
}

/// A grounded actor jumps on an upward intent: vertical speed is set to
/// the fixed jump speed; otherwise nothing changes.
pub fn player_jump(v: &mut Velocity, grounded: bool, ev: &PlayerInputEvent)
    ensures
        final(v).vy == (if ev.up && grounded {
            JUMP_SPEED as int
        } else {
            old(v).vy as int
        }),
        final(v).vx == old(v).vx,
        final(v).max_speed == old(v).max_speed,
{
    if ev.up && grounded {
        v.vy = JUMP_SPEED;
    }
}

/// An airborne actor accumulates downward speed: gravity scaled by the
/// tick's elapsed time; a grounded actor is left alone.
pub fn gravity(v: &mut Velocity, grounded: bool, dt_ms: u64)
    requires
        dt_ms <= MAX_TICK_MS,
        old(v).vy - GRAVITY * dt_ms >= i64::MIN,
    ensures
        final(v).vy == (if !grounded {
            old(v).vy - GRAVITY * dt_ms
        } else {
            old(v).vy as int
        }),
        final(v).vx == old(v).vx,
        final(v).max_speed == old(v).max_speed,
{
    if !grounded {
        let delta = GRAVITY * (dt_ms as i64);
        v.vy = v.vy - delta;
    }
}

/// Applies every reported contact normal's correction, in order.
#[verifier::loop_isolation(false)]
pub fn collision_vel_reset(v: &mut Velocity, contacts: &Vec<ContactNormal>)
    requires
        old(v).wf(),
    ensures
        (final(v).vx as int, final(v).vy as int) == resolve_all(
            old(v).vx as int,
            old(v).vy as int,
            contact_views(contacts@),
        ),
        final(v).max_speed == old(v).max_speed,
        final(v).wf(),
{
    let ghost ns = contact_views(contacts@);
    let ghost vx0 = v.vx as int;
    let ghost vy0 = v.vy as int;
    proof {
        assert(ns.skip(0) =~= ns);
    }
    let mut i: usize = 0;
    while i < contacts.len()
        invariant
            0 <= i <= contacts.len(),
            resolve_all(vx0, vy0, ns) == resolve_all(v.vx as int, v.vy as int, ns.skip(i as int)),
            v.vx == vx0 || v.vx == 0,
            v.max_speed == old(v).max_speed,
            v.wf(),
        decreases contacts.len() - i,
    {
        let c = contacts[i];
        proof {
            assert(ns.skip(i as int)[0] == c@);
            assert(ns.skip(i as int).drop_first() =~= ns.skip(i as int + 1));
        }
        if c.ny > NORMAL_THRESHOLD && v.vy < 0 {
            v.vy = 0;
        }
        if c.ny < -NORMAL_THRESHOLD && v.vy > 0 {
            v.vy = 0;
        }
        if c.nx > NORMAL_THRESHOLD || c.nx < -NORMAL_THRESHOLD {
            v.vx = 0;
        }
        i += 1;
    }
    proof {
        assert(ns.skip(contacts@.len() as int) =~= Seq::<(int, int)>::empty());
    }
}

/// Does the tick's contact report ground the actor?
#[verifier::loop_isolation(false)]
pub fn grounded_from_contacts(contacts: &Vec<ContactNormal>) -> (r: bool)
    ensures
        r == spec_grounded(contact_views(contacts@)),
{
    let ghost ns = contact_views(contacts@);
    let mut i: usize = 0;
    while i < contacts.len()
        invariant
            0 <= i <= contacts.len(),
            forall|k: int| 0 <= k < i ==> (#[trigger] ns[k]).1 <= NORMAL_THRESHOLD,
        decreases contacts.len() - i,
    {
        if contacts[i].ny > NORMAL_THRESHOLD {
            assert(ns[i as int].1 > NORMAL_THRESHOLD);
            return true;
        }
        i += 1;
    }
    false
}

/// The tick's displacement request: velocity times elapsed time, handed to
/// the external kinematic mover; in micro-units.
pub fn apply_velocity(v: &Velocity, dt_ms: u64) -> (d: (i64, i64))
    requires
        v.wf(),
        dt_ms <= MAX_TICK_MS,
        v.vy * dt_ms <= i64::MAX,
        v.vy * dt_ms >= i64::MIN,
    ensures
        d.0 == v.vx * dt_ms,
        d.1 == v.vy * dt_ms,
{
    proof {
        assert(v.vx * dt_ms <= MAX_SPEED_LIMIT * MAX_TICK_MS && v.vx * dt_ms >= -MAX_SPEED_LIMIT
            * MAX_TICK_MS) by (nonlinear_arith)
            requires
                -MAX_SPEED_LIMIT <= v.vx <= MAX_SPEED_LIMIT,
                0 <= dt_ms <= MAX_TICK_MS,
        ;
    }
    let dx = v.vx * (dt_ms as i64);
    let dy = v.vy * (dt_ms as i64);
    (dx, dy)
}

/// The velocities' components after a full resolve pass are either the
/// incoming components or zero: contact correction only ever zeroes.
proof fn lemma_resolve_components(vx: int, vy: int, ns: Seq<(int, int)>)
    ensures
        resolve_all(vx, vy, ns).0 == vx || resolve_all(vx, vy, ns).0 == 0,
        resolve_all(vx, vy, ns).1 == vy || resolve_all(vx, vy, ns).1 == 0,
    decreases ns.len(),
{
    if ns.len() > 0 {
        let h = resolve_one(vx, vy, ns[0].0, ns[0].1);
        lemma_resolve_components(h.0, h.1, ns.drop_first());
    }
}

/// A zero vertical speed stays zero through any resolve pass.
proof fn lemma_resolve_keeps_zero_vy(vx: int, ns: Seq<(int, int)>)
    ensures
        resolve_all(vx, 0, ns).1 == 0,
    decreases ns.len(),
{
    if ns.len() > 0 {
        let h = resolve_one(vx, 0, ns[0].0, ns[0].1);
        lemma_resolve_keeps_zero_vy(h.0, ns.drop_first());
    }
}

/// Landing reset law: a downward-moving actor whose tick reports a contact
/// normal with a strongly upward component ends the tick with vertical
/// speed exactly zero.
pub proof fn lemma_landing_reset(vx: int, vy: int, ns: Seq<(int, int)>)
    requires
        vy < 0,
        spec_grounded(ns),
    ensures
        resolve_all(vx, vy, ns).1 == 0,
    decreases ns.len(),
{
    let i = choose|i: int| 0 <= i < ns.len() && (#[trigger] ns[i]).1 > NORMAL_THRESHOLD;
    let h = resolve_one(vx, vy, ns[0].0, ns[0].1);
    if ns[0].1 > NORMAL_THRESHOLD {
        assert(h.1 == 0);
        lemma_resolve_keeps_zero_vy(h.0, ns.drop_first());
    } else {
        assert(h.1 == vy);
        assert(i != 0);
        assert(ns.drop_first()[i - 1] == ns[i]);
        assert(spec_grounded(ns.drop_first()));
        lemma_landing_reset(h.0, vy, ns.drop_first());
    }
}

/// Horizontal speed after a whole sequence of tick intent sets.
pub open spec fn h_fold(vx: int, max: int, evs: Seq<PlayerInputEvent>) -> int
    decreases evs.len(),
{
    if evs.len() == 0 {
        vx
    } else {
        h_fold(spec_h_step(vx, max, evs[0].left, evs[0].right), max, evs.drop_first())
    }
}

/// Speed clamp law: through every sequence of tick intent sets, horizontal
/// speed magnitude never exceeds the configured maximum.
pub proof fn lemma_speed_clamp(vx: int, max: int, evs: Seq<PlayerInputEvent>)
    requires
        0 <= max,
        -max <= vx <= max,
    ensures
        -max <= h_fold(vx, max, evs) <= max,
    decreases evs.len(),
{
    if evs.len() > 0 {
        lemma_speed_clamp(spec_h_step(vx, max, evs[0].left, evs[0].right), max, evs.drop_first());
    }
}

/// The velocity a full integration tick computes, before displacement:
/// horizontal intent response, then jump or gravity from the grounded
/// flag the previous tick's contacts set, then this tick's contact
/// corrections.
pub open spec fn spec_tick_vel(
    vx: int,
    vy: int,
    max: int,
    ev: PlayerInputEvent,
    grounded: bool,
    ns: Seq<(int, int)>,
    dt: int,
) -> (int, int) {
    let vx1 = spec_h_step(vx, max, ev.left, ev.right);
    let vy1 = if ev.up && grounded {
        JUMP_SPEED as int
    } else {
        vy
    };
    let vy2 = if !grounded {
        vy1 - GRAVITY * dt
    } else {
        vy1
    };
    resolve_all(vx1, vy2, ns)
}

/// The one authoritative per-actor state: pose, velocity, facing, stance,
/// grounded flag and attack cooldown. Positions are in micro-units; the
/// external mover owns applying displacements back into the pose.
#[derive(Clone, Copy, PartialEq, Eq, Structural, Debug)]
pub struct ActorState {
    pub pos_x: i64,
    pub pos_y: i64,
    pub velocity: Velocity,
    pub facing: Direction,
    pub stance: AttackHeight,
    pub grounded: bool,
    pub attack_cooldown: AttackCooldown,
}

impl ActorState {
    /// The velocity invariant and the cooldown invariant both hold.
    pub open spec fn wf(self) -> bool {
        &&& self.velocity.wf()
        &&& self.attack_cooldown.0.wf()
    }

    /// A freshly spawned actor at the given pose: at rest, facing left in
    /// normal stance, airborne, with a full cooldown still to elapse.
    pub fn new(pos_x: i64, pos_y: i64) -> (a: ActorState)
        ensures
            a.pos_x == pos_x,
            a.pos_y == pos_y,
            a.velocity == (Velocity { vx: 0, vy: 0, max_speed: DEFAULT_MAX_SPEED }),
            a.facing == Direction::Left,
            a.stance == AttackHeight::Normal,
            !a.grounded,
            a.attack_cooldown.0 == (TickTimer { elapsed_ms: 0, duration_ms: ATTACK_COOLDOWN_MS }),
            a.wf(),
    {
        ActorState {
            pos_x,
            pos_y,
            velocity: Velocity::default(),
            facing: Direction::Left,
            stance: AttackHeight::Normal,
            grounded: false,
            attack_cooldown: AttackCooldown(TickTimer::from_millis(ATTACK_COOLDOWN_MS)),
        }
    }

    /// One full integration tick, the four stages in their fixed order:
    /// horizontal response, stance update, jump or gravity, contact
    /// resolution; then the grounded flag is recomputed from this tick's
    /// contacts and the displacement request `velocity * dt` is returned
    /// for the external mover.
    pub fn integrate_tick(
        &mut self,
        ev: &PlayerInputEvent,
        contacts: &Vec<ContactNormal>,
        dt_ms: u64,
    ) -> (d: (i64, i64))
        requires
            old(self).wf(),
            dt_ms <= MAX_TICK_MS,
            -VY_LIMIT <= old(self).velocity.vy <= VY_LIMIT,
        ensures
            (final(self).velocity.vx as int, final(self).velocity.vy as int) == spec_tick_vel(
                old(self).velocity.vx as int,
                old(self).velocity.vy as int,
                old(self).velocity.max_speed as int,
                *ev,
                old(self).grounded,
                contact_views(contacts@),
                dt_ms as int,
            ),
            final(self).velocity.max_speed == old(self).velocity.max_speed,
            final(self).facing == spec_facing(old(self).facing, ev.left, ev.right),
            final(self).stance == spec_stance(ev.down),
            final(self).grounded == spec_grounded(contact_views(contacts@)),
            final(self).pos_x == old(self).pos_x,
            final(self).pos_y == old(self).pos_y,
            final(self).attack_cooldown == old(self).attack_cooldown,
            final(self).wf(),
            d.0 == final(self).velocity.vx * dt_ms,
            d.1 == final(self).velocity.vy * dt_ms,
    {
        let grounded0 = self.grounded;
        input_player(&mut self.velocity, &mut self.facing, &mut self.stance, ev);
        player_jump(&mut self.velocity, grounded0, ev);
        proof {
            assert(GRAVITY * dt_ms <= GRAVITY * MAX_TICK_MS) by (nonlinear_arith)
                requires
                    0 <= dt_ms <= MAX_TICK_MS,
            ;
        }
        gravity(&mut self.velocity, grounded0, dt_ms);
        let ghost vy2 = self.velocity.vy as int;
        collision_vel_reset(&mut self.velocity, contacts);
        proof {
            lemma_resolve_components(
                spec_h_step(
                    old(self).velocity.vx as int,
                    old(self).velocity.max_speed as int,
                    ev.left,
                    ev.right,
                ),
                vy2,
                contact_views(contacts@),
            );
            assert(self.velocity.vy * dt_ms <= i64::MAX && self.velocity.vy * dt_ms >= i64::MIN)
                by (nonlinear_arith)
                requires
                    -(VY_LIMIT + GRAVITY * MAX_TICK_MS) <= self.velocity.vy <= VY_LIMIT
                        + JUMP_SPEED,
                    0 <= dt_ms <= MAX_TICK_MS,
            ;
        }
        self.grounded = grounded_from_contacts(contacts);
        apply_velocity(&self.velocity, dt_ms)
    }
}

} // verus!
