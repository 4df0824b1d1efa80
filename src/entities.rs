//! The bodies of the simulation and what happens when two of them meet.
//!
//! Positions and sizes are in world units of a thousandth of a pixel,
//! velocities in world units per second, time in milliseconds.
use vstd::prelude::*;
use crate::events::Event;
use crate::geometry::{intersects, shapes_intersect, CollisionType, Point, Rect};
use crate::geometry::clamp_int;
use crate::response::{div_toward_zero, elastic_collision_1d, elastic_result};

verus! {

pub type EntityId = u64;

/// Largest magnitude of a body's position on either axis.
pub const POS_LIMIT: i64 = 134_217_728;

/// Largest width or height of a body.
pub const SIZE_LIMIT: i64 = 67_108_864;

/// Largest speed of a body along either axis.
pub const SPEED_CAP: i64 = 4_294_967_296;

#[derive(Clone, Copy, Debug, PartialEq, Eq, Structural)]
pub struct Color {
    pub r: u8,
    pub g: u8,
    pub b: u8,
    pub a: u8,
}

pub open spec fn pos_ok(v: int) -> bool {
    -POS_LIMIT <= v <= POS_LIMIT
}

pub open spec fn speed_ok(v: int) -> bool {
    -SPEED_CAP <= v <= SPEED_CAP
}

/// A bounding box that a body may have: a bounded position and size.
pub open spec fn body_ok(r: Rect) -> bool {
    &&& pos_ok(r.x as int)
    &&& pos_ok(r.y as int)
    &&& 0 < r.width <= SIZE_LIMIT
    &&& 0 < r.height <= SIZE_LIMIT
}

pub open spec fn velocity_ok(v: Point) -> bool {
    speed_ok(v.x as int) && speed_ok(v.y as int)
}

#[derive(Clone, Copy, Debug, PartialEq, Eq, Structural)]
pub struct Player {
    pub rect: Rect,
    pub acceleration: i64,
    pub friction: i64,
    pub max_velocity: i64,
    pub velocity: Point,
}

#[derive(Clone, Copy, Debug, PartialEq, Eq, Structural)]
pub struct Lazer {
    pub id: EntityId,
    pub rect: Rect,
    pub color: Color,
    pub speed: i64,
}

#[derive(Clone, Copy, Debug, PartialEq, Eq, Structural)]
pub struct Star {
    pub pos: Point,
    pub velocity: i64,
    pub color: Color,
}

#[derive(Clone, Copy, Debug, PartialEq, Eq, Structural)]
pub struct Asteroid {
    pub id: EntityId,
    pub rect: Rect,
    pub velocity: Point,
    pub mass: i64,
    /// Degrees, in `0..360`.
    pub rotation: i64,
    /// Degrees added to the rotation each tick.
    pub rotation_velocity: i64,
    pub color: Color,
}

/// A body that stops projectiles and is never destroyed.
#[derive(Clone, Copy, Debug, PartialEq, Eq, Structural)]
pub struct Barrier {
    pub rect: Rect,
}

/// Every body of the simulation, one variant per role.
#[derive(Clone, Copy, Debug, PartialEq, Eq, Structural)]
pub enum Entity {
    Player(Player),
    Enemy(Asteroid),
    Projectile(Lazer),
    Star(Star),
    Indestructible(Barrier),
}

/// Largest acceleration of the player, in world units per second squared.
pub const ACCELERATION_LIMIT: i64 = 4_294_967_296;

/// Largest friction rate of the player, in thousandths per millisecond.
pub const FRICTION_LIMIT: i64 = 1000;

impl Player {
    pub open spec fn wf(self) -> bool {
        &&& body_ok(self.rect)
        &&& 0 <= self.acceleration <= ACCELERATION_LIMIT
        &&& 0 <= self.friction <= FRICTION_LIMIT
        &&& 0 <= self.max_velocity <= SPEED_CAP
        &&& velocity_ok(self.velocity)
    }
}

impl Lazer {
    pub open spec fn wf(self) -> bool {
        body_ok(self.rect) && 0 <= self.speed <= SPEED_CAP
    }
}

impl Star {
    pub open spec fn wf(self) -> bool {
        pos_ok(self.pos.x as int) && pos_ok(self.pos.y as int) && speed_ok(self.velocity as int)
    }
}

impl Asteroid {
    pub open spec fn wf(self) -> bool {
        &&& body_ok(self.rect)
        &&& velocity_ok(self.velocity)
        &&& 0 < self.mass <= SPEED_CAP
        &&& 0 <= self.rotation < 360
        &&& -360 <= self.rotation_velocity <= 360
    }
}

impl Entity {
    pub open spec fn wf(self) -> bool {
        match self {
            Entity::Player(p) => p.wf(),
            Entity::Enemy(a) => a.wf(),
            Entity::Projectile(l) => l.wf(),
            Entity::Star(s) => s.wf(),
            Entity::Indestructible(b) => body_ok(b.rect),
        }
    }

    /// Whether the body takes part in collisions (stars do not).
    pub open spec fn is_collidable(self) -> bool {
        !(self is Star)
    }

    /// The identifier a body carries itself, if it carries one.
    pub open spec fn own_id(self) -> Option<EntityId> {
        match self {
            Entity::Enemy(a) => Some(a.id),
            Entity::Projectile(l) => Some(l.id),
            _ => None,
        }
    }

    /// The bounding box of a collidable body.
    pub open spec fn bounds(self) -> Rect {
        match self {
            Entity::Player(p) => p.rect,
            Entity::Enemy(a) => a.rect,
            Entity::Projectile(l) => l.rect,
            Entity::Star(s) => Rect { x: s.pos.x, y: s.pos.y, width: 1, height: 1 },
            Entity::Indestructible(b) => b.rect,
        }
    }

    /// The shape kind of a body: the player is a triangle, asteroids are
    /// circles, projectiles and barriers are boxes.
    pub open spec fn kind(self) -> CollisionType {
        match self {
            Entity::Player(_) => CollisionType::Triangle,
            Entity::Enemy(_) => CollisionType::Circle,
            _ => CollisionType::Rectangle,
        }
    }

    pub fn rect(&self) -> (r: Rect)
        ensures
            r == self.bounds(),
    {
        match self {
            Entity::Player(p) => p.rect,
            Entity::Enemy(a) => a.rect,
            Entity::Projectile(l) => l.rect,
            Entity::Star(s) => Rect { x: s.pos.x, y: s.pos.y, width: 1, height: 1 },
            Entity::Indestructible(b) => b.rect,
        }
    }

    pub fn collision_type(&self) -> (r: CollisionType)
        ensures
            r == self.kind(),
    {
        match self {
            Entity::Player(_) => CollisionType::Triangle,
            Entity::Enemy(_) => CollisionType::Circle,
            _ => CollisionType::Rectangle,
        }
    }
}

/// The pair of roles has an outcome in the collision table.
pub open spec fn has_outcome(e1: Entity, e2: Entity) -> bool {
    match (e1, e2) {
        (Entity::Player(_), Entity::Enemy(_)) | (Entity::Enemy(_), Entity::Player(_)) => true,
        (Entity::Projectile(_), Entity::Enemy(_)) | (Entity::Enemy(_), Entity::Projectile(_)) => true,
        (Entity::Enemy(_), Entity::Enemy(_)) => true,
        (Entity::Projectile(_), Entity::Projectile(_)) => true,
        (Entity::Indestructible(_), Entity::Projectile(_))
        | (Entity::Projectile(_), Entity::Indestructible(_)) => true,
        _ => false,
    }
}

/// Two bodies meet: their roles have an outcome and their shapes overlap.
pub open spec fn entities_collide(e1: Entity, e2: Entity) -> bool {
    has_outcome(e1, e2) && shapes_intersect(e1.bounds(), e1.kind(), e2.bounds(), e2.kind())
}

/// What a meeting of the two bodies announces, in order.
pub open spec fn collision_events(e1: Entity, e2: Entity) -> Seq<Event> {
    match (e1, e2) {
        (Entity::Player(_), Entity::Enemy(_)) | (Entity::Enemy(_), Entity::Player(_)) => seq![
            Event::GameOver,
        ],
        (Entity::Projectile(l), Entity::Enemy(a)) | (Entity::Enemy(a), Entity::Projectile(l)) => seq![
            Event::ScoreIncreased,
            Event::ResetAsteroid(a.id),
            Event::EntityDestroyed(l.id),
        ],
        (Entity::Projectile(l1), Entity::Projectile(l2)) => seq![
            Event::EntityDestroyed(l1.id),
            Event::EntityDestroyed(l2.id),
        ],
        (Entity::Indestructible(_), Entity::Projectile(l))
        | (Entity::Projectile(l), Entity::Indestructible(_)) => seq![Event::EntityDestroyed(l.id)],
        _ => seq![],
    }
}

pub open spec fn clamp_speed(v: int) -> int {
    if v < -SPEED_CAP {
        -SPEED_CAP as int
    } else if v > SPEED_CAP {
        SPEED_CAP as int
    } else {
        v
    }
}

/// The two bodies after they met. Two asteroids exchange vertical
/// momentum elastically (speeds capped at [`SPEED_CAP`]) and lose any
/// horizontal motion; any other pair is left as it was.
pub open spec fn after_collision(e1: Entity, e2: Entity) -> (Entity, Entity) {
    match (e1, e2) {
        (Entity::Enemy(a1), Entity::Enemy(a2)) => {
            let (v1, v2) = elastic_result(
                a1.mass as int,
                a1.velocity.y as int,
                a2.mass as int,
                a2.velocity.y as int,
            );
            (
                Entity::Enemy(Asteroid { velocity: Point { x: 0, y: clamp_speed(v1) as i64 }, ..a1 }),
                Entity::Enemy(Asteroid { velocity: Point { x: 0, y: clamp_speed(v2) as i64 }, ..a2 }),
            )
        },
        _ => (e1, e2),
    }
}

fn cap_speed(v: i64) -> (r: i64)
    ensures
        r == clamp_speed(v as int),
{
    if v < -SPEED_CAP {
        -SPEED_CAP
    } else if v > SPEED_CAP {
        SPEED_CAP
    } else {
        v
    }
}

impl Entity {
    /// Whether the two bodies meet: only pairs whose roles have an outcome
    /// are tested, each with the test its shape kinds call for.
    pub fn check_collision(&self, other: &Entity) -> (r: bool)
        requires
            self.wf(),
            other.wf(),
        ensures
            r == entities_collide(*self, *other),
    {
        let relevant = match (self, other) {
            (Entity::Player(_), Entity::Enemy(_)) | (Entity::Enemy(_), Entity::Player(_)) => true,
            (Entity::Projectile(_), Entity::Enemy(_))
            | (Entity::Enemy(_), Entity::Projectile(_)) => true,
            (Entity::Enemy(_), Entity::Enemy(_)) => true,
            (Entity::Projectile(_), Entity::Projectile(_)) => true,
            (Entity::Indestructible(_), Entity::Projectile(_))
            | (Entity::Projectile(_), Entity::Indestructible(_)) => true,
            _ => false,
        };
        if !relevant {
            return false;
        }
        let r1 = self.rect();
        let r2 = other.rect();
        intersects(&r1, self.collision_type(), &r2, other.collision_type())
    }

    /// Applies the outcome of a meeting of the two bodies to them, and
    /// returns the events it announces.
    pub fn on_collision(&mut self, other: &mut Entity) -> (events: Vec<Event>)
        requires
            old(self).wf(),
            old(other).wf(),
        ensures
            events@ == collision_events(*old(self), *old(other)),
            (*final(self), *final(other)) == after_collision(*old(self), *old(other)),
            final(self).wf(),
            final(other).wf(),
    {
        let mut events: Vec<Event> = Vec::new();
        match (&*self, &*other) {
            (Entity::Player(_), Entity::Enemy(_)) | (Entity::Enemy(_), Entity::Player(_)) => {
                events.push(Event::GameOver);
            },
            (Entity::Projectile(l), Entity::Enemy(a)) | (Entity::Enemy(a), Entity::Projectile(l)) => {
                events.push(Event::ScoreIncreased);
                events.push(Event::ResetAsteroid(a.id));
                events.push(Event::EntityDestroyed(l.id));
            },
            (Entity::Projectile(l1), Entity::Projectile(l2)) => {
                events.push(Event::EntityDestroyed(l1.id));
                events.push(Event::EntityDestroyed(l2.id));
            },
            (Entity::Indestructible(_), Entity::Projectile(l))
            | (Entity::Projectile(l), Entity::Indestructible(_)) => {
                events.push(Event::EntityDestroyed(l.id));
            },
            _ => {},
        }
        match (self, other) {
            (Entity::Enemy(a1), Entity::Enemy(a2)) => {
                let (v1, v2) = elastic_collision_1d(a1.mass, a1.velocity.y, a2.mass, a2.velocity.y);
                a1.velocity = Point { x: 0, y: cap_speed(v1) };
                a2.velocity = Point { x: 0, y: cap_speed(v2) };
            },
            _ => {},
        }
        proof {
            assert(events@ =~= collision_events(*old(self), *old(other)));
        }
        events
    }
}


/// Smallest width or height of the field.
pub const FIELD_MIN: i64 = 200_000;

/// Largest width or height of the field.
pub const FIELD_LIMIT: i64 = 67_108_864;

/// The visible field: x in `0..width`, y in `0..height`, y growing downward.
#[derive(Clone, Copy, Debug, PartialEq, Eq, Structural)]
pub struct Bounds {
    pub width: i64,
    pub height: i64,
}

impl Bounds {
    pub open spec fn wf(self) -> bool {
        FIELD_MIN <= self.width <= FIELD_LIMIT && FIELD_MIN <= self.height <= FIELD_LIMIT
    }
}

pub const PLAYER_SIZE: i64 = 60_000;
pub const PLAYER_MARGIN: i64 = 50_000;
pub const PLAYER_ACCELERATION: i64 = 1_000_000;
pub const PLAYER_FRICTION: i64 = 10;
pub const PLAYER_MAX_VELOCITY: i64 = 500_000;

pub const LAZER_WIDTH: i64 = 2_000;
pub const LAZER_HEIGHT: i64 = 45_000;
pub const LAZER_SPEED: i64 = 1_100_000;

pub const ASTEROID_MIN_SIZE: i64 = 10_000;
pub const ASTEROID_MAX_SIZE: i64 = 40_000;
pub const ASTEROID_MIN_SPEED: i64 = 200_000;
pub const ASTEROID_MAX_SPEED: i64 = 300_000;
pub const ASTEROID_MAX_SPIN: i64 = 50;


/// Relies on rand's `Rng::random_range` on the thread-local generator: for a
/// non-empty range `lo..hi` it returns a value in that range (it panics only
/// on an empty range).
#[verifier::external_body]
fn random_between(lo: i64, hi: i64) -> (r: i64)
    requires
        lo < hi,
    ensures
        lo <= r < hi,
{
    rand::Rng::random_range(&mut rand::rng(), lo..hi)
}

/// A random byte in `lo..hi`.
fn random_byte(lo: u8, hi: u8) -> (r: u8)
    requires
        lo < hi,
    ensures
        lo <= r < hi,
{
    random_between(lo as i64, hi as i64) as u8
}

/// The mass of an asteroid of the given size.
pub open spec fn asteroid_mass(size: int) -> int {
    size / 4
}

/// `a` is a freshly placed asteroid with identifier `id`: a square of a
/// size in the spawn range somewhere above the field, falling straight
/// down at a speed in the spawn range, with the mass of its size, no
/// rotation yet, a spin in the spawn range and a pale color.
pub open spec fn asteroid_spawned(a: Asteroid, id: EntityId, bounds: Bounds) -> bool {
    &&& a.id == id
    &&& 0 <= a.rect.x < bounds.width
    &&& -bounds.height <= a.rect.y < 0
    &&& ASTEROID_MIN_SIZE <= a.rect.width < ASTEROID_MAX_SIZE
    &&& a.rect.height == a.rect.width
    &&& a.velocity.x == 0
    &&& ASTEROID_MIN_SPEED <= a.velocity.y < ASTEROID_MAX_SPEED
    &&& a.mass == asteroid_mass(a.rect.width as int)
    &&& a.rotation == 0
    &&& -ASTEROID_MAX_SPIN <= a.rotation_velocity < ASTEROID_MAX_SPIN
    &&& 200 <= a.color.r < 255
    &&& 235 <= a.color.g < 255
    &&& 245 <= a.color.b < 255
    &&& a.color.a == 255
}

pub proof fn lemma_spawned_asteroid_wf(a: Asteroid, id: EntityId, bounds: Bounds)
    requires
        bounds.wf(),
        asteroid_spawned(a, id, bounds),
    ensures
        a.wf(),
{
}

impl Player {
    /// The player's ship, centered near the bottom of the field, at rest.
    pub fn new(bounds: &Bounds) -> (p: Player)
        requires
            bounds.wf(),
        ensures
            p.rect == (Rect {
                x: (bounds.width / 2 - PLAYER_SIZE / 2) as i64,
                y: (bounds.height - PLAYER_SIZE - PLAYER_MARGIN) as i64,
                width: PLAYER_SIZE,
                height: PLAYER_SIZE,
            }),
            p.acceleration == PLAYER_ACCELERATION,
            p.friction == PLAYER_FRICTION,
            p.max_velocity == PLAYER_MAX_VELOCITY,
            p.velocity == (Point { x: 0, y: 0 }),
            p.wf(),
    {
        Player {
            rect: Rect {
                x: bounds.width / 2 - PLAYER_SIZE / 2,
                y: bounds.height - PLAYER_SIZE - PLAYER_MARGIN,
                width: PLAYER_SIZE,
                height: PLAYER_SIZE,
            },
            acceleration: PLAYER_ACCELERATION,
            friction: PLAYER_FRICTION,
            max_velocity: PLAYER_MAX_VELOCITY,
            velocity: Point { x: 0, y: 0 },
        }
    }
}

impl Lazer {
    /// A red projectile whose bottom-left corner is at (`x`, `y`).
    pub fn new(id: EntityId, x: i64, y: i64) -> (l: Lazer)
        requires
            pos_ok(x as int),
            pos_ok(y as int),
            pos_ok(y - LAZER_HEIGHT),
        ensures
            l == (Lazer {
                id,
                rect: Rect { x, y: (y - LAZER_HEIGHT) as i64, width: LAZER_WIDTH, height: LAZER_HEIGHT },
                color: Color { r: 230, g: 41, b: 55, a: 255 },
                speed: LAZER_SPEED,
            }),
            l.wf(),
    {
        Lazer {
            id,
            rect: Rect { x, y: y - LAZER_HEIGHT, width: LAZER_WIDTH, height: LAZER_HEIGHT },
            color: Color { r: 230, g: 41, b: 55, a: 255 },
            speed: LAZER_SPEED,
        }
    }
}

impl Star {
    /// A background star at a random place of the field with a random
    /// opacity, drifting down at `velocity`.
    pub fn new(velocity: i64, bounds: &Bounds) -> (s: Star)
        requires
            bounds.wf(),
            speed_ok(velocity as int),
        ensures
            s.velocity == velocity,
            0 <= s.pos.x < bounds.width,
            0 <= s.pos.y < bounds.height,
            s.color.r == 245 && s.color.g == 245 && s.color.b == 245,
            100 <= s.color.a < 255,
            s.wf(),
    {
        let alpha = random_byte(100, 255);
        let x = random_between(0, bounds.width);
        let y = random_between(0, bounds.height);
        Star { pos: Point { x, y }, velocity, color: Color { r: 245, g: 245, b: 245, a: alpha } }
    }
}

impl Asteroid {
    /// The asteroid with identifier `id` that the given draws describe: a
    /// square of side `size` at (`x`, `y`) falling at `speed`, with the mass
    /// of its size, no rotation yet, spinning by `spin` each tick.
    pub fn from_draws(id: EntityId, x: i64, y: i64, size: i64, speed: i64, spin: i64, color: Color) -> (a: Asteroid)
        requires
            size > 0,
        ensures
            a == (Asteroid {
                id,
                rect: Rect { x, y, width: size, height: size },
                velocity: Point { x: 0, y: speed },
                mass: asteroid_mass(size as int) as i64,
                rotation: 0,
                rotation_velocity: spin,
                color,
            }),
    {
        Asteroid {
            id,
            rect: Rect { x, y, width: size, height: size },
            velocity: Point { x: 0, y: speed },
            mass: size / 4,
            rotation: 0,
            rotation_velocity: spin,
            color,
        }
    }

    /// A new asteroid with identifier `id`, placed at random above the field.
    pub fn new(id: EntityId, bounds: &Bounds) -> (a: Asteroid)
        requires
            bounds.wf(),
        ensures
            asteroid_spawned(a, id, *bounds),
            a.wf(),
    {
        let x = random_between(0, bounds.width);
        let y = random_between(-bounds.height, 0);
        let size = random_between(ASTEROID_MIN_SIZE, ASTEROID_MAX_SIZE);
        let speed = random_between(ASTEROID_MIN_SPEED, ASTEROID_MAX_SPEED);
        let spin = random_between(-ASTEROID_MAX_SPIN, ASTEROID_MAX_SPIN);
        let r = random_byte(200, 255);
        let g = random_byte(235, 255);
        let b = random_byte(245, 255);
        Asteroid::from_draws(id, x, y, size, speed, spin, Color { r, g, b, a: 255 })
    }

    /// Places the asteroid anew above the field, as [`Asteroid::new`] does,
    /// keeping its identifier.
    pub fn reset(&mut self, bounds: &Bounds)
        requires
            bounds.wf(),
        ensures
            asteroid_spawned(*final(self), old(self).id, *bounds),
            final(self).wf(),
    {
        *self = Asteroid::new(self.id, bounds);
    }
}


/// Largest frame time, in milliseconds, that one update accepts.
pub const MAX_FRAME_MS: i64 = 1000;

/// The player's directional intents for one tick.
#[derive(Clone, Copy, Debug, PartialEq, Eq, Structural)]
pub struct Input {
    pub left: bool,
    pub right: bool,
    pub up: bool,
    pub down: bool,
}

/// Distance covered at speed `v` in `dt` milliseconds, rounded toward zero.
pub open spec fn displacement(v: int, dt: int) -> int {
    div_toward_zero(v * dt, 1000)
}

/// A position after moving at `v` for `dt` milliseconds, kept within the
/// range bodies may occupy.
pub open spec fn advance(pos: int, v: int, dt: int) -> int {
    clamp_int(pos + displacement(v, dt), -POS_LIMIT as int, POS_LIMIT as int)
}

pub open spec fn is_floor_sqrt(n: int, r: int) -> bool {
    0 <= r && r * r <= n < (r + 1) * (r + 1)
}

/// The integer square root, rounded down.
pub open spec fn floor_sqrt(n: int) -> int {
    choose|r: int| is_floor_sqrt(n, r)
}

pub proof fn lemma_floor_sqrt_unique(n: int, r: int)
    requires
        is_floor_sqrt(n, r),
    ensures
        floor_sqrt(n) == r,
{
    assert(exists|q: int| is_floor_sqrt(n, q));
    let q = floor_sqrt(n);
    if q < r {
        assert((q + 1) * (q + 1) <= r * r) by (nonlinear_arith)
            requires
                0 <= q < r,
        ;
    } else if r < q {
        assert((r + 1) * (r + 1) <= q * q) by (nonlinear_arith)
            requires
                0 <= r < q,
        ;
    }
}

/// Integer square root by bisection.
fn isqrt(n: u128) -> (r: u128)
    requires
        n < 0x1_0000_0000_0000_0000_0000,
    ensures
        is_floor_sqrt(n as int, r as int),
        floor_sqrt(n as int) == r,
        r < 0x100_0000_0000,
{
    let mut lo: u128 = 0;
    let mut hi: u128 = 0x100_0000_0000;
    assert(hi * hi == 0x1_0000_0000_0000_0000_0000) by (nonlinear_arith)
        requires
            hi == 0x100_0000_0000,
    ;
    while hi - lo > 1
        invariant
            lo < hi <= 0x100_0000_0000,
            lo * lo <= n,
            n < hi * hi,
        decreases hi - lo,
    {
        let mid = lo + (hi - lo) / 2;
        assert(mid * mid <= 0x1_0000_0000_0000_0000_0000) by (nonlinear_arith)
            requires
                mid <= 0x100_0000_0000,
        ;
        if mid * mid <= n {
            lo = mid;
        } else {
            hi = mid;
        }
    }
    assert(hi == lo + 1);
    proof {
        lemma_floor_sqrt_unique(n as int, lo as int);
    }
    lo
}

/// The player's velocity component after the acceleration of this tick.
pub open spec fn accelerated(v: int, plus: bool, minus: bool, dv: int) -> int {
    if plus {
        v + dv
    } else if minus {
        v - dv
    } else {
        v
    }
}

/// The share of a velocity that friction keeps over `dt`, in thousandths.
pub open spec fn friction_keep(friction: int, dt: int) -> int {
    if 1000 - friction * dt < 0 {
        0
    } else {
        1000 - friction * dt
    }
}

/// The player after one tick: accelerate along each pressed direction
/// (right over left, up over down), scale the velocity back to the top
/// speed where it exceeds it, let friction slow each axis without input,
/// then move and keep the ship inside the field.
#[verifier::opaque]
pub open spec fn player_step(p: Player, input: Input, dt: int, bounds: Bounds) -> Player {
    let dv = p.acceleration * dt / 1000;
    let vx1 = accelerated(p.velocity.x as int, input.right, input.left, dv);
    let vy1 = accelerated(p.velocity.y as int, input.down && !input.up, input.up, dv);
    let mag = floor_sqrt(vx1 * vx1 + vy1 * vy1);
    let vx2 = if mag > p.max_velocity {
        div_toward_zero(vx1 * p.max_velocity, mag)
    } else {
        vx1
    };
    let vy2 = if mag > p.max_velocity {
        div_toward_zero(vy1 * p.max_velocity, mag)
    } else {
        vy1
    };
    let keep = friction_keep(p.friction as int, dt);
    let vx3 = if !(input.left || input.right) {
        div_toward_zero(vx2 * keep, 1000)
    } else {
        vx2
    };
    let vy3 = if !(input.up || input.down) {
        div_toward_zero(vy2 * keep, 1000)
    } else {
        vy2
    };
    Player {
        rect: Rect {
            x: clamp_int(p.rect.x + displacement(vx3, dt), 0, bounds.width - p.rect.width) as i64,
            y: clamp_int(p.rect.y + displacement(vy3, dt), 0, bounds.height - p.rect.height) as i64,
            ..p.rect
        },
        velocity: Point { x: vx3 as i64, y: vy3 as i64 },
        ..p
    }
}

/// Where an asteroid's motion alone takes it in one tick.
pub open spec fn asteroid_moved(a: Asteroid, dt: int) -> Asteroid {
    Asteroid {
        rect: Rect {
            x: advance(a.rect.x as int, a.velocity.x as int, dt) as i64,
            y: advance(a.rect.y as int, a.velocity.y as int, dt) as i64,
            ..a.rect
        },
        rotation: ((a.rotation + a.rotation_velocity) % 360) as i64,
        ..a
    }
}

pub open spec fn lazer_moved(l: Lazer, dt: int) -> Lazer {
    Lazer {
        rect: Rect { y: advance(l.rect.y as int, -l.speed, dt) as i64, ..l.rect },
        ..l
    }
}

/// The result of one tick's update of `e`. Asteroids that have left the
/// field at the bottom are placed anew and stars that have are given a new
/// random column at the top; for those this states what holds of every draw.
pub open spec fn updated(e: Entity, next: Entity, input: Input, dt: int, bounds: Bounds) -> bool {
    match e {
        Entity::Player(p) => next == Entity::Player(player_step(p, input, dt, bounds)),
        Entity::Enemy(a) => {
            let moved = asteroid_moved(a, dt);
            if moved.rect.y > bounds.height {
                next is Enemy && asteroid_spawned(next->Enemy_0, a.id, bounds)
            } else {
                next == Entity::Enemy(moved)
            }
        },
        Entity::Projectile(l) => next == Entity::Projectile(lazer_moved(l, dt)),
        Entity::Star(st) => {
            let y = advance(st.pos.y as int, st.velocity as int, dt);
            if y > bounds.height {
                &&& next is Star
                &&& next->Star_0.pos.y == -1000
                &&& 0 <= next->Star_0.pos.x < bounds.width
                &&& next->Star_0.velocity == st.velocity
                &&& next->Star_0.color == st.color
            } else {
                next == Entity::Star(Star { pos: Point { x: st.pos.x, y: y as i64 }, ..st })
            }
        },
        Entity::Indestructible(_) => next == e,
    }
}

/// The body fits the field (the player's ship is kept inside it).
pub open spec fn fits(e: Entity, bounds: Bounds) -> bool {
    match e {
        Entity::Player(p) => {
            &&& 0 <= p.rect.x <= bounds.width - p.rect.width
            &&& 0 <= p.rect.y <= bounds.height - p.rect.height
        },
        _ => true,
    }
}

fn advance_exec(pos: i64, v: i64, dt: i64) -> (r: i64)
    requires
        pos_ok(pos as int),
        speed_ok(v as int),
        0 <= dt <= MAX_FRAME_MS,
    ensures
        r == advance(pos as int, v as int, dt as int),
        pos_ok(r as int),
{
    proof {
        crate::geometry::lemma_mul_abs_bound(v as int, dt as int, SPEED_CAP as int, 1000);
    }
    let d = quotient_toward_zero_i64(v * dt, 1000);
    let p = pos + d;
    if p < -POS_LIMIT {
        -POS_LIMIT
    } else if p > POS_LIMIT {
        POS_LIMIT
    } else {
        p
    }
}

fn quotient_toward_zero_i64(n: i64, d: i64) -> (q: i64)
    requires
        d > 0,
        n > i64::MIN,
    ensures
        q == div_toward_zero(n as int, d as int),
{
    if n >= 0 {
        n / d
    } else {
        let m = -n;
        -(m / d)
    }
}

proof fn lemma_scaled_bound(v: int, num: int, den: int)
    requires
        0 < den,
        0 <= num <= den,
    ensures
        -(if v < 0 { -v } else { v }) <= div_toward_zero(v * num, den) <= (if v < 0 { -v } else { v }),
{
    if v >= 0 {
        assert(0 <= v * num <= v * den) by (nonlinear_arith)
            requires
                0 <= v,
                0 <= num <= den,
        ;
        assert((v * num) / den <= v) by (nonlinear_arith)
            requires
                0 < den,
                0 <= v * num <= v * den,
        ;
        assert(0 <= (v * num) / den) by (nonlinear_arith)
            requires
                0 < den,
                0 <= v * num,
        ;
    } else {
        assert(v * num <= 0) by (nonlinear_arith)
            requires
                v < 0,
                0 <= num,
        ;
        if v * num < 0 {
            assert(-(v * num) <= (-v) * den) by (nonlinear_arith)
                requires
                    v < 0,
                    0 <= num <= den,
            ;
            assert((-(v * num)) / den <= -v) by (nonlinear_arith)
                requires
                    0 < den,
                    0 <= -(v * num) <= (-v) * den,
            ;
            assert(0 <= (-(v * num)) / den) by (nonlinear_arith)
                requires
                    0 < den,
                    0 <= -(v * num),
            ;
        }
    }
}

impl Player {
    fn step(&mut self, input: Input, dt: i64, bounds: &Bounds)
        requires
            old(self).wf(),
            bounds.wf(),
            0 <= dt <= MAX_FRAME_MS,
            fits(Entity::Player(*old(self)), *bounds),
        ensures
            *final(self) == player_step(*old(self), input, dt as int, *bounds),
            final(self).wf(),
            fits(Entity::Player(*final(self)), *bounds),
    {
        proof {
            reveal(player_step);
            assert(self.acceleration * dt <= ACCELERATION_LIMIT * MAX_FRAME_MS) by (nonlinear_arith)
                requires
                    0 <= self.acceleration <= ACCELERATION_LIMIT,
                    0 <= dt <= MAX_FRAME_MS,
            ;
            assert(0 <= self.acceleration * dt) by (nonlinear_arith)
                requires
                    0 <= self.acceleration,
                    0 <= dt,
            ;
            assert((self.acceleration * dt) / 1000 <= ACCELERATION_LIMIT) by (nonlinear_arith)
                requires
                    0 <= self.acceleration * dt <= ACCELERATION_LIMIT * 1000,
            ;
        }
        let dv = self.acceleration * dt / 1000;
        let mut vx = self.velocity.x;
        let mut vy = self.velocity.y;
        if input.right {
            vx = vx + dv;
        } else if input.left {
            vx = vx - dv;
        }
        if input.up {
            vy = vy - dv;
        } else if input.down {
            vy = vy + dv;
        }
        let wx = vx as i128;
        let wy = vy as i128;
        proof {
            crate::geometry::lemma_mul_abs_bound(wx as int, wx as int, 0x2_0000_0000, 0x2_0000_0000);
            crate::geometry::lemma_mul_abs_bound(wy as int, wy as int, 0x2_0000_0000, 0x2_0000_0000);
        }
        let norm_sq: u128 = (wx * wx + wy * wy) as u128;
        let root = isqrt(norm_sq);
        let mag = root as i128;
        assert(norm_sq == wx * wx + wy * wy);
        let max = self.max_velocity as i128;
        proof {
            lemma_component_within_norm(wx as int, wy as int, mag as int);
            lemma_component_within_norm(wy as int, wx as int, mag as int);
        }
        if mag > max {
            proof {
                crate::geometry::lemma_mul_abs_bound(wx as int, max as int, 0x2_0000_0000, 0x1_0000_0000);
                crate::geometry::lemma_mul_abs_bound(wy as int, max as int, 0x2_0000_0000, 0x1_0000_0000);
                lemma_scaled_bound(wx as int, max as int, mag as int);
                lemma_scaled_bound(wy as int, max as int, mag as int);
                lemma_scaled_magnitude(wx as int, max as int, mag as int);
                lemma_scaled_magnitude(wy as int, max as int, mag as int);
            }
            vx = quotient_toward_zero_i128(wx * max, mag) as i64;
            vy = quotient_toward_zero_i128(wy * max, mag) as i64;
        }
        assert(-self.max_velocity <= vx <= self.max_velocity);
        assert(-self.max_velocity <= vy <= self.max_velocity);
        proof {
            crate::geometry::lemma_mul_abs_bound(self.friction as int, dt as int, FRICTION_LIMIT as int, MAX_FRAME_MS as int);
        }
        let loss = self.friction * dt;
        let keep = if 1000 - loss < 0 {
            0
        } else {
            1000 - loss
        };
        if !(input.left || input.right) {
            proof {
                lemma_scaled_bound(vx as int, keep as int, 1000);
                crate::geometry::lemma_mul_abs_bound(vx as int, keep as int, SPEED_CAP as int, 1000);
            }
            vx = quotient_toward_zero_i64(vx * keep, 1000);
        }
        if !(input.up || input.down) {
            proof {
                lemma_scaled_bound(vy as int, keep as int, 1000);
                crate::geometry::lemma_mul_abs_bound(vy as int, keep as int, SPEED_CAP as int, 1000);
            }
            vy = quotient_toward_zero_i64(vy * keep, 1000);
        }
        assert(-self.max_velocity <= vx <= self.max_velocity);
        assert(-self.max_velocity <= vy <= self.max_velocity);
        proof {
            crate::geometry::lemma_mul_abs_bound(vx as int, dt as int, SPEED_CAP as int, 1000);
            crate::geometry::lemma_mul_abs_bound(vy as int, dt as int, SPEED_CAP as int, 1000);
            lemma_scaled_bound(vx as int, dt as int, 1000);
            lemma_scaled_bound(vy as int, dt as int, 1000);
        }
        let nx = self.rect.x + quotient_toward_zero_i64(vx * dt, 1000);
        let ny = self.rect.y + quotient_toward_zero_i64(vy * dt, 1000);
        let x = clamp_exec(nx, 0, bounds.width - self.rect.width);
        let y = clamp_exec(ny, 0, bounds.height - self.rect.height);
        self.velocity = Point { x: vx, y: vy };
        self.rect = Rect { x, y, width: self.rect.width, height: self.rect.height };
    }
}

fn quotient_toward_zero_i128(n: i128, d: i128) -> (q: i128)
    requires
        d > 0,
        n > i128::MIN,
    ensures
        q == div_toward_zero(n as int, d as int),
{
    if n >= 0 {
        n / d
    } else {
        let m = -n;
        -(m / d)
    }
}

fn clamp_exec(v: i64, lo: i64, hi: i64) -> (r: i64)
    requires
        lo <= hi,
    ensures
        r == clamp_int(v as int, lo as int, hi as int),
{
    if v < lo {
        lo
    } else if v > hi {
        hi
    } else {
        v
    }
}

/// A component of a vector is at most the rounded-down length.
proof fn lemma_component_within_norm(a: int, b: int, m: int)
    requires
        is_floor_sqrt(a * a + b * b, m),
    ensures
        -m <= a <= m,
{
    if a > m {
        assert((m + 1) * (m + 1) <= a * a) by (nonlinear_arith)
            requires
                0 <= m < a,
        ;
        assert(0 <= b * b) by (nonlinear_arith);
    } else if a < -m {
        assert((m + 1) * (m + 1) <= a * a) by (nonlinear_arith)
            requires
                0 <= m,
                a < -m,
        ;
        assert(0 <= b * b) by (nonlinear_arith);
    }
}

/// Scaling a component `a` (with |a| ≤ m) by `max / m` gives at most `max`.
proof fn lemma_scaled_magnitude(a: int, max: int, m: int)
    requires
        0 <= max < m,
        -m <= a <= m,
    ensures
        -max <= div_toward_zero(a * max, m) <= max,
{
    if a >= 0 {
        assert(a * max <= m * max) by (nonlinear_arith)
            requires
                0 <= a <= m,
                0 <= max,
        ;
        assert(0 <= a * max) by (nonlinear_arith)
            requires
                0 <= a,
                0 <= max,
        ;
        assert((a * max) / m <= max) by (nonlinear_arith)
            requires
                0 < m,
                0 <= a * max <= m * max,
        ;
    } else {
        assert((-a) * max <= m * max) by (nonlinear_arith)
            requires
                0 <= -a <= m,
                0 <= max,
        ;
        assert(a * max <= 0) by (nonlinear_arith)
            requires
                a < 0,
                0 <= max,
        ;
        assert(-(a * max) == (-a) * max) by (nonlinear_arith);
        assert((-(a * max)) / m <= max) by (nonlinear_arith)
            requires
                0 < m,
                0 <= -(a * max) <= m * max,
        ;
    }
}


impl Entity {
    /// Advances the body by one tick of `dt` milliseconds.
    pub fn update(&mut self, input: Input, dt: i64, bounds: &Bounds)
        requires
            old(self).wf(),
            fits(*old(self), *bounds),
            bounds.wf(),
            0 <= dt <= MAX_FRAME_MS,
        ensures
            updated(*old(self), *final(self), input, dt as int, *bounds),
            final(self).wf(),
            fits(*final(self), *bounds),
            final(self).own_id() == old(self).own_id(),
            final(self).is_collidable() == old(self).is_collidable(),
    {
        match self {
            Entity::Player(p) => {
                p.step(input, dt, bounds);
            },
            Entity::Enemy(a) => {
                a.rect.x = advance_exec(a.rect.x, a.velocity.x, dt);
                a.rect.y = advance_exec(a.rect.y, a.velocity.y, dt);
                let turned = a.rotation + a.rotation_velocity;
                a.rotation = if turned < 0 {
                    turned + 360
                } else if turned >= 360 {
                    turned - 360
                } else {
                    turned
                };
                if a.rect.y > bounds.height {
                    a.reset(bounds);
                }
            },
            Entity::Projectile(l) => {
                l.rect.y = advance_exec(l.rect.y, -l.speed, dt);
            },
            Entity::Star(st) => {
                st.pos.y = advance_exec(st.pos.y, st.velocity, dt);
                if st.pos.y > bounds.height {
                    st.pos.x = random_between(0, bounds.width);
                    st.pos.y = -1000;
                }
            },
            Entity::Indestructible(_) => {},
        }
    }
}

} // verus!
