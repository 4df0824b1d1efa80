use asteroids::entities::{
    Asteroid, Bounds, Color, Entity, Input, Lazer, Player, Star, ASTEROID_MAX_SIZE,
    ASTEROID_MAX_SPEED, ASTEROID_MIN_SIZE, ASTEROID_MIN_SPEED,
};
use asteroids::events::{Event, EventType};
use asteroids::geometry::{Point, Rect};
use asteroids::world::World;

const FIELD: Bounds = Bounds { width: 1_200_000, height: 800_000 };

const NO_INPUT: Input = Input { left: false, right: false, up: false, down: false };

fn asteroid(x: i64, y: i64, size: i64, vy: i64, mass: i64) -> Entity {
    Entity::Enemy(Asteroid {
        id: 0,
        rect: Rect { x, y, width: size, height: size },
        velocity: Point { x: 0, y: vy },
        mass,
        rotation: 0,
        rotation_velocity: 0,
        color: Color { r: 220, g: 240, b: 250, a: 255 },
    })
}

fn lazer(x: i64, y: i64) -> Entity {
    Entity::Projectile(Lazer::new(0, x, y))
}

fn enemy(w: &World, id: u64) -> Asteroid {
    match w.entity(id) {
        Some(Entity::Enemy(a)) => a,
        other => panic!("not an asteroid: {:?}", other),
    }
}

fn check_spawned(a: &Asteroid, id: u64, bounds: &Bounds) {
    assert_eq!(a.id, id);
    assert!(0 <= a.rect.x && a.rect.x < bounds.width);
    assert!(-bounds.height <= a.rect.y && a.rect.y < 0);
    assert!(ASTEROID_MIN_SIZE <= a.rect.width && a.rect.width < ASTEROID_MAX_SIZE);
    assert_eq!(a.rect.height, a.rect.width);
    assert_eq!(a.velocity.x, 0);
    assert!(ASTEROID_MIN_SPEED <= a.velocity.y && a.velocity.y < ASTEROID_MAX_SPEED);
    assert_eq!(a.mass, a.rect.width / 4);
    assert_eq!(a.rotation, 0);
    assert!(-50 <= a.rotation_velocity && a.rotation_velocity < 50);
    assert_eq!(a.color.a, 255);
}

#[test]
fn asteroid_reset_keeps_identity_and_redraws_state() {
    let mut a = Asteroid::new(42, &FIELD);
    a.velocity = Point { x: 7_000, y: -5 };
    a.mass = 1;
    a.rotation = 123;
    a.reset(&FIELD);
    check_spawned(&a, 42, &FIELD);
    a.reset(&FIELD);
    check_spawned(&a, 42, &FIELD);
}

#[test]
fn new_asteroids_are_drawn_at_random() {
    let first = Asteroid::new(1, &FIELD);
    check_spawned(&first, 1, &FIELD);
    let mut differ = false;
    for _ in 0..50 {
        let next = Asteroid::new(1, &FIELD);
        check_spawned(&next, 1, &FIELD);
        if next.rect != first.rect || next.velocity != first.velocity {
            differ = true;
        }
    }
    assert!(differ);
}

#[test]
fn stars_are_drawn_inside_the_field() {
    for _ in 0..50 {
        let s = Star::new(500, &FIELD);
        assert!(0 <= s.pos.x && s.pos.x < FIELD.width);
        assert!(0 <= s.pos.y && s.pos.y < FIELD.height);
        assert!(100 <= s.color.a && s.color.a < 255);
        assert_eq!(s.velocity, 500);
    }
}

#[test]
fn projectile_striking_asteroid_announces_hit() {
    let mut shot = Entity::Projectile(Lazer::new(3, 105_000, 140_000));
    let mut rock = asteroid(100_000, 100_000, 20_000, 250_000, 5_000);
    if let Entity::Enemy(a) = &mut rock {
        a.id = 4;
    }
    assert!(shot.check_collision(&rock));
    let events = shot.on_collision(&mut rock);
    assert_eq!(events, vec![Event::ScoreIncreased, Event::ResetAsteroid(4), Event::EntityDestroyed(3)]);
    let kinds: Vec<EventType> = events.iter().map(|e| e.event_type()).collect();
    assert_eq!(kinds, vec![EventType::ScoreIncreased, EventType::ResetAsteroid, EventType::EntityDestroyed]);
}

#[test]
fn asteroids_bounce_and_lose_sideways_motion() {
    let mut a = asteroid(0, 0, 20_000, 4, 2);
    let mut b = asteroid(10_000, 0, 20_000, 0, 6);
    if let Entity::Enemy(x) = &mut a {
        x.velocity.x = 9;
    }
    assert!(a.check_collision(&b));
    let events = a.on_collision(&mut b);
    assert!(events.is_empty());
    match (a, b) {
        (Entity::Enemy(x), Entity::Enemy(y)) => {
            assert_eq!(x.velocity, Point { x: 0, y: -2 });
            assert_eq!(y.velocity, Point { x: 0, y: 2 });
        }
        _ => panic!("asteroids changed role"),
    }
}

#[test]
fn stars_never_collide() {
    let s = Entity::Star(Star { pos: Point { x: 0, y: 0 }, velocity: 0, color: Color { r: 1, g: 1, b: 1, a: 1 } });
    let rock = asteroid(-10_000, -10_000, 20_000, 0, 10);
    assert!(!s.check_collision(&rock));
}

#[test]
fn removal_safety_hit_retires_both_bodies_for_the_tick() {
    let mut w = World::new(FIELD);
    let shot_a = w.spawn(lazer(105_000, 140_000));
    let rock = w.spawn(asteroid(100_000, 100_000, 20_000, 250_000, 5_000));
    let shot_b = w.spawn(lazer(105_000, 140_000));
    assert_eq!((shot_a, rock, shot_b), (0, 1, 2));
    w.check_collisions();
    // Pair (0, 1) scores once; the destroyed projectile and the struck
    // asteroid take no part in later pairs.
    assert_eq!(w.score(), 100);
    assert!(w.entity(shot_a).is_none());
    assert!(w.entity(shot_b).is_some());
    check_spawned(&enemy(&w, rock), rock, &FIELD);
    assert_eq!(w.collidables(), vec![rock, shot_b]);
    assert_eq!(w.drawables(), vec![rock, shot_b]);
    assert!(!w.is_over());
}

#[test]
fn removal_safety_destroyed_projectile_is_not_tested_again() {
    let mut w = World::new(FIELD);
    let a = w.spawn(lazer(105_000, 140_000));
    let b = w.spawn(lazer(106_000, 140_000));
    let c = w.spawn(lazer(106_500, 140_000));
    w.check_collisions();
    // Pair (0, 1) destroys both; pair (1, 2) is skipped, so the third survives.
    assert!(w.entity(a).is_none());
    assert!(w.entity(b).is_none());
    assert!(w.entity(c).is_some());
    assert_eq!(w.collidables(), vec![c]);
    assert_eq!(w.score(), 0);
}

#[test]
fn two_projectiles_on_one_asteroid_score_once() {
    let mut w = World::new(FIELD);
    let rock = w.spawn(asteroid(100_000, 100_000, 20_000, 250_000, 5_000));
    let a = w.spawn(lazer(102_000, 140_000));
    let b = w.spawn(lazer(115_000, 140_000));
    w.check_collisions();
    assert_eq!(w.score(), 100);
    assert!(w.entity(a).is_none());
    assert!(w.entity(b).is_some());
    check_spawned(&enemy(&w, rock), rock, &FIELD);
}

#[test]
fn player_struck_by_asteroid_ends_the_game() {
    let mut w = World::new(FIELD);
    let ship = w.new_player();
    let r = match w.entity(ship) {
        Some(Entity::Player(p)) => p.rect,
        _ => panic!("no ship"),
    };
    w.spawn(asteroid(r.x + r.width / 2 - 10_000, r.y - 10_000, 20_000, 0, 5_000));
    w.check_collisions();
    assert!(w.is_over());
    let before = w.entity(ship);
    w.tick(Input { left: false, right: true, up: false, down: false }, true, 16);
    assert_eq!(w.entity(ship), before);
    assert_eq!(w.next_id(), 2);
}

#[test]
fn barrier_stops_projectiles_and_stays() {
    let mut w = World::new(FIELD);
    let wall = w.new_barrier(Rect { x: 100_000, y: 100_000, width: 50_000, height: 10_000 });
    let shot = w.new_lazer(110_000, 140_000);
    w.check_collisions();
    assert!(w.entity(wall).is_some());
    assert!(w.entity(shot).is_none());
    assert_eq!(w.score(), 0);
}

#[test]
fn asteroids_in_contact_exchange_momentum() {
    let mut w = World::new(FIELD);
    let a = w.spawn(asteroid(100_000, 100_000, 20_000, 4, 2));
    let b = w.spawn(asteroid(110_000, 100_000, 20_000, 0, 6));
    w.check_collisions();
    assert_eq!(enemy(&w, a).velocity, Point { x: 0, y: -2 });
    assert_eq!(enemy(&w, b).velocity, Point { x: 0, y: 2 });
}

#[test]
fn firing_launches_three_projectiles_from_the_ship() {
    let mut w = World::new(FIELD);
    let ship = w.new_player();
    assert_eq!(w.player_id(), Some(ship));
    let p = Player::new(&FIELD);
    assert_eq!(p.rect, Rect { x: 570_000, y: 690_000, width: 60_000, height: 60_000 });
    w.fire();
    let xs = [590_000, 600_000, 610_000];
    for (k, x) in xs.iter().enumerate() {
        let id = ship + 1 + k as u64;
        match w.entity(id) {
            Some(Entity::Projectile(l)) => {
                assert_eq!(l.id, id);
                assert_eq!(l.rect, Rect { x: *x, y: 645_000, width: 2_000, height: 45_000 });
                assert_eq!(l.speed, 1_100_000);
            }
            other => panic!("no projectile: {:?}", other),
        }
    }
    assert_eq!(w.collidables(), vec![0, 1, 2, 3]);
}

#[test]
fn firing_without_a_ship_does_nothing() {
    let mut w = World::new(FIELD);
    w.fire();
    assert_eq!(w.next_id(), 0);
    assert!(w.drawables().is_empty());
}

#[test]
fn ship_accelerates_and_moves() {
    let mut e = Entity::Player(Player::new(&FIELD));
    e.update(Input { left: false, right: true, up: false, down: false }, 16, &FIELD);
    match e {
        Entity::Player(p) => {
            // dv = 1_000_000 * 16 / 1000; dx = 16_000 * 16 / 1000
            assert_eq!(p.velocity, Point { x: 16_000, y: 0 });
            assert_eq!(p.rect.x, 570_000 + 256);
            assert_eq!(p.rect.y, 690_000);
        }
        _ => panic!("ship changed role"),
    }
}

#[test]
fn ship_speed_is_capped_and_friction_slows_it() {
    let mut p = Player::new(&FIELD);
    p.velocity = Point { x: 600_000, y: 800_000 };
    let mut e = Entity::Player(p);
    // Both axes held: the speed 1_000_000 + 16_000 along x is scaled back to 500_000.
    e.update(Input { left: false, right: true, up: false, down: true }, 16, &FIELD);
    if let Entity::Player(q) = e {
        let mag = (((q.velocity.x as i128).pow(2) + (q.velocity.y as i128).pow(2)) as f64).sqrt();
        assert!(mag <= 500_000.0);
        assert!(mag > 499_000.0);
    }
    let mut p = Player::new(&FIELD);
    p.velocity = Point { x: 1_000, y: -1_000 };
    let mut e = Entity::Player(p);
    e.update(NO_INPUT, 16, &FIELD);
    if let Entity::Player(q) = e {
        // friction keeps 1000 - 10 * 16 = 840 thousandths
        assert_eq!(q.velocity, Point { x: 840, y: -840 });
    }
}

#[test]
fn ship_stays_inside_the_field() {
    let mut p = Player::new(&FIELD);
    p.velocity = Point { x: 500_000, y: 0 };
    p.rect.x = FIELD.width - p.rect.width - 10;
    let mut e = Entity::Player(p);
    e.update(Input { left: false, right: true, up: false, down: false }, 100, &FIELD);
    if let Entity::Player(q) = e {
        assert_eq!(q.rect.x, FIELD.width - q.rect.width);
    }
}

#[test]
fn asteroid_falls_spins_and_resets_below_the_field() {
    let mut e = asteroid(10_000, 100_000, 20_000, 250_000, 5_000);
    if let Entity::Enemy(a) = &mut e {
        a.rotation = 350;
        a.rotation_velocity = 20;
        a.id = 9;
    }
    e.update(NO_INPUT, 16, &FIELD);
    if let Entity::Enemy(a) = e {
        assert_eq!(a.rect.y, 104_000);
        assert_eq!(a.rect.x, 10_000);
        assert_eq!(a.rotation, 10);
    }
    let mut e = asteroid(10_000, FIELD.height - 1, 20_000, 250_000, 5_000);
    if let Entity::Enemy(a) = &mut e {
        a.id = 9;
    }
    e.update(NO_INPUT, 16, &FIELD);
    match e {
        Entity::Enemy(a) => check_spawned(&a, 9, &FIELD),
        _ => panic!("asteroid changed role"),
    }
}

#[test]
fn projectile_flies_up() {
    let mut e = Entity::Projectile(Lazer::new(5, 100_000, 500_000));
    e.update(NO_INPUT, 16, &FIELD);
    if let Entity::Projectile(l) = e {
        assert_eq!(l.rect.y, 455_000 - 17_600);
    }
}

#[test]
fn star_wraps_to_the_top() {
    let mut e = Entity::Star(Star { pos: Point { x: 5, y: FIELD.height }, velocity: 1000, color: Color { r: 245, g: 245, b: 245, a: 200 } });
    e.update(NO_INPUT, 16, &FIELD);
    if let Entity::Star(s) = e {
        assert_eq!(s.pos.y, -1000);
        assert!(0 <= s.pos.x && s.pos.x < FIELD.width);
    }
}

#[test]
fn setup_fills_the_field() {
    let mut w = World::new(FIELD);
    w.setup();
    assert_eq!(w.next_id(), 6011);
    assert_eq!(w.drawables().len(), 6011);
    assert_eq!(w.player_id(), Some(6000));
    assert_eq!(w.collidables(), (6000..6011).collect::<Vec<u64>>());
    for id in 6001..6011 {
        check_spawned(&enemy(&w, id), id, &FIELD);
    }
}

#[test]
fn tick_fires_sweeps_and_moves() {
    let mut w = World::new(FIELD);
    let ship = w.new_player();
    w.tick(NO_INPUT, true, 16);
    assert_eq!(w.next_id(), 4);
    for id in 1..4 {
        match w.entity(id) {
            Some(Entity::Projectile(l)) => assert_eq!(l.rect.y, 645_000 - 17_600),
            other => panic!("no projectile: {:?}", other),
        }
    }
    assert!(w.entity(ship).is_some());
    assert!(!w.is_over());
}

#[test]
fn asteroid_from_given_draws() {
    let c = Color { r: 210, g: 240, b: 250, a: 255 };
    let a = Asteroid::from_draws(7, 1_000, -2_000, 30_001, 250_000, -3, c);
    assert_eq!(a.id, 7);
    assert_eq!(a.rect, Rect { x: 1_000, y: -2_000, width: 30_001, height: 30_001 });
    assert_eq!(a.velocity, Point { x: 0, y: 250_000 });
    assert_eq!(a.mass, 7_500);
    assert_eq!(a.rotation, 0);
    assert_eq!(a.rotation_velocity, -3);
    assert_eq!(a.color, c);
}

#[test]
fn sweep_over_an_empty_world_changes_nothing() {
    let mut w = World::new(FIELD);
    w.check_collisions();
    assert_eq!(w.score(), 0);
    assert!(!w.is_over());
    assert!(w.collidables().is_empty());
    assert_eq!(w.bounds(), FIELD);
}

#[test]
fn stars_stay_out_of_the_sweep() {
    let mut w = World::new(FIELD);
    let s = w.new_star(500);
    let shot = w.new_lazer(100_000, 200_000);
    assert_eq!(w.collidables(), vec![shot]);
    assert_eq!(w.drawables(), vec![s, shot]);
    w.check_collisions();
    assert!(w.entity(s).is_some());
}
