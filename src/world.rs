//! The registry of live bodies and the per-tick collision sweep over it.
use vstd::prelude::*;
use std::collections::HashMap;
use crate::entities::{
    asteroid_spawned, fits, updated, Asteroid, Barrier, Bounds, Entity, EntityId, Input, Lazer,
    Player, Star, LAZER_HEIGHT, MAX_FRAME_MS, pos_ok, speed_ok, body_ok,
};
use crate::geometry::Rect;
use crate::events::Event;
use crate::sweep::{apply_events, live, pair_step, sweep, sweep_from, SweepState, SCORE_PER_HIT};

verus! {

broadcast use vstd::std_specs::hash::group_hash_axioms;

/// A body that may stand in the registry under `id`: well formed, inside
/// the field where that matters, and carrying `id` if it carries an
/// identifier at all.
pub open spec fn entity_ok(bounds: Bounds, id: EntityId, e: Entity) -> bool {
    &&& e.wf()
    &&& fits(e, bounds)
    &&& (e.own_id() is Some ==> e.own_id()->0 == id)
}

pub open spec fn entities_ok(bounds: Bounds, m: Map<EntityId, Entity>) -> bool {
    forall|id: EntityId| #[trigger] m.contains_key(id) ==> entity_ok(bounds, id, m[id])
}

/// The bodies once the removals and resets a finished sweep recorded are
/// carried out: destroyed bodies are gone, asteroids waiting for a reset
/// are placed anew under the same identifier, all others are as the sweep
/// left them.
pub open spec fn settled(s: SweepState, m: Map<EntityId, Entity>, bounds: Bounds) -> bool {
    &&& forall|id: EntityId|
        #[trigger] m.contains_key(id) <==> (s.entities.contains_key(id) && !s.destroyed.contains(id))
    &&& forall|id: EntityId| #[trigger]
        m.contains_key(id) ==> if s.resets.contains(id) && s.entities[id] is Enemy {
            m[id] is Enemy && asteroid_spawned(m[id]->Enemy_0, id, bounds)
        } else {
            m[id] == s.entities[id]
        }
}

/// `after` is `before` once a collision sweep has run over it.
pub open spec fn sweep_result(before: WorldView, after: WorldView) -> bool {
    let s = sweep(before.entities, before.collidables, before.score as int);
    &&& settled(s, after.entities, before.bounds)
    &&& after.score == s.score
    &&& after.over == (before.over || s.over)
    &&& after.collidables == before.collidables.filter(|id: EntityId| after.entities.contains_key(id))
    &&& after.drawables == before.drawables.filter(|id: EntityId| after.entities.contains_key(id))
    &&& after.bounds == before.bounds
    &&& after.next_id == before.next_id
    &&& after.player == before.player
}

/// `after` is `before` once every body has been advanced by one tick.
pub open spec fn update_result(before: WorldView, after: WorldView, input: Input, dt: int) -> bool {
    &&& after.entities.dom() == before.entities.dom()
    &&& forall|id: EntityId| #[trigger]
        before.entities.contains_key(id) ==> updated(
            before.entities[id],
            after.entities[id],
            input,
            dt,
            before.bounds,
        )
    &&& after == WorldView { entities: after.entities, ..before }
}

/// The projectile that the game fires with identifier `id` from (`x`, `y`).
pub open spec fn lazer_at(id: EntityId, x: int, y: int) -> Entity {
    Entity::Projectile(
        Lazer {
            id,
            rect: Rect { x: x as i64, y: (y - LAZER_HEIGHT) as i64, width: crate::entities::LAZER_WIDTH, height: LAZER_HEIGHT },
            color: crate::entities::Color { r: 230, g: 41, b: 55, a: 255 },
            speed: crate::entities::LAZER_SPEED,
        },
    )
}

/// `after` is `before` once the player has fired: three projectiles leave
/// the top edge of the ship at a third, half and two thirds of its width.
/// Without a ship nothing happens.
pub open spec fn fire_result(before: WorldView, after: WorldView) -> bool {
    match before.player {
        Some(pid) if before.entities.contains_key(pid) && before.entities[pid] is Player => {
            let r = before.entities[pid]->Player_0.rect;
            let n = before.next_id;
            let xs = seq![r.x + r.width / 3, r.x + r.width / 2, r.x + r.width - r.width / 3];
            &&& after.next_id == n + 3
            &&& after.entities == before.entities.insert(n, lazer_at(n, xs[0], r.y as int)).insert(
                (n + 1) as EntityId,
                lazer_at((n + 1) as EntityId, xs[1], r.y as int),
            ).insert((n + 2) as EntityId, lazer_at((n + 2) as EntityId, xs[2], r.y as int))
            &&& after.drawables == before.drawables.push(n).push((n + 1) as EntityId).push((n + 2) as EntityId)
            &&& after.collidables == before.collidables.push(n).push((n + 1) as EntityId).push(
                (n + 2) as EntityId,
            )
            &&& after == WorldView {
                next_id: after.next_id,
                entities: after.entities,
                drawables: after.drawables,
                collidables: after.collidables,
                ..before
            }
        },
        _ => after == before,
    }
}

/// What a caller can know of a [`World`].
pub struct WorldView {
    pub bounds: Bounds,
    pub next_id: EntityId,
    pub player: Option<EntityId>,
    pub entities: Map<EntityId, Entity>,
    /// Every live body, in order of creation.
    pub drawables: Seq<EntityId>,
    /// The bodies that take part in collisions, in order of creation; this
    /// order is the order of the sweep.
    pub collidables: Seq<EntityId>,
    pub score: u64,
    pub over: bool,
}

/// Owns every body of the simulation by identifier.
pub struct World {
    bounds: Bounds,
    id_count: EntityId,
    player_id: Option<EntityId>,
    entities: HashMap<EntityId, Entity>,
    drawables: Vec<EntityId>,
    collidables: Vec<EntityId>,
    score: u64,
    over: bool,
}

impl View for World {
    type V = WorldView;

    closed spec fn view(&self) -> WorldView {
        WorldView {
            bounds: self.bounds,
            next_id: self.id_count,
            player: self.player_id,
            entities: self.entities@,
            drawables: self.drawables@,
            collidables: self.collidables@,
            score: self.score,
            over: self.over,
        }
    }
}

impl WorldView {
    pub open spec fn wf(self) -> bool {
        &&& self.bounds.wf()
        &&& entities_ok(self.bounds, self.entities)
        &&& forall|id: EntityId| #[trigger] self.entities.contains_key(id) ==> id < self.next_id
        &&& self.collidables.no_duplicates()
        &&& forall|k: int|
            0 <= k < self.collidables.len() ==> {
                &&& self.entities.contains_key(#[trigger] self.collidables[k])
                &&& self.entities[self.collidables[k]].is_collidable()
            }
        &&& self.drawables.no_duplicates()
        &&& forall|id: EntityId| #[trigger]
            self.entities.contains_key(id) <==> self.drawables.contains(id)
    }
}

pub proof fn lemma_push_contains(s: Seq<EntityId>, x: EntityId, y: EntityId)
    ensures
        s.push(x).contains(y) <==> (s.contains(y) || x == y),
{
    if s.push(x).contains(y) {
        let j = choose|j: int| 0 <= j < s.push(x).len() && s.push(x)[j] == y;
        if j < s.len() {
            assert(s[j] == y);
        }
    }
    if s.contains(y) {
        let j = choose|j: int| 0 <= j < s.len() && s[j] == y;
        assert(s.push(x)[j] == y);
    }
    if x == y {
        assert(s.push(x)[s.len() as int] == y);
    }
}

/// Whether `id` occurs in `v`.
fn contains_id(v: &Vec<EntityId>, id: EntityId) -> (r: bool)
    ensures
        r == v@.contains(id),
{
    let mut k: usize = 0;
    while k < v.len()
        invariant
            0 <= k <= v@.len(),
            forall|i: int| 0 <= i < k ==> v@[i] != id,
        decreases v@.len() - k,
    {
        if v[k] == id {
            return true;
        }
        k = k + 1;
    }
    false
}

/// The identifiers of `ids` that still name a body of `m`, in order.
fn retain_live(ids: &Vec<EntityId>, m: &HashMap<EntityId, Entity>) -> (r: Vec<EntityId>)
    ensures
        r@ == ids@.filter(|id: EntityId| m@.contains_key(id)),
        forall|x: EntityId| #[trigger] r@.contains(x) <==> (ids@.contains(x) && m@.contains_key(x)),
        ids@.no_duplicates() ==> r@.no_duplicates(),
{
    let ghost keep = |id: EntityId| m@.contains_key(id);
    let mut out: Vec<EntityId> = Vec::new();
    let mut k: usize = 0;
    while k < ids.len()
        invariant
            0 <= k <= ids@.len(),
            keep == (|id: EntityId| m@.contains_key(id)),
            out@ == ids@.take(k as int).filter(keep),
            forall|x: EntityId| #[trigger] out@.contains(x) <==> (ids@.take(k as int).contains(x) && m@.contains_key(x)),
            ids@.no_duplicates() ==> out@.no_duplicates(),
        decreases ids@.len() - k,
    {
        let id = ids[k];
        let present = m.contains_key(&id);
        let ghost before = out@;
        if present {
            out.push(id);
        }
        proof {
            let next = ids@.take(k + 1);
            assert(next.drop_last() =~= ids@.take(k as int));
            assert(next.last() == ids@[k as int]);
            assert(next =~= ids@.take(k as int).push(id));
            assert(present == keep(ids@[k as int]));
            reveal(Seq::filter);
            assert(next.filter(keep) == (if keep(next.last()) {
                next.drop_last().filter(keep).push(next.last())
            } else {
                next.drop_last().filter(keep)
            }));
            assert forall|x: EntityId| #[trigger] out@.contains(x) <==> (next.contains(x) && m@.contains_key(x)) by {
                lemma_push_contains(ids@.take(k as int), id, x);
                if present {
                    lemma_push_contains(before, id, x);
                }
            }
            if ids@.no_duplicates() && present {
                if before.contains(id) {
                    let j = choose|j: int| 0 <= j < k && ids@.take(k as int)[j] == id;
                    assert(ids@[j] == ids@[k as int]);
                }
                assert forall|a: int, b: int| 0 <= a < out@.len() && 0 <= b < out@.len() && a != b implies out@[a] != out@[b] by {
                    if a == before.len() as int {
                        assert(before.contains(out@[b]));
                    } else if b == before.len() as int {
                        assert(before.contains(out@[a]));
                    } else {
                        assert(out@[a] == before[a] && out@[b] == before[b]);
                    }
                }
            }
        }
        k = k + 1;
    }
    proof {
        assert(ids@.take(k as int) =~= ids@);
    }
    out
}

/// `e` with its own identifier, if it carries one, set to `id`.
pub open spec fn with_id(e: Entity, id: EntityId) -> Entity {
    match e {
        Entity::Enemy(a) => Entity::Enemy(Asteroid { id, ..a }),
        Entity::Projectile(l) => Entity::Projectile(crate::entities::Lazer { id, ..l }),
        _ => e,
    }
}

impl World {
    /// An empty world over the field `bounds`.
    pub fn new(bounds: Bounds) -> (w: World)
        requires
            bounds.wf(),
        ensures
            w@.wf(),
            w@.bounds == bounds,
            w@.next_id == 0,
            w@.player is None,
            w@.entities == Map::<EntityId, Entity>::empty(),
            w@.drawables == Seq::<EntityId>::empty(),
            w@.collidables == Seq::<EntityId>::empty(),
            w@.score == 0,
            !w@.over,
    {
        let w = World {
            bounds,
            id_count: 0,
            player_id: None,
            entities: HashMap::new(),
            drawables: Vec::new(),
            collidables: Vec::new(),
            score: 0,
            over: false,
        };
        assert(w.entities@ =~= Map::<EntityId, Entity>::empty());
        w
    }

    fn new_id(&mut self) -> (id: EntityId)
        requires
            old(self).id_count < u64::MAX,
        ensures
            id == old(self).id_count,
            final(self).id_count == old(self).id_count + 1,
            final(self).bounds == old(self).bounds,
            final(self).player_id == old(self).player_id,
            final(self).entities == old(self).entities,
            final(self).drawables == old(self).drawables,
            final(self).collidables == old(self).collidables,
            final(self).score == old(self).score,
            final(self).over == old(self).over,
    {
        let id = self.id_count;
        self.id_count = self.id_count + 1;
        id
    }

    /// Adds a body built by the caller under a fresh identifier, which it
    /// also carries if it carries one; it joins the collidable list unless
    /// it is a star.
    pub fn spawn(&mut self, e: Entity) -> (id: EntityId)
        requires
            old(self)@.wf(),
            old(self)@.next_id < u64::MAX,
            e.wf(),
            fits(e, old(self)@.bounds),
        ensures
            final(self)@.wf(),
            id == old(self)@.next_id,
            final(self)@.next_id == old(self)@.next_id + 1,
            final(self)@.entities == old(self)@.entities.insert(id, with_id(e, id)),
            final(self)@.drawables == old(self)@.drawables.push(id),
            final(self)@.collidables == (if e.is_collidable() {
                old(self)@.collidables.push(id)
            } else {
                old(self)@.collidables
            }),
            final(self)@.bounds == old(self)@.bounds,
            final(self)@.player == old(self)@.player,
            final(self)@.score == old(self)@.score,
            final(self)@.over == old(self)@.over,
    {
        let id = self.new_id();
        let entity = match e {
            Entity::Enemy(a) => Entity::Enemy(Asteroid { id, ..a }),
            Entity::Projectile(l) => Entity::Projectile(crate::entities::Lazer { id, ..l }),
            _ => e,
        };
        let collidable = match e {
            Entity::Star(_) => false,
            _ => true,
        };
        self.entities.insert(id, entity);
        self.drawables.push(id);
        if collidable {
            self.collidables.push(id);
        }
        proof {
            let v = self@;
            assert forall|k: int| 0 <= k < v.collidables.len() implies {
                &&& v.entities.contains_key(#[trigger] v.collidables[k])
                &&& v.entities[v.collidables[k]].is_collidable()
            } by {
                if k < old(self)@.collidables.len() {
                    assert(old(self)@.entities.contains_key(old(self)@.collidables[k]));
                }
            }
            assert forall|id2: EntityId| #[trigger]
                v.entities.contains_key(id2) <==> v.drawables.contains(id2) by {
                if id2 != id {
                    if v.drawables.contains(id2) {
                        let j = choose|j: int| 0 <= j < v.drawables.len() && v.drawables[j] == id2;
                        assert(old(self)@.drawables[j] == id2);
                    }
                    if old(self)@.drawables.contains(id2) {
                        let j = choose|j: int| 0 <= j < old(self)@.drawables.len() && old(self)@.drawables[j] == id2;
                        assert(v.drawables[j] == id2);
                    }
                } else {
                    assert(v.drawables[v.drawables.len() - 1] == id);
                }
            }
        }
        id
    }

    /// Adds an asteroid placed at random above the field.
    pub fn new_asteroid(&mut self) -> (id: EntityId)
        requires
            old(self)@.wf(),
            old(self)@.next_id < u64::MAX,
        ensures
            final(self)@.wf(),
            id == old(self)@.next_id,
            final(self)@.entities == old(self)@.entities.insert(id, final(self)@.entities[id]),
            final(self)@.entities[id] is Enemy,
            asteroid_spawned(final(self)@.entities[id]->Enemy_0, id, final(self)@.bounds),
            final(self)@.drawables == old(self)@.drawables.push(id),
            final(self)@.collidables == old(self)@.collidables.push(id),
            final(self)@.bounds == old(self)@.bounds,
            final(self)@.player == old(self)@.player,
            final(self)@.next_id == old(self)@.next_id + 1,
            final(self)@.score == old(self)@.score,
            final(self)@.over == old(self)@.over,
    {
        let a = Asteroid::new(self.id_count, &self.bounds);
        let id = self.spawn(Entity::Enemy(a));
        id
    }
}


pub open spec fn sweep_state(
    entities: Map<EntityId, Entity>,
    destroyed: Seq<EntityId>,
    resets: Seq<EntityId>,
    score: u64,
    over: bool,
) -> SweepState {
    SweepState { entities, destroyed, resets, score: score as int, over }
}

impl World {
    fn is_live(&self, destroyed: &Vec<EntityId>, resets: &Vec<EntityId>, id: EntityId) -> (r: bool)
        ensures
            r == live(sweep_state(self.entities@, destroyed@, resets@, 0, false), id),
    {
        self.entities.contains_key(&id) && !contains_id(destroyed, id) && !contains_id(resets, id)
    }

    /// Tests every pair of collidable bodies once, in the order of the
    /// collidable list, and resolves each pair that meets (see
    /// [`sweep`]); then removes the destroyed bodies, places the struck
    /// asteroids anew and drops the identifiers of removed bodies from the
    /// lists.
    pub fn check_collisions(&mut self)
        requires
            old(self)@.wf(),
        ensures
            final(self)@.wf(),
            sweep_result(old(self)@, final(self)@),
    {
        let ghost ids = self.collidables@;
        let ghost target = sweep(self.entities@, ids, self.score as int);
        let ghost dom0 = self.entities@.dom();
        let ghost w0 = self@;
        let n = self.collidables.len();
        let mut destroyed: Vec<EntityId> = Vec::new();
        let mut resets: Vec<EntityId> = Vec::new();
        let mut score = self.score;
        let mut over = false;
        let mut i: usize = 0;
        while i < n && !over
            invariant
                self.collidables@ == ids,
                n == ids.len(),
                self@.bounds == w0.bounds,
                self@.next_id == w0.next_id,
                self@.player == w0.player,
                self@.drawables == w0.drawables,
                self@.score == w0.score,
                self@.over == w0.over,
                w0.wf(),
                ids == w0.collidables,
                self.entities@.dom() == dom0,
                dom0 == w0.entities.dom(),
                entities_ok(w0.bounds, self.entities@),
                forall|id: EntityId| #[trigger] self.entities@.contains_key(id)
                    ==> self.entities@[id].is_collidable() == w0.entities[id].is_collidable(),
                0 <= i <= n,
                over || sweep_from(sweep_state(self.entities@, destroyed@, resets@, score, over), ids, i as int, i + 1) == target,
                over ==> sweep_state(self.entities@, destroyed@, resets@, score, over) == target,
            decreases n - i,
        {
            let id1 = self.collidables[i];
            let mut j: usize = i + 1;
            while j < n && !over
                invariant
                    self.collidables@ == ids,
                    n == ids.len(),
                    self@.bounds == w0.bounds,
                    self@.next_id == w0.next_id,
                    self@.player == w0.player,
                    self@.drawables == w0.drawables,
                    self@.score == w0.score,
                    self@.over == w0.over,
                    w0.wf(),
                    ids == w0.collidables,
                    self.entities@.dom() == dom0,
                    dom0 == w0.entities.dom(),
                    entities_ok(w0.bounds, self.entities@),
                    forall|id: EntityId| #[trigger] self.entities@.contains_key(id)
                        ==> self.entities@[id].is_collidable() == w0.entities[id].is_collidable(),
                    0 <= i < n,
                    i < j,
                    id1 == ids[i as int],
                    over || sweep_from(sweep_state(self.entities@, destroyed@, resets@, score, over), ids, i as int, j as int) == target,
                    over ==> sweep_state(self.entities@, destroyed@, resets@, score, over) == target,
                decreases n - j,
            {
                let id2 = self.collidables[j];
                let ghost before = sweep_state(self.entities@, destroyed@, resets@, score, over);
                proof {
                    assert(ids.no_duplicates());
                    assert(id1 != id2);
                }
                if self.is_live(&destroyed, &resets, id1) && self.is_live(&destroyed, &resets, id2) {
                    let e1 = *self.entities.get(&id1).unwrap();
                    let e2 = *self.entities.get(&id2).unwrap();
                    if e1.check_collision(&e2) {
                        let mut a = e1;
                        let mut b = e2;
                        let events = a.on_collision(&mut b);
                        self.entities.insert(id1, a);
                        self.entities.insert(id2, b);
                        let ghost s1 = sweep_state(self.entities@, destroyed@, resets@, score, over);
                        proof {
                            assert(self.entities@ == before.entities.insert(id1, a).insert(id2, b));
                            assert(s1 == SweepState { entities: before.entities.insert(id1, a).insert(id2, b), ..before });
                            assert(events@.take(0) =~= Seq::<Event>::empty());
                        }
                        let mut k: usize = 0;
                        while k < events.len()
                            invariant
                                0 <= k <= events@.len(),
                                sweep_state(self.entities@, destroyed@, resets@, score, over)
                                    == apply_events(s1, events@.take(k as int)),
                            decreases events@.len() - k,
                        {
                            proof {
                                assert(events@.take(k + 1).drop_last() =~= events@.take(k as int));
                                assert(events@.take(k + 1).last() == events@[k as int]);
                            }
                            match events[k] {
                                Event::EntityDestroyed(id) => {
                                    destroyed.push(id);
                                },
                                Event::ResetAsteroid(id) => {
                                    resets.push(id);
                                },
                                Event::ScoreIncreased => {
                                    score = if score > u64::MAX - SCORE_PER_HIT {
                                        u64::MAX
                                    } else {
                                        score + SCORE_PER_HIT
                                    };
                                },
                                Event::GameOver => {
                                    over = true;
                                },
                            }
                            k = k + 1;
                        }
                        proof {
                            assert(events@.take(events@.len() as int) =~= events@);
                            assert forall|id: EntityId| #[trigger] self.entities@.contains_key(id)
                                implies entity_ok(w0.bounds, id, self.entities@[id]) by {
                                if id != id1 && id != id2 {
                                    assert(before.entities.contains_key(id));
                                }
                            }
                        }
                    }
                }
                proof {
                    let after = sweep_state(self.entities@, destroyed@, resets@, score, over);
                    assert(after == pair_step(before, id1, id2));
                    assert(sweep_from(before, ids, i as int, j as int) == sweep_from(after, ids, i as int, j + 1));
                    if over {
                        assert(sweep_from(after, ids, i as int, j + 1) == after);
                    }
                }
                j = j + 1;
            }
            proof {
                if !over {
                    let st = sweep_state(self.entities@, destroyed@, resets@, score, over);
                    assert(sweep_from(st, ids, i as int, j as int) == sweep_from(st, ids, i + 1, i + 2));
                }
            }
            i = i + 1;
        }
        proof {
            let st = sweep_state(self.entities@, destroyed@, resets@, score, over);
            if !over {
                assert(sweep_from(st, ids, i as int, i + 1) == st);
            }
            assert(st == target);
        }
        let ghost swept = self.entities@;
        let mut k: usize = 0;
        while k < destroyed.len()
            invariant
                0 <= k <= destroyed@.len(),
                self@.bounds == w0.bounds,
                self@.next_id == w0.next_id,
                self@.player == w0.player,
                self@.drawables == w0.drawables,
                self@.collidables == w0.collidables,
                self@.score == w0.score,
                self@.over == w0.over,
                entities_ok(w0.bounds, swept),
                forall|id: EntityId| #[trigger] swept.contains_key(id)
                    ==> swept[id].is_collidable() == w0.entities[id].is_collidable(),
                swept.dom() == w0.entities.dom(),
                forall|id: EntityId| #[trigger] self.entities@.contains_key(id)
                    <==> (swept.contains_key(id) && !destroyed@.take(k as int).contains(id)),
                forall|id: EntityId| #[trigger] self.entities@.contains_key(id)
                    ==> self.entities@[id] == swept[id],
            decreases destroyed@.len() - k,
        {
            let id = destroyed[k];
            self.entities.remove(&id);
            proof {
                assert(destroyed@.take(k + 1) =~= destroyed@.take(k as int).push(id));
                assert forall|x: EntityId| true implies (destroyed@.take(k + 1).contains(x) <==> (destroyed@.take(k as int).contains(x) || x == id)) by {
                    lemma_push_contains(destroyed@.take(k as int), id, x);
                }
            }
            k = k + 1;
        }
        proof {
            assert(destroyed@.take(k as int) =~= destroyed@);
        }
        let ghost pruned = self.entities@;
        proof {
            assert forall|id: EntityId| #[trigger] pruned.contains_key(id) implies entity_ok(w0.bounds, id, pruned[id]) by {
                assert(swept.contains_key(id));
            }
        }
        let mut k: usize = 0;
        while k < resets.len()
            invariant
                0 <= k <= resets@.len(),
                self@.bounds == w0.bounds,
                self@.next_id == w0.next_id,
                self@.player == w0.player,
                self@.drawables == w0.drawables,
                self@.collidables == w0.collidables,
                self@.score == w0.score,
                self@.over == w0.over,
                forall|id: EntityId| #[trigger] pruned.contains_key(id) ==> pruned[id] == swept[id],
                forall|id: EntityId| #[trigger] pruned.contains_key(id)
                    <==> (swept.contains_key(id) && !destroyed@.contains(id)),
                w0.bounds.wf(),
                self.entities@.dom() == pruned.dom(),
                forall|id: EntityId| #[trigger] self.entities@.contains_key(id) ==> if resets@.take(k as int).contains(id) && pruned[id] is Enemy {
                    self.entities@[id] is Enemy && asteroid_spawned(self.entities@[id]->Enemy_0, id, w0.bounds)
                } else {
                    self.entities@[id] == pruned[id]
                },
                entities_ok(w0.bounds, pruned),
            decreases resets@.len() - k,
        {
            let id = resets[k];
            proof {
                if self.entities@.contains_key(id) {
                    assert(entity_ok(w0.bounds, id, pruned[id]));
                }
            }
            let current = self.entities.get(&id);
            match current {
                Some(Entity::Enemy(a)) => {
                    let mut fresh = *a;
                    fresh.reset(&self.bounds);
                    self.entities.insert(id, Entity::Enemy(fresh));
                },
                _ => {},
            }
            proof {
                assert(resets@.take(k + 1) =~= resets@.take(k as int).push(id));
                assert forall|x: EntityId| true implies (resets@.take(k + 1).contains(x) <==> (resets@.take(k as int).contains(x) || x == id)) by {
                    lemma_push_contains(resets@.take(k as int), id, x);
                }
            }
            k = k + 1;
        }
        proof {
            assert(resets@.take(k as int) =~= resets@);
        }
        let ghost settled_map = self.entities@;
        proof {
            assert forall|id: EntityId| #[trigger] settled_map.contains_key(id) implies entity_ok(w0.bounds, id, settled_map[id]) && settled_map[id].is_collidable() == w0.entities[id].is_collidable() by {
                if resets@.contains(id) && pruned[id] is Enemy {
                    crate::entities::lemma_spawned_asteroid_wf(settled_map[id]->Enemy_0, id, w0.bounds);
                }
            }
        }
        self.collidables = retain_live(&self.collidables, &self.entities);
        self.drawables = retain_live(&self.drawables, &self.entities);
        self.score = score;
        self.over = self.over || over;
        proof {
            let v = self@;
            assert(v.entities == settled_map);
            assert forall|id: EntityId| #[trigger] v.entities.contains_key(id) implies id < v.next_id by {
                assert(w0.entities.contains_key(id));
            }
            assert forall|k: int| 0 <= k < v.collidables.len() implies {
                &&& v.entities.contains_key(#[trigger] v.collidables[k])
                &&& v.entities[v.collidables[k]].is_collidable()
            } by {
                let x = v.collidables[k];
                assert(v.collidables.contains(x));
                assert(w0.collidables.contains(x));
                let j = choose|j: int| 0 <= j < w0.collidables.len() && w0.collidables[j] == x;
                assert(w0.entities[w0.collidables[j]].is_collidable());
            }
            assert forall|id: EntityId| #[trigger] v.entities.contains_key(id) <==> v.drawables.contains(id) by {
                if v.entities.contains_key(id) {
                    assert(w0.entities.contains_key(id));
                }
            }
        }
    }
}


impl World {
    /// Adds a background star at a random place of the field.
    pub fn new_star(&mut self, velocity: i64) -> (id: EntityId)
        requires
            old(self)@.wf(),
            old(self)@.next_id < u64::MAX,
            speed_ok(velocity as int),
        ensures
            final(self)@.wf(),
            id == old(self)@.next_id,
            final(self)@.entities == old(self)@.entities.insert(id, final(self)@.entities[id]),
            final(self)@.entities[id] is Star,
            ({
                let st = final(self)@.entities[id]->Star_0;
                &&& st.velocity == velocity
                &&& 0 <= st.pos.x < old(self)@.bounds.width
                &&& 0 <= st.pos.y < old(self)@.bounds.height
                &&& st.color.r == 245 && st.color.g == 245 && st.color.b == 245
                &&& 100 <= st.color.a < 255
            }),
            final(self)@.drawables == old(self)@.drawables.push(id),
            final(self)@.collidables == old(self)@.collidables,
            final(self)@.bounds == old(self)@.bounds,
            final(self)@.player == old(self)@.player,
            final(self)@.next_id == old(self)@.next_id + 1,
            final(self)@.score == old(self)@.score,
            final(self)@.over == old(self)@.over,
    {
        let st = Star::new(velocity, &self.bounds);
        self.spawn(Entity::Star(st))
    }

    /// Adds the player's ship and makes it the ship that fires.
    pub fn new_player(&mut self) -> (id: EntityId)
        requires
            old(self)@.wf(),
            old(self)@.next_id < u64::MAX,
        ensures
            final(self)@.wf(),
            id == old(self)@.next_id,
            final(self)@.player == Some(id),
            final(self)@.entities == old(self)@.entities.insert(
                id,
                Entity::Player(Player::initial(old(self)@.bounds)),
            ),
            final(self)@.drawables == old(self)@.drawables.push(id),
            final(self)@.collidables == old(self)@.collidables.push(id),
            final(self)@.bounds == old(self)@.bounds,
            final(self)@.next_id == old(self)@.next_id + 1,
            final(self)@.score == old(self)@.score,
            final(self)@.over == old(self)@.over,
    {
        let p = Player::new(&self.bounds);
        let id = self.spawn(Entity::Player(p));
        self.player_id = Some(id);
        id
    }

    /// Adds a projectile whose bottom-left corner is at (`x`, `y`).
    pub fn new_lazer(&mut self, x: i64, y: i64) -> (id: EntityId)
        requires
            old(self)@.wf(),
            old(self)@.next_id < u64::MAX,
            pos_ok(x as int),
            pos_ok(y as int),
            pos_ok(y - LAZER_HEIGHT),
        ensures
            final(self)@.wf(),
            id == old(self)@.next_id,
            final(self)@.entities == old(self)@.entities.insert(id, lazer_at(id, x as int, y as int)),
            final(self)@.drawables == old(self)@.drawables.push(id),
            final(self)@.collidables == old(self)@.collidables.push(id),
            final(self)@.bounds == old(self)@.bounds,
            final(self)@.player == old(self)@.player,
            final(self)@.next_id == old(self)@.next_id + 1,
            final(self)@.score == old(self)@.score,
            final(self)@.over == old(self)@.over,
    {
        let l = Lazer::new(self.id_count, x, y);
        self.spawn(Entity::Projectile(l))
    }

    /// Adds an indestructible barrier occupying `rect`.
    pub fn new_barrier(&mut self, rect: Rect) -> (id: EntityId)
        requires
            old(self)@.wf(),
            old(self)@.next_id < u64::MAX,
            body_ok(rect),
        ensures
            final(self)@.wf(),
            id == old(self)@.next_id,
            final(self)@.entities == old(self)@.entities.insert(id, Entity::Indestructible(Barrier { rect })),
            final(self)@.drawables == old(self)@.drawables.push(id),
            final(self)@.collidables == old(self)@.collidables.push(id),
            final(self)@.bounds == old(self)@.bounds,
            final(self)@.player == old(self)@.player,
            final(self)@.next_id == old(self)@.next_id + 1,
            final(self)@.score == old(self)@.score,
            final(self)@.over == old(self)@.over,
    {
        self.spawn(Entity::Indestructible(Barrier { rect }))
    }

    /// The player fires three projectiles from the top edge of the ship.
    pub fn fire(&mut self)
        requires
            old(self)@.wf(),
            old(self)@.next_id < u64::MAX - 3,
        ensures
            final(self)@.wf(),
            fire_result(old(self)@, final(self)@),
    {
        let rect = match self.player_id {
            Some(pid) => match self.entities.get(&pid) {
                Some(Entity::Player(p)) => Some(p.rect),
                _ => None,
            },
            None => None,
        };
        if let Some(r) = rect {
            proof {
                let pid = self.player_id->0;
                assert(entity_ok(self.bounds, pid, self.entities@[pid]));
            }
            self.new_lazer(r.x + r.width / 3, r.y);
            self.new_lazer(r.x + r.width / 2, r.y);
            self.new_lazer(r.x + r.width - r.width / 3, r.y);
        }
    }

    /// Advances every body by one tick of `dt` milliseconds.
    pub fn update_entities(&mut self, input: Input, dt: i64)
        requires
            old(self)@.wf(),
            0 <= dt <= MAX_FRAME_MS,
        ensures
            final(self)@.wf(),
            update_result(old(self)@, final(self)@, input, dt as int),
    {
        let ghost w0 = self@;
        let mut k: usize = 0;
        while k < self.drawables.len()
            invariant
                0 <= k <= self.drawables@.len(),
                0 <= dt <= MAX_FRAME_MS,
                w0.wf(),
                self@ == (WorldView { entities: self@.entities, ..w0 }),
                self.entities@.dom() == w0.entities.dom(),
                entities_ok(w0.bounds, self.entities@),
                forall|id: EntityId| #[trigger] self.entities@.contains_key(id)
                    ==> self.entities@[id].is_collidable() == w0.entities[id].is_collidable(),
                forall|id: EntityId| #[trigger] w0.entities.contains_key(id) ==> if w0.drawables.take(k as int).contains(id) {
                    updated(w0.entities[id], self.entities@[id], input, dt as int, w0.bounds)
                } else {
                    self.entities@[id] == w0.entities[id]
                },
            decreases self.drawables@.len() - k,
        {
            let id = self.drawables[k];
            proof {
                assert(w0.drawables[k as int] == id);
                assert(w0.drawables.contains(id));
                assert(w0.entities.contains_key(id));
                assert(entity_ok(w0.bounds, id, self.entities@[id]));
                assert(!w0.drawables.take(k as int).contains(id)) by {
                    if w0.drawables.take(k as int).contains(id) {
                        let j = choose|j: int| 0 <= j < k && w0.drawables.take(k as int)[j] == id;
                        assert(w0.drawables[j] == w0.drawables[k as int]);
                    }
                }
                assert(w0.drawables.take(k + 1) =~= w0.drawables.take(k as int).push(id));
                assert forall|x: EntityId| true implies (w0.drawables.take(k + 1).contains(x) <==> (w0.drawables.take(k as int).contains(x) || x == id)) by {
                    lemma_push_contains(w0.drawables.take(k as int), id, x);
                }
            }
            let mut e = *self.entities.get(&id).unwrap();
            e.update(input, dt, &self.bounds);
            self.entities.insert(id, e);
            k = k + 1;
        }
        proof {
            assert(w0.drawables.take(k as int) =~= w0.drawables);
            assert forall|x: EntityId| #[trigger] self.entities@.contains_key(x) implies self@.drawables.contains(x) <==> self@.entities.contains_key(x) by {}
            assert forall|j: int| 0 <= j < self@.collidables.len() implies {
                &&& self@.entities.contains_key(#[trigger] self@.collidables[j])
                &&& self@.entities[self@.collidables[j]].is_collidable()
            } by {
                assert(w0.entities.contains_key(w0.collidables[j]));
            }
        }
    }

    /// One tick of the game: unless it is over, fire if asked, run the
    /// collision sweep, then advance every body by `dt` milliseconds.
    pub fn tick(&mut self, input: Input, fire: bool, dt: i64)
        requires
            old(self)@.wf(),
            old(self)@.next_id < u64::MAX - 3,
            0 <= dt <= MAX_FRAME_MS,
        ensures
            final(self)@.wf(),
            old(self)@.over ==> final(self)@ == old(self)@,
            !old(self)@.over ==> exists|fired: WorldView, swept: WorldView| {
                &&& (if fire { fire_result(old(self)@, fired) } else { fired == old(self)@ })
                &&& sweep_result(fired, swept)
                &&& update_result(swept, final(self)@, input, dt as int)
            },
    {
        if self.over {
            return;
        }
        if fire {
            self.fire();
        }
        let ghost fired = self@;
        self.check_collisions();
        let ghost swept = self@;
        self.update_entities(input, dt);
        assert(update_result(swept, self@, input, dt as int));
    }
}

impl Player {
    /// The ship as [`Player::new`] builds it for the field `bounds`.
    pub open spec fn initial(bounds: Bounds) -> Player {
        Player {
            rect: Rect {
                x: (bounds.width / 2 - crate::entities::PLAYER_SIZE / 2) as i64,
                y: (bounds.height - crate::entities::PLAYER_SIZE - crate::entities::PLAYER_MARGIN) as i64,
                width: crate::entities::PLAYER_SIZE,
                height: crate::entities::PLAYER_SIZE,
            },
            acceleration: crate::entities::PLAYER_ACCELERATION,
            friction: crate::entities::PLAYER_FRICTION,
            max_velocity: crate::entities::PLAYER_MAX_VELOCITY,
            velocity: crate::geometry::Point { x: 0, y: 0 },
        }
    }
}


/// Number of asteroids in play.
pub const ENEMY_MAX: u64 = 10;

/// Number of far (slow) and near (fast) background stars.
pub const FAR_STARS: u64 = 5000;
pub const NEAR_STARS: u64 = 1000;

/// Drift speeds of the far and near stars.
pub const FAR_STAR_SPEED: i64 = 500;
pub const NEAR_STAR_SPEED: i64 = 1000;

impl World {
    /// Fills the field for a new game: the far stars, then the near stars,
    /// then the player's ship, then the asteroids, each under the next
    /// identifier in turn.
    pub fn setup(&mut self)
        requires
            old(self)@.wf(),
            old(self)@.next_id + FAR_STARS + NEAR_STARS + 1 + ENEMY_MAX < u64::MAX,
        ensures
            final(self)@.wf(),
            ({
                let n = old(self)@.next_id as int;
                let m = final(self)@.entities;
                &&& final(self)@.next_id == n + FAR_STARS + NEAR_STARS + 1 + ENEMY_MAX
                &&& forall|id: EntityId| #[trigger] m.contains_key(id) <==> (old(self)@.entities.contains_key(id) || n <= id < final(self)@.next_id)
                &&& forall|id: EntityId| #[trigger] old(self)@.entities.contains_key(id) ==> m[id] == old(self)@.entities[id]
                &&& forall|id: EntityId| n <= id < n + FAR_STARS ==> #[trigger] m[id] is Star && m[id]->Star_0.velocity == FAR_STAR_SPEED
                &&& forall|id: EntityId| n + FAR_STARS <= id < n + FAR_STARS + NEAR_STARS ==> #[trigger] m[id] is Star && m[id]->Star_0.velocity == NEAR_STAR_SPEED
                &&& final(self)@.player == Some((n + FAR_STARS + NEAR_STARS) as EntityId)
                &&& m[(n + FAR_STARS + NEAR_STARS) as EntityId] == Entity::Player(Player::initial(old(self)@.bounds))
                &&& forall|id: EntityId| n + FAR_STARS + NEAR_STARS + 1 <= id < final(self)@.next_id ==> #[trigger] m[id] is Enemy && asteroid_spawned(m[id]->Enemy_0, id, old(self)@.bounds)
            }),
            final(self)@.bounds == old(self)@.bounds,
            final(self)@.score == old(self)@.score,
            final(self)@.over == old(self)@.over,
    {
        let ghost w0 = self@;
        let ghost n = w0.next_id as int;
        let mut k: u64 = 0;
        while k < FAR_STARS + NEAR_STARS
            invariant
                0 <= k <= FAR_STARS + NEAR_STARS,
                self@.wf(),
                w0.wf(),
                self@.bounds == w0.bounds,
                self@.score == w0.score,
                self@.over == w0.over,
                self@.player == w0.player,
                n == w0.next_id,
                n + FAR_STARS + NEAR_STARS + 1 + ENEMY_MAX < u64::MAX,
                self@.next_id == n + k,
                forall|id: EntityId| #[trigger] self@.entities.contains_key(id) <==> (w0.entities.contains_key(id) || n <= id < n + k),
                forall|id: EntityId| #[trigger] w0.entities.contains_key(id) ==> self@.entities[id] == w0.entities[id],
                forall|id: EntityId| n <= id < n + k && id < n + FAR_STARS ==> #[trigger] self@.entities[id] is Star && self@.entities[id]->Star_0.velocity == FAR_STAR_SPEED,
                forall|id: EntityId| n + FAR_STARS <= id < n + k ==> #[trigger] self@.entities[id] is Star && self@.entities[id]->Star_0.velocity == NEAR_STAR_SPEED,
            decreases FAR_STARS + NEAR_STARS - k,
        {
            let speed = if k < FAR_STARS {
                FAR_STAR_SPEED
            } else {
                NEAR_STAR_SPEED
            };
            self.new_star(speed);
            k = k + 1;
        }
        let pid = self.new_player();
        let mut k: u64 = 0;
        while k < ENEMY_MAX
            invariant
                0 <= k <= ENEMY_MAX,
                self@.wf(),
                w0.wf(),
                self@.bounds == w0.bounds,
                self@.score == w0.score,
                self@.over == w0.over,
                self@.player == Some(pid),
                pid == n + FAR_STARS + NEAR_STARS,
                n == w0.next_id,
                n + FAR_STARS + NEAR_STARS + 1 + ENEMY_MAX < u64::MAX,
                self@.next_id == pid + 1 + k,
                forall|id: EntityId| #[trigger] self@.entities.contains_key(id) <==> (w0.entities.contains_key(id) || n <= id < pid + 1 + k),
                forall|id: EntityId| #[trigger] w0.entities.contains_key(id) ==> self@.entities[id] == w0.entities[id],
                forall|id: EntityId| n <= id < n + FAR_STARS ==> #[trigger] self@.entities[id] is Star && self@.entities[id]->Star_0.velocity == FAR_STAR_SPEED,
                forall|id: EntityId| n + FAR_STARS <= id < n + FAR_STARS + NEAR_STARS ==> #[trigger] self@.entities[id] is Star && self@.entities[id]->Star_0.velocity == NEAR_STAR_SPEED,
                self@.entities[pid] == Entity::Player(Player::initial(w0.bounds)),
                forall|id: EntityId| pid + 1 <= id < pid + 1 + k ==> #[trigger] self@.entities[id] is Enemy && asteroid_spawned(self@.entities[id]->Enemy_0, id, w0.bounds),
            decreases ENEMY_MAX - k,
        {
            self.new_asteroid();
            k = k + 1;
        }
    }

    /// The body under `id`, if it is live.
    pub fn entity(&self, id: EntityId) -> (r: Option<Entity>)
        ensures
            r == (if self@.entities.contains_key(id) {
                Some(self@.entities[id])
            } else {
                None
            }),
    {
        match self.entities.get(&id) {
            Some(e) => Some(*e),
            None => None,
        }
    }

    /// The collidable bodies, in sweep order.
    pub fn collidables(&self) -> (r: Vec<EntityId>)
        ensures
            r@ == self@.collidables,
    {
        self.collidables.clone()
    }

    /// Every live body, in order of creation.
    pub fn drawables(&self) -> (r: Vec<EntityId>)
        ensures
            r@ == self@.drawables,
    {
        self.drawables.clone()
    }

    pub fn score(&self) -> (r: u64)
        ensures
            r == self@.score,
    {
        self.score
    }

    pub fn is_over(&self) -> (r: bool)
        ensures
            r == self@.over,
    {
        self.over
    }

    pub fn bounds(&self) -> (r: Bounds)
        ensures
            r == self@.bounds,
    {
        self.bounds
    }

    pub fn player_id(&self) -> (r: Option<EntityId>)
        ensures
            r == self@.player,
    {
        self.player_id
    }

    /// The identifier the next body will get.
    pub fn next_id(&self) -> (r: EntityId)
        ensures
            r == self@.next_id,
    {
        self.id_count
    }
}

} // verus!
