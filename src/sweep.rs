//! The model of one collision sweep: every unordered pair of collidable
//! bodies, in the order of the collidable list, tested and resolved in turn.
use vstd::prelude::*;
use crate::entities::{after_collision, collision_events, entities_collide, Entity, EntityId};
use crate::world::lemma_push_contains;
use crate::events::Event;

verus! {

/// Points scored for each projectile that strikes an asteroid.
pub const SCORE_PER_HIT: u64 = 100;

/// What a sweep has done so far. Removals and resets are only recorded
/// here; they are carried out once the sweep is over.
pub struct SweepState {
    pub entities: Map<EntityId, Entity>,
    pub destroyed: Seq<EntityId>,
    pub resets: Seq<EntityId>,
    pub score: int,
    pub over: bool,
}

/// `id` still takes part in this sweep: it names a body that is neither
/// destroyed nor waiting to be reset.
pub open spec fn live(s: SweepState, id: EntityId) -> bool {
    &&& s.entities.contains_key(id)
    &&& !s.destroyed.contains(id)
    &&& !s.resets.contains(id)
}

pub open spec fn add_score(score: int) -> int {
    if score + SCORE_PER_HIT > u64::MAX {
        u64::MAX as int
    } else {
        score + SCORE_PER_HIT
    }
}

pub open spec fn apply_event(s: SweepState, ev: Event) -> SweepState {
    match ev {
        Event::EntityDestroyed(id) => SweepState { destroyed: s.destroyed.push(id), ..s },
        Event::ResetAsteroid(id) => SweepState { resets: s.resets.push(id), ..s },
        Event::ScoreIncreased => SweepState { score: add_score(s.score), ..s },
        Event::GameOver => SweepState { over: true, ..s },
    }
}

pub open spec fn apply_events(s: SweepState, evs: Seq<Event>) -> SweepState
    decreases evs.len(),
{
    if evs.len() == 0 {
        s
    } else {
        apply_event(apply_events(s, evs.drop_last()), evs.last())
    }
}

/// Tests and resolves the pair (`id1`, `id2`): nothing happens unless both
/// are live and meet; if they do, both take their state after the meeting
/// and the events it announces are recorded in order.
pub open spec fn pair_step(s: SweepState, id1: EntityId, id2: EntityId) -> SweepState {
    if s.over || id1 == id2 || !live(s, id1) || !live(s, id2) {
        s
    } else {
        let e1 = s.entities[id1];
        let e2 = s.entities[id2];
        if !entities_collide(e1, e2) {
            s
        } else {
            let (n1, n2) = after_collision(e1, e2);
            apply_events(
                SweepState { entities: s.entities.insert(id1, n1).insert(id2, n2), ..s },
                collision_events(e1, e2),
            )
        }
    }
}

/// The sweep over the pairs (i, j), i < j, of `ids` in lexicographic order,
/// from the pair (`i`, `j`) on. It stops at the end of the game.
pub open spec fn sweep_from(s: SweepState, ids: Seq<EntityId>, i: int, j: int) -> SweepState
    decreases ids.len() - i, ids.len() - j,
{
    if i < 0 || i >= ids.len() || s.over {
        s
    } else if j >= ids.len() {
        sweep_from(s, ids, i + 1, i + 2)
    } else {
        sweep_from(pair_step(s, ids[i], ids[j]), ids, i, j + 1)
    }
}

/// The whole sweep of the collidable list `ids` over `entities`, starting
/// from `score`.
pub open spec fn sweep(entities: Map<EntityId, Entity>, ids: Seq<EntityId>, score: int) -> SweepState {
    sweep_from(
        SweepState { entities, destroyed: Seq::empty(), resets: Seq::empty(), score, over: false },
        ids,
        0,
        1,
    )
}


/// Every body of `m` that carries an identifier carries its own key.
pub open spec fn own_ids_consistent(m: Map<EntityId, Entity>) -> bool {
    forall|id: EntityId| #[trigger]
        m.contains_key(id) ==> (m[id].own_id() is Some ==> m[id].own_id()->0 == id)
}

/// What holds of a sweep in progress that began at score `init`.
pub open spec fn sweep_sound(s: SweepState, init: int) -> bool {
    &&& own_ids_consistent(s.entities)
    &&& s.destroyed.no_duplicates()
    &&& s.resets.no_duplicates()
    &&& forall|id: EntityId| #[trigger] s.destroyed.contains(id) ==> s.entities.contains_key(id)
    &&& forall|id: EntityId| #[trigger] s.resets.contains(id) ==> s.entities.contains_key(id)
    &&& init <= s.score <= u64::MAX
    &&& s.score <= init + SCORE_PER_HIT * s.destroyed.len()
}

proof fn lemma_push_fresh(q: Seq<EntityId>, x: EntityId)
    requires
        q.no_duplicates(),
        !q.contains(x),
    ensures
        q.push(x).no_duplicates(),
        forall|y: EntityId| #[trigger] q.push(x).contains(y) <==> (q.contains(y) || y == x),
{
    assert forall|a: int, b: int|
        0 <= a < q.push(x).len() && 0 <= b < q.push(x).len() && a != b implies q.push(x)[a]
        != q.push(x)[b] by {
        if a == q.len() {
            assert(q.contains(q[b]));
        } else if b == q.len() {
            assert(q.contains(q[a]));
        }
    }
    assert forall|y: EntityId| #[trigger] q.push(x).contains(y) <==> (q.contains(y) || y == x) by {
        lemma_push_contains(q, x, y);
    }
}

proof fn lemma_pair_step_sound(s: SweepState, id1: EntityId, id2: EntityId, init: int)
    requires
        sweep_sound(s, init),
    ensures
        sweep_sound(pair_step(s, id1, id2), init),
{
    if s.over || id1 == id2 || !live(s, id1) || !live(s, id2) {
    } else {
        let e1 = s.entities[id1];
        let e2 = s.entities[id2];
        if entities_collide(e1, e2) {
            let (n1, n2) = after_collision(e1, e2);
            let s1 = SweepState { entities: s.entities.insert(id1, n1).insert(id2, n2), ..s };
            assert(own_ids_consistent(s1.entities));
            assert(sweep_sound(s1, init));
            let evs = collision_events(e1, e2);
            assert(evs.len() <= 3);
            assert(apply_events(s1, Seq::<Event>::empty()) == s1);
            match (e1, e2) {
                (Entity::Projectile(l), Entity::Enemy(a)) | (Entity::Enemy(a), Entity::Projectile(l)) => {
                    let t1 = apply_event(s1, Event::ScoreIncreased);
                    let t2 = apply_event(t1, Event::ResetAsteroid(a.id));
                    let t3 = apply_event(t2, Event::EntityDestroyed(l.id));
                    let d1 = seq![Event::ScoreIncreased, Event::ResetAsteroid(a.id)];
                    let d2 = seq![Event::ScoreIncreased];
                    assert(evs.drop_last() =~= d1);
                    assert(d1.drop_last() =~= d2);
                    assert(d2.drop_last() =~= Seq::<Event>::empty());
                    assert(d2.last() == Event::ScoreIncreased);
                    assert(d1.last() == Event::ResetAsteroid(a.id));
                    assert(evs.last() == Event::EntityDestroyed(l.id));
                    assert(apply_events(s1, d2) == t1);
                    assert(apply_events(s1, d1) == t2);
                    assert(apply_events(s1, evs) == t3);
                    lemma_push_fresh(s1.resets, a.id);
                    lemma_push_fresh(s1.destroyed, l.id);
                    assert(sweep_sound(t3, init));
                },
                (Entity::Projectile(l1), Entity::Projectile(l2)) => {
                    let t1 = apply_event(s1, Event::EntityDestroyed(l1.id));
                    let t2 = apply_event(t1, Event::EntityDestroyed(l2.id));
                    let d1 = seq![Event::EntityDestroyed(l1.id)];
                    assert(evs.drop_last() =~= d1);
                    assert(d1.drop_last() =~= Seq::<Event>::empty());
                    assert(d1.last() == Event::EntityDestroyed(l1.id));
                    assert(evs.last() == Event::EntityDestroyed(l2.id));
                    assert(apply_events(s1, d1) == t1);
                    assert(apply_events(s1, evs) == t2);
                    lemma_push_fresh(s1.destroyed, l1.id);
                    lemma_push_fresh(t1.destroyed, l2.id);
                    assert(sweep_sound(t2, init));
                },
                (Entity::Indestructible(_), Entity::Projectile(l))
                | (Entity::Projectile(l), Entity::Indestructible(_)) => {
                    assert(evs.drop_last() =~= Seq::<Event>::empty());
                    assert(evs.last() == Event::EntityDestroyed(l.id));
                    assert(apply_events(s1, evs) == apply_event(s1, Event::EntityDestroyed(l.id)));
                    lemma_push_fresh(s1.destroyed, l.id);
                    assert(sweep_sound(apply_events(s1, evs), init));
                },
                (Entity::Player(_), Entity::Enemy(_)) | (Entity::Enemy(_), Entity::Player(_)) => {
                    assert(evs.drop_last() =~= Seq::<Event>::empty());
                    assert(evs.last() == Event::GameOver);
                    assert(apply_events(s1, evs) == apply_event(s1, Event::GameOver));
                    assert(sweep_sound(apply_events(s1, evs), init));
                },
                _ => {
                    assert(evs =~= Seq::<Event>::empty());
                },
            }
        }
    }
}

proof fn lemma_sweep_from_sound(s: SweepState, ids: Seq<EntityId>, i: int, j: int, init: int)
    requires
        sweep_sound(s, init),
    ensures
        sweep_sound(sweep_from(s, ids, i, j), init),
    decreases ids.len() - i, ids.len() - j,
{
    if i < 0 || i >= ids.len() || s.over {
    } else if j >= ids.len() {
        lemma_sweep_from_sound(s, ids, i + 1, i + 2, init);
    } else {
        lemma_pair_step_sound(s, ids[i], ids[j], init);
        lemma_sweep_from_sound(pair_step(s, ids[i], ids[j]), ids, i, j + 1, init);
    }
}

/// A sweep is safe under removal: no body is destroyed twice and no asteroid
/// is reset twice, only bodies of the registry are destroyed or reset, and
/// the score grows by at most one hit for each destroyed body.
pub proof fn lemma_sweep_removal_safe(entities: Map<EntityId, Entity>, ids: Seq<EntityId>, score: u64)
    requires
        own_ids_consistent(entities),
    ensures
        ({
            let s = sweep(entities, ids, score as int);
            &&& s.destroyed.no_duplicates()
            &&& s.resets.no_duplicates()
            &&& forall|id: EntityId| #[trigger] s.destroyed.contains(id) ==> entities.contains_key(id)
            &&& forall|id: EntityId| #[trigger] s.resets.contains(id) ==> entities.contains_key(id)
            &&& score <= s.score <= score + SCORE_PER_HIT * s.destroyed.len()
        }),
{
    let s0 = SweepState { entities, destroyed: Seq::empty(), resets: Seq::empty(), score: score as int, over: false };
    lemma_sweep_from_sound(s0, ids, 0, 1, score as int);
    lemma_sweep_keeps_keys(s0, ids, 0, 1);
}

proof fn lemma_sweep_keeps_keys(s: SweepState, ids: Seq<EntityId>, i: int, j: int)
    ensures
        sweep_from(s, ids, i, j).entities.dom() == s.entities.dom(),
    decreases ids.len() - i, ids.len() - j,
{
    if i < 0 || i >= ids.len() || s.over {
    } else if j >= ids.len() {
        lemma_sweep_keeps_keys(s, ids, i + 1, i + 2);
    } else {
        let t = pair_step(s, ids[i], ids[j]);
        if !(s.over || ids[i] == ids[j] || !live(s, ids[i]) || !live(s, ids[j])) && entities_collide(s.entities[ids[i]], s.entities[ids[j]]) {
            lemma_events_keep_entities(
                SweepState { entities: s.entities.insert(ids[i], after_collision(s.entities[ids[i]], s.entities[ids[j]]).0).insert(ids[j], after_collision(s.entities[ids[i]], s.entities[ids[j]]).1), ..s },
                collision_events(s.entities[ids[i]], s.entities[ids[j]]),
            );
            assert(t.entities.dom() =~= s.entities.dom());
        }
        lemma_sweep_keeps_keys(t, ids, i, j + 1);
    }
}

proof fn lemma_events_keep_entities(s: SweepState, evs: Seq<Event>)
    ensures
        apply_events(s, evs).entities == s.entities,
    decreases evs.len(),
{
    if evs.len() > 0 {
        lemma_events_keep_entities(s, evs.drop_last());
    }
}

} // verus!
