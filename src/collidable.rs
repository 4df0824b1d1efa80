//! Bodies that expose a bounding box and a shape kind to the shape oracle.
use vstd::prelude::*;
use crate::entities::{Asteroid, Barrier, Lazer, Player};
use crate::geometry::{intersects, shapes_intersect, CollisionType, Rect};

verus! {

pub trait Collidable {
    spec fn bounds_of(&self) -> Rect;

    spec fn kind_of(&self) -> CollisionType;

    fn rect(&self) -> (r: Rect)
        ensures
            r == self.bounds_of(),
    ;

    fn collision_type(&self) -> (k: CollisionType)
        ensures
            k == self.kind_of(),
    ;

}

/// Whether two bodies overlap, by the test their kinds call for.
pub fn check_collision<A: Collidable, B: Collidable>(a: &A, b: &B) -> (r: bool)
    requires
        a.bounds_of().wf(),
        b.bounds_of().wf(),
        !(a.kind_of() == CollisionType::Triangle && b.kind_of() == CollisionType::Triangle),
    ensures
        r == shapes_intersect(a.bounds_of(), a.kind_of(), b.bounds_of(), b.kind_of()),
{
    intersects(&a.rect(), a.collision_type(), &b.rect(), b.collision_type())
}

impl Collidable for Player {
    open spec fn bounds_of(&self) -> Rect {
        self.rect
    }

    open spec fn kind_of(&self) -> CollisionType {
        CollisionType::Triangle
    }

    fn rect(&self) -> (r: Rect) {
        self.rect
    }

    fn collision_type(&self) -> (k: CollisionType) {
        CollisionType::Triangle
    }
}

impl Collidable for Lazer {
    open spec fn bounds_of(&self) -> Rect {
        self.rect
    }

    open spec fn kind_of(&self) -> CollisionType {
        CollisionType::Rectangle
    }

    fn rect(&self) -> (r: Rect) {
        self.rect
    }

    fn collision_type(&self) -> (k: CollisionType) {
        CollisionType::Rectangle
    }
}

impl Collidable for Barrier {
    open spec fn bounds_of(&self) -> Rect {
        self.rect
    }

    open spec fn kind_of(&self) -> CollisionType {
        CollisionType::Rectangle
    }

    fn rect(&self) -> (r: Rect) {
        self.rect
    }

    fn collision_type(&self) -> (k: CollisionType) {
        CollisionType::Rectangle
    }
}

impl Collidable for Asteroid {
    open spec fn bounds_of(&self) -> Rect {
        self.rect
    }

    open spec fn kind_of(&self) -> CollisionType {
        CollisionType::Circle
    }

    fn rect(&self) -> (r: Rect) {
        self.rect
    }

    fn collision_type(&self) -> (k: CollisionType) {
        CollisionType::Circle
    }
}

} // verus!
