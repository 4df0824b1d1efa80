use asteroids::collidable::{check_collision, Collidable};
use asteroids::entities::{Asteroid, Barrier, Color, Lazer, Player};
use asteroids::geometry::{
    check_collision_circle_rec, check_collision_circle_triangle, check_collision_circles,
    check_collision_recs, check_collision_rect_triangle, distance_squared, intersects,
    point_in_triangle, point_to_segment_distance_sq, Circle, CollisionType, Point, Rect, Triangle,
    COORD_LIMIT, RECT_LIMIT,
};

fn pt(x: i64, y: i64) -> Point {
    Point { x, y }
}

fn rect(x: i64, y: i64, width: i64, height: i64) -> Rect {
    Rect { x, y, width, height }
}

fn circle(x: i64, y: i64, radius: i64) -> Circle {
    Circle { center: pt(x, y), radius }
}

#[test]
fn circles_within_reach_collide() {
    assert!(check_collision_circles(&circle(0, 0, 5), &circle(8, 0, 4)));
}

#[test]
fn circles_out_of_reach_do_not_collide() {
    assert!(!check_collision_circles(&circle(0, 0, 5), &circle(11, 0, 4)));
}

#[test]
fn circles_touching_collide() {
    assert!(check_collision_circles(&circle(0, 0, 5), &circle(9, 0, 4)));
    assert!(!check_collision_circles(&circle(0, 0, 5), &circle(10, 0, 4)));
}

#[test]
fn circle_test_is_symmetric() {
    let cases = [
        (circle(0, 0, 5), circle(8, 0, 4)),
        (circle(0, 0, 5), circle(11, 0, 4)),
        (circle(-3, 7, 2), circle(1, 4, 3)),
        (circle(100, 100, 0), circle(100, 100, 0)),
    ];
    for (a, b) in cases.iter() {
        assert_eq!(check_collision_circles(a, b), check_collision_circles(b, a));
    }
}

#[test]
fn circle_boxes_through_the_oracle() {
    // A 10x10 box stands for a circle of radius 5 at (0, 0); an 8x8 box for one of radius 4.
    let a = rect(-5, -5, 10, 10);
    let near = rect(4, -4, 8, 8);
    let far = rect(7, -4, 8, 8);
    assert!(intersects(&a, CollisionType::Circle, &near, CollisionType::Circle));
    assert!(!intersects(&a, CollisionType::Circle, &far, CollisionType::Circle));
}

#[test]
fn oracle_is_symmetric_for_every_kind_pair() {
    let kinds = [CollisionType::Circle, CollisionType::Rectangle, CollisionType::Triangle];
    let boxes = [
        rect(0, 0, 10, 10),
        rect(5, 5, 10, 10),
        rect(11, 0, 7, 3),
        rect(-20, -20, 5, 9),
        rect(9, 9, 1, 1),
    ];
    for a in boxes.iter() {
        for b in boxes.iter() {
            for ka in kinds.iter() {
                for kb in kinds.iter() {
                    if *ka == CollisionType::Triangle && *kb == CollisionType::Triangle {
                        continue;
                    }
                    assert_eq!(intersects(a, *ka, b, *kb), intersects(b, *kb, a, *ka));
                }
            }
        }
    }
}

#[test]
fn overlapping_boxes_collide() {
    assert!(check_collision_recs(&rect(0, 0, 10, 10), &rect(5, 5, 10, 10)));
    assert!(intersects(&rect(0, 0, 10, 10), CollisionType::Rectangle, &rect(5, 5, 10, 10), CollisionType::Rectangle));
}

#[test]
fn distant_boxes_do_not_collide() {
    assert!(!check_collision_recs(&rect(0, 0, 10, 10), &rect(20, 20, 10, 10)));
    assert!(!intersects(&rect(0, 0, 10, 10), CollisionType::Rectangle, &rect(20, 20, 10, 10), CollisionType::Rectangle));
}

#[test]
fn boxes_sharing_an_edge_do_not_collide() {
    assert!(!check_collision_recs(&rect(0, 0, 10, 10), &rect(10, 0, 10, 10)));
}

#[test]
fn circle_and_box() {
    let b = rect(0, 0, 10, 10);
    assert!(check_collision_circle_rec(&circle(5, 5, 1), &b));
    assert!(check_collision_circle_rec(&circle(13, 5, 3), &b));
    assert!(!check_collision_circle_rec(&circle(14, 5, 3), &b));
    // Near a corner the distance to the corner decides: (13, 14) is 5 away from (10, 10).
    assert!(check_collision_circle_rec(&circle(13, 14, 5), &b));
    assert!(!check_collision_circle_rec(&circle(13, 14, 4), &b));
}

#[test]
fn circle_at_centroid_with_zero_radius_is_inside() {
    let t = Triangle { a: pt(0, 0), b: pt(6, 0), c: pt(3, 9) };
    assert!(point_in_triangle(pt(3, 3), &t));
    assert!(check_collision_circle_triangle(&circle(3, 3, 0), &t));
}

#[test]
fn circle_far_from_triangle_does_not_collide() {
    let t = Triangle { a: pt(0, 0), b: pt(6, 0), c: pt(3, 9) };
    assert!(!check_collision_circle_triangle(&circle(100, 100, 5), &t));
}

#[test]
fn circle_reaching_an_edge_collides() {
    let t = Triangle { a: pt(0, 0), b: pt(6, 0), c: pt(3, 9) };
    assert!(check_collision_circle_triangle(&circle(3, -2, 2), &t));
    assert!(!check_collision_circle_triangle(&circle(3, -2, 1), &t));
}

#[test]
fn circle_reaching_a_vertex_collides() {
    let t = Triangle { a: pt(0, 0), b: pt(6, 0), c: pt(3, 9) };
    // (-3, -4) is 5 away from the vertex (0, 0) and farther from everything else.
    assert!(check_collision_circle_triangle(&circle(-3, -4, 5), &t));
    assert!(!check_collision_circle_triangle(&circle(-3, -4, 4), &t));
}

#[test]
fn point_on_triangle_boundary_counts_as_inside() {
    let t = Triangle { a: pt(0, 0), b: pt(6, 0), c: pt(3, 9) };
    assert!(point_in_triangle(pt(3, 0), &t));
    assert!(point_in_triangle(pt(0, 0), &t));
    assert!(!point_in_triangle(pt(3, -1), &t));
}

#[test]
fn triangle_inside_box_collides() {
    let b = rect(0, 0, 100, 100);
    let t = Triangle { a: pt(10, 90), b: pt(90, 90), c: pt(50, 10) };
    assert!(check_collision_rect_triangle(&b, &t));
}

#[test]
fn triangle_beside_box_corner_does_not_collide() {
    // The triangle's bounding box [5, 20] x [5, 20] overlaps the box, but its
    // long edge x + y = 25 passes beyond the box corner (10, 10).
    let b = rect(0, 0, 10, 10);
    let t = Triangle { a: pt(5, 20), b: pt(20, 5), c: pt(20, 20) };
    assert!(check_collision_recs(&b, &rect(5, 5, 15, 15)));
    assert!(!check_collision_rect_triangle(&b, &t));
}

#[test]
fn triangle_crossing_box_edge_collides() {
    let b = rect(0, 0, 10, 10);
    let t = Triangle { a: pt(5, 20), b: pt(20, 5), c: pt(2, 2) };
    assert!(check_collision_rect_triangle(&b, &t));
}

#[test]
fn squared_distance() {
    assert_eq!(distance_squared(pt(0, 0), pt(3, 4)), 25);
    assert_eq!(distance_squared(pt(-1, -1), pt(2, 3)), 25);
}

#[test]
fn segment_distance_inside_the_span() {
    let (num, den) = point_to_segment_distance_sq(pt(0, 5), pt(-10, 0), pt(10, 0));
    assert!(den > 0);
    assert_eq!(num, 25 * den);
}

#[test]
fn segment_distance_past_an_end() {
    assert_eq!(point_to_segment_distance_sq(pt(13, 4), pt(-10, 0), pt(10, 0)), (25, 1));
    assert_eq!(point_to_segment_distance_sq(pt(-13, -4), pt(-10, 0), pt(10, 0)), (25, 1));
}

#[test]
fn segment_of_zero_length_is_a_point() {
    assert_eq!(point_to_segment_distance_sq(pt(3, 4), pt(0, 0), pt(0, 0)), (25, 1));
}

#[test]
fn triangle_edges_keep_winding() {
    let t = Triangle { a: pt(0, 0), b: pt(6, 0), c: pt(3, 9) };
    let e = t.edges();
    assert_eq!(e[0], (pt(0, 0), pt(6, 0)));
    assert_eq!(e[1], (pt(6, 0), pt(3, 9)));
    assert_eq!(e[2], (pt(3, 9), pt(0, 0)));
}

#[test]
fn shapes_from_a_box_at_twice_the_scale() {
    let b = rect(1, 2, 5, 7);
    assert_eq!(Circle::from_rect(&b), circle(7, 11, 5));
    let t = Triangle::from_rect(&b);
    assert_eq!(t.a, pt(2, 18));
    assert_eq!(t.b, pt(12, 18));
    assert_eq!(t.c, pt(7, 4));
}

#[test]
fn triangle_box_against_circle_box() {
    // The ship's triangle points up: a circle just left of its apex misses it,
    // while it would hit the ship's bounding box.
    let ship = rect(0, 0, 60, 60);
    let rock = rect(-8, -8, 16, 16);
    assert!(intersects(&ship, CollisionType::Rectangle, &rock, CollisionType::Circle));
    assert!(!intersects(&ship, CollisionType::Triangle, &rock, CollisionType::Circle));
    let centered = rect(22, -8, 16, 16);
    assert!(intersects(&ship, CollisionType::Triangle, &centered, CollisionType::Circle));
}

#[test]
fn collidable_bodies_use_their_kinds() {
    let rock = Asteroid {
        id: 1,
        rect: rect(-8, -8, 16, 16),
        velocity: pt(0, 0),
        mass: 4,
        rotation: 0,
        rotation_velocity: 0,
        color: Color { r: 200, g: 240, b: 250, a: 255 },
    };
    let ship = Player {
        rect: rect(0, 0, 60, 60),
        acceleration: 0,
        friction: 0,
        max_velocity: 0,
        velocity: pt(0, 0),
    };
    let wall = Barrier { rect: rect(0, 0, 60, 60) };
    let shot = Lazer { id: 2, rect: rect(20, 20, 2, 45), color: Color { r: 230, g: 41, b: 55, a: 255 }, speed: 0 };
    assert_eq!(ship.collision_type(), CollisionType::Triangle);
    assert_eq!(rock.collision_type(), CollisionType::Circle);
    assert_eq!(wall.collision_type(), CollisionType::Rectangle);
    assert_eq!(shot.rect(), rect(20, 20, 2, 45));
    assert!(!check_collision(&ship, &rock));
    assert!(check_collision(&wall, &rock));
    assert!(check_collision(&shot, &wall));
}

#[test]
fn degenerate_triangle_is_a_point() {
    // Every triangle edge has zero length: its axes separate nothing, and the
    // box axes alone decide.
    let b = rect(0, 0, 10, 10);
    let inside = Triangle { a: pt(5, 5), b: pt(5, 5), c: pt(5, 5) };
    let outside = Triangle { a: pt(15, 5), b: pt(15, 5), c: pt(15, 5) };
    assert!(check_collision_rect_triangle(&b, &inside));
    assert!(!check_collision_rect_triangle(&b, &outside));
}

#[test]
fn boxes_at_the_coordinate_limit() {
    let big = rect(-RECT_LIMIT, -RECT_LIMIT, 2 * RECT_LIMIT, 2 * RECT_LIMIT);
    let corner = rect(RECT_LIMIT - 1, RECT_LIMIT - 1, 1, 1);
    let kinds = [CollisionType::Circle, CollisionType::Rectangle, CollisionType::Triangle];
    for ka in kinds.iter() {
        for kb in kinds.iter() {
            if *ka == CollisionType::Triangle && *kb == CollisionType::Triangle {
                continue;
            }
            assert_eq!(intersects(&big, *ka, &corner, *kb), intersects(&corner, *kb, &big, *ka));
        }
    }
    assert!(intersects(&big, CollisionType::Rectangle, &corner, CollisionType::Rectangle));
    // The corner box lies outside the circle inscribed in the big box.
    assert!(!intersects(&big, CollisionType::Circle, &corner, CollisionType::Circle));
    let far = circle(COORD_LIMIT, COORD_LIMIT, COORD_LIMIT);
    let near = circle(-COORD_LIMIT, -COORD_LIMIT, COORD_LIMIT);
    assert!(!check_collision_circles(&far, &near));
    let t = Triangle { a: pt(-COORD_LIMIT, COORD_LIMIT), b: pt(COORD_LIMIT, COORD_LIMIT), c: pt(0, -COORD_LIMIT) };
    assert!(check_collision_circle_triangle(&circle(COORD_LIMIT, -COORD_LIMIT, COORD_LIMIT), &t));
    assert!(!check_collision_circle_triangle(&circle(COORD_LIMIT, -COORD_LIMIT, 1), &t));
}
