use asteroids::response::elastic_collision_1d;

#[test]
fn equal_masses_exchange_velocities() {
    assert_eq!(elastic_collision_1d(10, 3, 10, -2), (-2, 3));
}

#[test]
fn light_body_against_a_wall_at_rest() {
    assert_eq!(elastic_collision_1d(1, 0, 1_000_000_000, 0), (0, 0));
}

#[test]
fn unequal_masses_follow_the_elastic_formula() {
    assert_eq!(elastic_collision_1d(2, 4, 6, 0), (-2, 2));
}

#[test]
fn results_round_toward_zero() {
    // v1' = -5/3, v2' = 10/3
    assert_eq!(elastic_collision_1d(1, 5, 2, 0), (-1, 3));
    assert_eq!(elastic_collision_1d(1, -5, 2, 0), (1, -3));
}

#[test]
fn light_body_bounces_off_heavy_one() {
    // v1' = (-999*300 + 2000*1)/1001 = -297.4..., v2' = (999*1 + 2*300)/1001 = 1.59...
    assert_eq!(elastic_collision_1d(1, 300, 1000, 1), (-297, 1));
}
