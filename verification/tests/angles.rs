use cix::ext::{AngleExt, LerpExt, FULL_TURN, HALF_TURN};
use cix::fixed::{Vec2, ONE};

const DEG: i64 = 1_000_000;

fn midpoint_gap(from: i64, turn: i64, wall: i64) -> i64 {
    let up = (2 * wall - 2 * from - turn).rem_euclid(2 * FULL_TURN);
    if up <= FULL_TURN {
        up
    } else {
        2 * FULL_TURN - up
    }
}

fn other_way(turn: i64) -> i64 {
    if turn > 0 {
        turn - FULL_TURN
    } else {
        turn + FULL_TURN
    }
}

#[test]
fn wrap_brings_angles_into_one_turn() {
    assert_eq!((-90 * DEG).angle_wrap(), 270 * DEG);
    assert_eq!(FULL_TURN.angle_wrap(), 0);
    assert_eq!((725 * DEG).angle_wrap(), 5 * DEG);
    assert_eq!((-1i64).angle_wrap(), FULL_TURN - 1);
    assert_eq!(0i64.angle_wrap(), 0);
    assert_eq!(i64::MIN.angle_wrap(), i64::MIN.rem_euclid(FULL_TURN));
    assert_eq!(i64::MAX.angle_wrap(), i64::MAX.rem_euclid(FULL_TURN));
}

#[test]
fn forward_and_backward_distances_are_plain_differences() {
    assert_eq!((10 * DEG).angle_forward_dst(350 * DEG), 340 * DEG);
    assert_eq!((350 * DEG).angle_forward_dst(10 * DEG), 340 * DEG);
    assert_eq!((10 * DEG).angle_backward_dst(350 * DEG), 20 * DEG);
    assert_eq!((10 * DEG).angle_backward_dst(10 * DEG), FULL_TURN);
}

#[test]
fn dist_is_the_shorter_arc() {
    assert_eq!((10 * DEG).angle_dist(350 * DEG), 20 * DEG);
    assert_eq!((350 * DEG).angle_dist(10 * DEG), 20 * DEG);
    assert_eq!((0i64).angle_dist(HALF_TURN), HALF_TURN);
    assert_eq!((45 * DEG).angle_dist(45 * DEG + 3 * FULL_TURN), 0);
    assert_eq!((-170 * DEG).angle_dist(170 * DEG), 20 * DEG);
}

#[test]
fn signed_dist_is_positive_counter_clockwise() {
    assert_eq!((10 * DEG).angle_signed_dist(30 * DEG), 20 * DEG);
    assert_eq!((30 * DEG).angle_signed_dist(10 * DEG), -20 * DEG);
    assert_eq!((350 * DEG).angle_signed_dist(10 * DEG), 20 * DEG);
    assert_eq!((10 * DEG).angle_signed_dist(350 * DEG), -20 * DEG);
    assert_eq!((0i64).angle_signed_dist(HALF_TURN), HALF_TURN);
    assert_eq!(HALF_TURN.angle_signed_dist(0), HALF_TURN);
    assert_eq!((0i64).angle_signed_dist(HALF_TURN + 1), -(HALF_TURN - 1));
    assert_eq!((77 * DEG).angle_signed_dist(77 * DEG), 0);
}

#[test]
fn move_toward_takes_the_shorter_way() {
    assert_eq!((10 * DEG).angle_move_toward(350 * DEG, 5 * DEG), 5 * DEG);
    assert_eq!((350 * DEG).angle_move_toward(10 * DEG, 5 * DEG), 355 * DEG);
    assert_eq!((370 * DEG).angle_move_toward(40 * DEG, 5 * DEG), 15 * DEG);
}

#[test]
fn move_toward_lands_on_a_near_target() {
    assert_eq!((10 * DEG).angle_move_toward(20 * DEG, 30 * DEG), 20 * DEG);
    assert_eq!((10 * DEG).angle_move_toward(380 * DEG, 11 * DEG), 380 * DEG);
    assert_eq!((10 * DEG).angle_move_toward(20 * DEG, 10 * DEG), 20 * DEG);
}

#[test]
fn move_toward_an_opposite_angle_steps_outward() {
    assert_eq!((0i64).angle_move_toward(HALF_TURN, 10 * DEG), -10 * DEG);
    assert_eq!(HALF_TURN.angle_move_toward(0, 10 * DEG), 190 * DEG);
}

#[test]
fn clamp_range_leaves_an_angle_inside_the_cone() {
    assert_eq!((45 * DEG).angle_clamp_range(0, 90 * DEG), 45 * DEG);
    assert_eq!((-45 * DEG).angle_clamp_range(0, 90 * DEG), -45 * DEG);
    assert_eq!((90 * DEG).angle_clamp_range(0, 90 * DEG), 90 * DEG);
    assert_eq!((100 * DEG).angle_clamp_range(0, 105 * DEG), 100 * DEG);
}

#[test]
fn clamp_range_turns_an_angle_outside_onto_the_edge() {
    assert_eq!((170 * DEG).angle_clamp_range(0, 90 * DEG), 90 * DEG);
    assert_eq!((-170 * DEG).angle_clamp_range(0, 90 * DEG), 270 * DEG);
    assert_eq!((10 * DEG).angle_clamp_range(HALF_TURN, 120 * DEG), 60 * DEG);
    assert_eq!((170 * DEG).angle_clamp_range(0, 90 * DEG).angle_dist(0), 90 * DEG);
    assert_eq!((-170 * DEG).angle_clamp_range(0, 90 * DEG).angle_dist(0), 90 * DEG);
}

#[test]
fn clamp_range_with_a_negative_range_gives_the_centre() {
    assert_eq!((170 * DEG).angle_clamp_range(33 * DEG, -1), 33 * DEG);
}

#[test]
fn dist_avoid_of_equal_angles_is_zero() {
    assert_eq!((40 * DEG).angle_dist_avoid(40 * DEG, 100 * DEG), 0);
    assert_eq!((40 * DEG).angle_dist_avoid(400 * DEG, 100 * DEG), 0);
    assert_eq!((40 * DEG).angle_dist_avoid(40 * DEG, 40 * DEG), 0);
}

#[test]
fn dist_avoid_takes_the_short_arc_when_the_wall_is_elsewhere() {
    assert_eq!((0i64).angle_dist_avoid(10 * DEG, 20 * DEG), 10 * DEG);
    assert_eq!((10 * DEG).angle_dist_avoid(350 * DEG, 180 * DEG), -20 * DEG);
    assert_eq!((350 * DEG).angle_dist_avoid(10 * DEG, 180 * DEG), 20 * DEG);
}

#[test]
fn dist_avoid_goes_the_long_way_round_a_wall_on_the_short_arc() {
    assert_eq!((10 * DEG).angle_dist_avoid(350 * DEG, 0), 340 * DEG);
    assert_eq!((350 * DEG).angle_dist_avoid(10 * DEG, 0), -340 * DEG);
    assert_eq!((0i64).angle_dist_avoid(100 * DEG, 50 * DEG), -260 * DEG);
}

#[test]
fn dist_avoid_never_crosses_a_wall_near_the_start_of_a_long_arc() {
    assert_eq!((0i64).angle_dist_avoid(300 * DEG, 30 * DEG), -60 * DEG);
    assert_eq!((0i64).angle_dist_avoid(300 * DEG, 100 * DEG), -60 * DEG);
    assert_eq!((0i64).angle_dist_avoid(300 * DEG, 299 * DEG), -60 * DEG);
    assert_eq!((0i64).angle_dist_avoid(300 * DEG, 330 * DEG), 300 * DEG);
}

#[test]
fn dist_avoid_with_the_wall_on_an_end_points_away_from_the_target() {
    assert_eq!((0i64).angle_dist_avoid(90 * DEG, 0), -90 * DEG);
    assert_eq!((0i64).angle_dist_avoid(90 * DEG, 90 * DEG), -90 * DEG);
    assert_eq!((0i64).angle_dist_avoid(270 * DEG, 0), 90 * DEG);
    assert_eq!((0i64).angle_dist_avoid(HALF_TURN, 0), -HALF_TURN);
}

#[test]
fn dist_avoid_reaches_the_target_and_misses_the_wall() {
    let step = 15 * DEG;
    let mut from = 0;
    while from < FULL_TURN {
        let mut to = 0;
        while to < FULL_TURN {
            let mut wall = 5 * DEG;
            while wall < FULL_TURN {
                let turn = from.angle_dist_avoid(to, wall);
                assert!(turn.abs() < FULL_TURN);
                assert_eq!((from + turn).angle_wrap(), to);
                let side = if turn < 0 { -1 } else { 1 };
                let mut k = side * DEG;
                while k.abs() < turn.abs() {
                    assert_ne!((from + k).angle_wrap(), wall);
                    k += side * DEG;
                }
                wall += step;
            }
            to += step;
        }
        from += step;
    }
}

#[test]
fn dist_avoid_detour_keeps_its_midpoint_away_from_the_wall() {
    let step = 15 * DEG;
    let mut from = 0;
    while from < FULL_TURN {
        let mut to = 0;
        while to < FULL_TURN {
            let mut wall = 5 * DEG;
            while wall < FULL_TURN {
                let turn = from.angle_dist_avoid(to, wall);
                let here = midpoint_gap(from, turn, wall);
                let there = midpoint_gap(from, other_way(turn), wall);
                assert_eq!(here + there, FULL_TURN);
                if turn.abs() >= HALF_TURN || there <= HALF_TURN {
                    assert!(here >= there);
                }
                wall += step;
            }
            to += step;
        }
        from += step;
    }
}

#[test]
fn dist_avoid_midpoint_of_a_short_arc_may_be_near_the_wall() {
    let turn = (0i64).angle_dist_avoid(10 * DEG, 20 * DEG);
    assert_eq!(turn, 10 * DEG);
    assert_eq!(midpoint_gap(0, turn, 20 * DEG), 30 * DEG);
    assert_eq!(midpoint_gap(0, other_way(turn), 20 * DEG), 330 * DEG);
}

#[test]
fn lerp_blends_numbers() {
    assert_eq!(10i64.lerp(20, ONE / 2), 15);
    assert_eq!(10i64.lerp(20, 0), 10);
    assert_eq!(10i64.lerp(20, ONE), 20);
    assert_eq!(20i64.lerp(10, ONE / 4), 18);
    assert_eq!(0i64.lerp(-7, ONE / 2), -3);
    assert_eq!(0i64.lerp(7, ONE / 2), 3);
    assert_eq!(10i64.lerp(20, 2 * ONE), 30);
    assert_eq!(10i64.lerp(20, -ONE), 0);
}

#[test]
fn lerp_blends_vectors() {
    let a = Vec2::new(0, 100);
    let b = Vec2::new(10, -100);
    assert_eq!(a.lerp(b, ONE / 2), Vec2::new(5, 0));
    assert_eq!(a.lerp(b, 0), a);
    assert_eq!(a.lerp(b, ONE), b);
}
