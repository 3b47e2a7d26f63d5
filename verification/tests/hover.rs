use cix::{
    cix_move_sys, cix_pre_update_sys, cix_update_sys, Cix, CixGrounded, CixHovered,
    CixLastGrounded, ShapeHit, Vec2, ONE,
};

struct Ground {
    grounded: CixGrounded,
    last: CixLastGrounded,
    hovered: CixHovered,
}

fn airborne() -> Ground {
    Ground {
        grounded: CixGrounded(false),
        last: CixLastGrounded(Some(1_000_000)),
        hovered: CixHovered(false),
    }
}

fn standing() -> Ground {
    Ground { grounded: CixGrounded(true), last: CixLastGrounded(None), hovered: CixHovered(true) }
}

fn tick(g: &mut Ground, toi: Option<i64>, vel_y: i64, now: i64) -> Option<Vec2> {
    let hit = toi.map(|toi| ShapeHit { toi, witness_y: -toi - 1 });
    cix_update_sys(&mut g.grounded, &mut g.last, &mut g.hovered, hit, 0, vel_y, now)
}

#[test]
fn hover_constants() {
    assert_eq!(Cix::HOVER_RAY, 90 * ONE);
    assert_eq!(Cix::HOVER_TOLERANCE, 10 * ONE);
    assert_eq!(Cix::HOVER_ACCEL, 9_810_000);
    assert_eq!(cix::CIX_MOVE_SPEED, cix::CIX_MOVE_VEL * cix::PIXELS_PER_METER / ONE);
}

#[test]
fn hit_at_exactly_hover_range_grounds() {
    let mut g = airborne();
    let force = tick(&mut g, Some(Cix::HOVER_RAY), 0, 5_000_000);
    assert_eq!(g.grounded, CixGrounded(true));
    assert_eq!(g.last, CixLastGrounded(None));
    assert_eq!(g.hovered, CixHovered(true));
    assert_eq!(force, Some(Vec2::new(0, 98_100_000)));
}

#[test]
fn hit_just_beyond_hover_range_hovers_without_grounding() {
    let mut g = standing();
    let force = tick(&mut g, Some(Cix::HOVER_RAY + 1), 0, 5_000_000);
    assert_eq!(g.grounded, CixGrounded(false));
    assert_eq!(g.last, CixLastGrounded(Some(5_000_000)));
    assert_eq!(g.hovered, CixHovered(true));
    assert_eq!(force, Some(Vec2::new(0, 98_099_990)));
}

#[test]
fn hit_at_the_end_of_the_tolerance_still_hovers() {
    let mut g = standing();
    let force = tick(&mut g, Some(Cix::HOVER_RAY + Cix::HOVER_TOLERANCE), 0, 7);
    assert_eq!(g.grounded, CixGrounded(false));
    assert_eq!(g.hovered, CixHovered(true));
    assert_eq!(g.last, CixLastGrounded(Some(7)));
    assert_eq!(force, Some(Vec2::new(0, 0)));
}

#[test]
fn no_hit_is_airborne() {
    let mut g = standing();
    let force = tick(&mut g, None, -3 * ONE, 9_000_000);
    assert_eq!(g.grounded, CixGrounded(false));
    assert_eq!(g.hovered, CixHovered(false));
    assert_eq!(g.last, CixLastGrounded(Some(9_000_000)));
    assert_eq!(force, None);
}

#[test]
fn leaving_the_ground_is_stamped_once() {
    let mut g = standing();
    tick(&mut g, None, 0, 9_000_000);
    tick(&mut g, None, 0, 9_016_000);
    assert_eq!(g.last, CixLastGrounded(Some(9_000_000)));
    tick(&mut g, Some(95 * ONE), 0, 9_032_000);
    assert_eq!(g.last, CixLastGrounded(Some(9_000_000)));
    tick(&mut g, Some(80 * ONE), 0, 9_048_000);
    assert_eq!(g.last, CixLastGrounded(None));
    tick(&mut g, None, 0, 9_064_000);
    assert_eq!(g.last, CixLastGrounded(Some(9_064_000)));
}

#[test]
fn hover_force_is_a_spring_that_cancels_velocity() {
    let mut g = airborne();
    assert_eq!(tick(&mut g, Some(0), 0, 0), Some(Vec2::new(0, 981_000_000)));
    assert_eq!(tick(&mut g, Some(50 * ONE), 0, 0), Some(Vec2::new(0, 490_500_000)));
    assert_eq!(
        tick(&mut g, Some(50 * ONE), 100 * ONE, 0),
        Some(Vec2::new(0, 390_500_000))
    );
    assert_eq!(
        tick(&mut g, Some(50 * ONE), -100 * ONE, 0),
        Some(Vec2::new(0, 590_500_000))
    );
    assert_eq!(tick(&mut g, Some(99_999_999), 0, 0), Some(Vec2::new(0, 9)));
}

#[test]
fn a_hit_above_the_character_does_not_count() {
    let mut g = standing();
    let hit = Some(ShapeHit { toi: 10 * ONE, witness_y: 5 });
    let force = cix_update_sys(&mut g.grounded, &mut g.last, &mut g.hovered, hit, 5, 0, 42);
    assert_eq!(force, None);
    assert_eq!(g.grounded, CixGrounded(false));
    assert_eq!(g.hovered, CixHovered(false));
    assert_eq!(g.last, CixLastGrounded(Some(42)));
}

#[test]
fn pre_update_clears_force_and_impulse() {
    let mut force = Vec2::new(5, -7);
    let mut impulse = Vec2::new(1, 2);
    cix_pre_update_sys(&mut force, &mut impulse);
    assert_eq!(force, Vec2::new(0, 0));
    assert_eq!(impulse, Vec2::new(0, 0));
}

#[test]
fn move_force_closes_the_gap_to_the_wanted_speed() {
    assert_eq!(
        cix_move_sys(CixHovered(false), Some(ONE), 0),
        Some(Vec2::new(300 * ONE, 0))
    );
    assert_eq!(
        cix_move_sys(CixHovered(false), Some(-ONE), 50 * ONE),
        Some(Vec2::new(-350 * ONE, 0))
    );
    assert_eq!(
        cix_move_sys(CixHovered(true), Some(ONE / 2), 150 * ONE),
        Some(Vec2::new(0, 0))
    );
}

#[test]
fn move_brakes_only_while_hovering() {
    assert_eq!(cix_move_sys(CixHovered(true), Some(0), 80 * ONE), Some(Vec2::new(-80 * ONE, 0)));
    assert_eq!(cix_move_sys(CixHovered(false), Some(0), 80 * ONE), None);
    assert_eq!(cix_move_sys(CixHovered(true), None, 80 * ONE), None);
}
