use cix::{
    cix_jump_sys, coyote_granted, thrust_after, CixGrounded, CixJumpState, CixLastGrounded,
    JumpPush, Vec2, ONE, PIXELS_PER_METER,
};

const NOW: i64 = 10_000_000;
const EPS: i64 = 1;

fn idle() -> CixJumpState {
    CixJumpState::default()
}

fn ground() -> (CixGrounded, CixLastGrounded) {
    (CixGrounded(true), CixLastGrounded(None))
}

fn air(left: i64) -> (CixGrounded, CixLastGrounded) {
    (CixGrounded(false), CixLastGrounded(Some(left)))
}

#[test]
fn jump_constants() {
    assert_eq!(CixJumpState::DURATION, 400_000);
    assert_eq!(CixJumpState::BUFFER_TIME, 140_000);
    assert_eq!(CixJumpState::COYOTE_TIME, 100_000);
    assert_eq!(CixJumpState::COYOTE_COOLDOWN, 300_000);
    assert_eq!(CixJumpState::LAUNCH, 50_000_000);
    assert_eq!(CixJumpState::THRUST, 840_000_000);
    assert_eq!(CixJumpState::LAUNCH, CixJumpState::IMPULSE * PIXELS_PER_METER / ONE);
    assert_eq!(CixJumpState::THRUST, CixJumpState::FORCE * PIXELS_PER_METER / ONE);
}

#[test]
fn coyote_grace_and_cooldown() {
    let mut state = idle();
    assert!(coyote_granted(&state, CixLastGrounded(Some(NOW - 100_000)), NOW));
    assert!(!coyote_granted(&state, CixLastGrounded(Some(NOW - 100_001)), NOW));
    assert!(!coyote_granted(&state, CixLastGrounded(None), NOW));
    assert!(coyote_granted(&state, CixLastGrounded(Some(NOW + 5)), NOW));
    state.last_jump_time = Some(NOW - 300_000);
    assert!(!coyote_granted(&state, CixLastGrounded(Some(NOW)), NOW));
    state.last_jump_time = Some(NOW - 300_001);
    assert!(coyote_granted(&state, CixLastGrounded(Some(NOW)), NOW));
}

#[test]
fn thrust_is_the_cube_of_what_is_left() {
    assert_eq!(thrust_after(0), 840_000_000);
    assert_eq!(thrust_after(200_000), 105_000_000);
    assert_eq!(thrust_after(399_999), 0);
    assert_eq!(thrust_after(1), 839_994_960);
    assert_eq!(thrust_after(i128::MAX), 0);
    assert_eq!(thrust_after(i128::MIN), 840_000_000);
}

#[test]
fn press_on_the_ground_jumps() {
    let mut state = idle();
    let (g, l) = ground();
    let push = cix_jump_sys(&mut state, true, true, g, l, NOW);
    assert_eq!(push, JumpPush::Impulse(Vec2::new(0, 50_000_000)));
    assert_eq!(state.jump_time, Some(NOW));
    assert_eq!(state.last_jump_time, Some(NOW));
    assert_eq!(state.buffer_time, None);
}

#[test]
fn press_within_coyote_time_jumps() {
    let mut state = idle();
    let (g, l) = air(NOW - (CixJumpState::COYOTE_TIME - EPS));
    let push = cix_jump_sys(&mut state, true, true, g, l, NOW);
    assert_eq!(push, JumpPush::Impulse(Vec2::new(0, 50_000_000)));
    assert_eq!(state.jump_time, Some(NOW));
    assert_eq!(state.last_jump_time, Some(NOW));
    assert_eq!(state.buffer_time, None);
}

#[test]
fn press_at_exactly_coyote_time_jumps() {
    let mut state = idle();
    let (g, l) = air(NOW - CixJumpState::COYOTE_TIME);
    let push = cix_jump_sys(&mut state, true, true, g, l, NOW);
    assert_eq!(push, JumpPush::Impulse(Vec2::new(0, 50_000_000)));
}

#[test]
fn press_after_coyote_time_is_buffered() {
    let mut state = idle();
    let (g, l) = air(NOW - (CixJumpState::COYOTE_TIME + EPS));
    let push = cix_jump_sys(&mut state, true, true, g, l, NOW);
    assert_eq!(push, JumpPush::Rest);
    assert_eq!(state.jump_time, None);
    assert_eq!(state.last_jump_time, None);
    assert_eq!(state.buffer_time, Some(NOW));
}

#[test]
fn press_in_the_air_without_a_ground_record_is_buffered() {
    let mut state = idle();
    let push =
        cix_jump_sys(&mut state, true, true, CixGrounded(false), CixLastGrounded(None), NOW);
    assert_eq!(push, JumpPush::Rest);
    assert_eq!(state.buffer_time, Some(NOW));
}

#[test]
fn coyote_jump_waits_for_the_cooldown() {
    let mut state = idle();
    state.last_jump_time = Some(NOW - CixJumpState::COYOTE_COOLDOWN);
    let (g, l) = air(NOW - 50_000);
    let push = cix_jump_sys(&mut state, true, true, g, l, NOW);
    assert_eq!(push, JumpPush::Rest);
    assert_eq!(state.buffer_time, Some(NOW));
    assert_eq!(state.last_jump_time, Some(NOW - CixJumpState::COYOTE_COOLDOWN));

    let mut later = idle();
    later.last_jump_time = Some(NOW - CixJumpState::COYOTE_COOLDOWN - EPS);
    let push = cix_jump_sys(&mut later, true, true, g, l, NOW);
    assert_eq!(push, JumpPush::Impulse(Vec2::new(0, 50_000_000)));
    assert_eq!(later.last_jump_time, Some(NOW));
}

#[test]
fn the_cooldown_does_not_hold_back_a_jump_from_the_ground() {
    let mut state = idle();
    state.last_jump_time = Some(NOW - 1);
    let (g, l) = ground();
    let push = cix_jump_sys(&mut state, true, true, g, l, NOW);
    assert_eq!(push, JumpPush::Impulse(Vec2::new(0, 50_000_000)));
}

#[test]
fn buffered_press_jumps_on_landing() {
    let mut state = idle();
    let (g, l) = air(NOW - 500_000);
    cix_jump_sys(&mut state, true, true, g, l, NOW);
    assert_eq!(state.buffer_time, Some(NOW));
    let push = cix_jump_sys(&mut state, true, false, g, l, NOW + 70_000);
    assert_eq!(push, JumpPush::Rest);
    let (g, l) = ground();
    let landed = NOW + CixJumpState::BUFFER_TIME;
    let push = cix_jump_sys(&mut state, true, false, g, l, landed);
    assert_eq!(push, JumpPush::Impulse(Vec2::new(0, 50_000_000)));
    assert_eq!(state.jump_time, Some(landed));
    assert_eq!(state.last_jump_time, Some(landed));
}

#[test]
fn buffered_press_expires() {
    let mut state = idle();
    state.buffer_time = Some(NOW - CixJumpState::BUFFER_TIME - EPS);
    let (g, l) = ground();
    let push = cix_jump_sys(&mut state, true, false, g, l, NOW);
    assert_eq!(push, JumpPush::Rest);
    assert_eq!(state.jump_time, None);
}

#[test]
fn holding_without_a_press_does_nothing() {
    let mut state = idle();
    let (g, l) = ground();
    let push = cix_jump_sys(&mut state, true, false, g, l, NOW);
    assert_eq!(push, JumpPush::Rest);
    assert_eq!(state, idle());
}

#[test]
fn held_jump_thrust_eases_out() {
    let mut state = idle();
    state.jump_time = Some(NOW);
    state.last_jump_time = Some(NOW);
    let (g, l) = air(NOW);
    let at = |state: &mut CixJumpState, elapsed: i64| {
        cix_jump_sys(state, true, false, g, l, NOW + elapsed)
    };
    assert_eq!(at(&mut state, 0), JumpPush::Force(Vec2::new(0, 840_000_000)));
    assert_eq!(at(&mut state, 100_000), JumpPush::Force(Vec2::new(0, 354_375_000)));
    assert_eq!(at(&mut state, 200_000), JumpPush::Force(Vec2::new(0, 105_000_000)));
    assert_eq!(at(&mut state, 300_000), JumpPush::Force(Vec2::new(0, 13_125_000)));
    assert_eq!(at(&mut state, 400_000), JumpPush::Force(Vec2::new(0, 0)));
    assert_eq!(at(&mut state, 4_000_000), JumpPush::Force(Vec2::new(0, 0)));
    assert_eq!(at(&mut state, -5), JumpPush::Force(Vec2::new(0, 840_000_000)));
    assert_eq!(state.jump_time, Some(NOW));
}

#[test]
fn held_jump_ignores_a_new_press() {
    let mut state = idle();
    state.jump_time = Some(NOW);
    state.last_jump_time = Some(NOW);
    let (g, l) = ground();
    let push = cix_jump_sys(&mut state, true, true, g, l, NOW + 200_000);
    assert_eq!(push, JumpPush::Force(Vec2::new(0, 105_000_000)));
    assert_eq!(state.jump_time, Some(NOW));
    assert_eq!(state.buffer_time, None);
}

#[test]
fn release_clears_the_jump_and_the_buffer() {
    let mut state = CixJumpState {
        jump_time: Some(NOW),
        last_jump_time: Some(NOW),
        buffer_time: Some(NOW - 5),
    };
    let (g, l) = ground();
    let push = cix_jump_sys(&mut state, false, false, g, l, NOW + 100_000);
    assert_eq!(push, JumpPush::Rest);
    assert_eq!(state.jump_time, None);
    assert_eq!(state.buffer_time, None);
    assert_eq!(state.last_jump_time, Some(NOW));
}
