use cix::{
    cix_check_alive_sys, cix_init_spawn_sys, cix_respawn_sys, cix_spawn, cix_update_spawn_sys,
    collide_sys, contains, death_announced, health_post_update_sys, health_update_sys, hover_filter,
    intersects, is_deadly, laser_damage, laser_filter, laser_shot, shoulder, timed_post_update_sys,
    timed_update_sys, CixArm, CixDirection, CixSpawn, CixStates, Collided, CollisionGroups,
    Contact, DeathEvent, GameStates, Health, LaserHit, Living, Timed, Vec2, CIX_HEALTH, GROUP_ALL,
    GROUP_BULLET, GROUP_CIX, GROUP_ENEMY, GROUP_GROUND, GROUP_STATIC, GROUP_STOP_PIERCE, ONE,
    PIXELS_PER_METER,
};

fn living(entity: u64, amount: i64, max: i64) -> Living {
    Living { entity, health: Health { amount, max } }
}

#[test]
fn new_health_is_full() {
    let health = Health::new(100 * ONE);
    assert_eq!(health.amount, 100 * ONE);
    assert_eq!(health.max, 100 * ONE);
    assert!(!health.dead());
}

#[test]
fn dead_at_zero_or_below() {
    assert!(Health { amount: 0, max: 5 }.dead());
    assert!(Health { amount: -1, max: 5 }.dead());
    assert!(!Health { amount: 1, max: 5 }.dead());
}

#[test]
fn damage_stops_at_zero() {
    let mut health = Health::new(100 * ONE);
    health.damage(30 * ONE);
    assert_eq!(health.amount, 70 * ONE);
    health.damage(80 * ONE);
    assert_eq!(health.amount, 0);
    assert_eq!(health.max, 100 * ONE);
    health.damage(i64::MAX);
    assert_eq!(health.amount, 0);
    health.damage(-5);
    assert_eq!(health.amount, 5);
    health.damage(i64::MIN);
    assert_eq!(health.amount, i64::MAX);
}

#[test]
fn update_cuts_health_down_to_the_maximum() {
    let mut world = vec![living(1, 120, 100), living(2, 100, 100), living(3, 1, 100)];
    let events = health_update_sys(&mut world);
    assert!(events.is_empty());
    assert_eq!(world, vec![living(1, 100, 100), living(2, 100, 100), living(3, 1, 100)]);
}

#[test]
fn update_announces_each_death_in_order() {
    let mut world =
        vec![living(4, 0, 100), living(2, 50, 100), living(9, -20, 100), living(1, 0, 100)];
    let events = health_update_sys(&mut world);
    assert_eq!(events, vec![DeathEvent(4), DeathEvent(9), DeathEvent(1)]);
    assert_eq!(
        world,
        vec![living(4, 0, 100), living(2, 50, 100), living(9, 0, 100), living(1, 0, 100)]
    );
}

#[test]
fn update_of_nothing_announces_nothing() {
    let mut world: Vec<Living> = Vec::new();
    assert!(health_update_sys(&mut world).is_empty());
    assert!(world.is_empty());
}

#[test]
fn post_update_removes_the_dead() {
    let mut world = vec![living(4, 0, 100), living(2, 50, 100), living(9, 0, 100)];
    health_post_update_sys(&mut world, &vec![DeathEvent(9), DeathEvent(4), DeathEvent(77)]);
    assert_eq!(world, vec![living(2, 50, 100)]);
    health_post_update_sys(&mut world, &Vec::new());
    assert_eq!(world, vec![living(2, 50, 100)]);
}

#[test]
fn death_announced_finds_an_event() {
    let events = vec![DeathEvent(3), DeathEvent(8)];
    assert!(death_announced(&events, 8));
    assert!(death_announced(&events, 3));
    assert!(!death_announced(&events, 5));
    assert!(!death_announced(&Vec::new(), 3));
}

#[test]
fn death_fires_once_and_respawn_restores_health() {
    let cix = 1u64;
    let mut body = cix_spawn();
    assert_eq!(body.health, Health::new(100 * ONE));
    let mut world = vec![Living { entity: cix, health: body.health }];
    let mut state = CixStates::Alive;

    let quiet = health_update_sys(&mut world);
    assert!(quiet.is_empty());
    assert_eq!(cix_check_alive_sys(&quiet, Some(cix)), None);

    world[0].health.damage(100 * ONE);
    assert_eq!(world[0].health.amount, 0);

    let mut deaths = 0;
    let mut waiting: Option<i64> = None;
    let mut now = 0;
    let mut tick = 0;
    while tick < 200 {
        now += 16_000;
        let events = health_update_sys(&mut world);
        deaths += events.len();
        if state == CixStates::Alive {
            if let Some(next) = cix_check_alive_sys(&events, Some(cix)) {
                state = next;
            }
        }
        health_post_update_sys(&mut world, &events);
        if tick == 0 {
            assert_eq!(events, vec![DeathEvent(cix)]);
            assert_eq!(state, CixStates::Dead);
        } else {
            assert!(events.is_empty());
        }
        assert!(world.is_empty());
        if state == CixStates::Dead {
            if let Some(next) = cix_respawn_sys(&mut waiting, now) {
                state = next;
                break;
            }
        }
        tick += 1;
    }
    assert_eq!(deaths, 1);
    assert_eq!(state, CixStates::Spawning);
    assert_eq!(now, 16_000 + 2_000_000);
    assert_eq!(waiting, None);

    let mut light = cix_init_spawn_sys();
    assert_eq!(cix_update_spawn_sys(light), None);
    light.advance(CixSpawn::TIME);
    assert_eq!(cix_update_spawn_sys(light), Some(CixStates::Alive));
    body = cix_spawn();
    world.push(Living { entity: 2, health: body.health });
    assert_eq!(world[0].health.amount, world[0].health.max);
    assert_eq!(world[0].health.amount, CIX_HEALTH);
    assert!(health_update_sys(&mut world).is_empty());
}

#[test]
fn four_shots_kill_the_character_sized_enemy() {
    let hit = LaserHit {
        entity: 5,
        toi: ONE,
        groups: Some(CollisionGroups::new(GROUP_ENEMY, GROUP_ALL)),
    };
    let shot = laser_shot(&vec![hit], 480 * ONE);
    let mut world = vec![living(5, 100 * ONE, 100 * ONE)];
    let mut shots = 0;
    while !world[0].health.dead() {
        laser_damage(&shot, &mut world);
        assert!(health_update_sys(&mut world).len() == if world[0].health.dead() { 1 } else { 0 });
        shots += 1;
    }
    assert_eq!(shots, 4);
    assert_eq!(world[0].health.amount, 0);
}

#[test]
fn check_alive_ignores_other_deaths() {
    let events = vec![DeathEvent(3), DeathEvent(8)];
    assert_eq!(cix_check_alive_sys(&events, Some(8)), Some(CixStates::Dead));
    assert_eq!(cix_check_alive_sys(&events, Some(9)), None);
    assert_eq!(cix_check_alive_sys(&events, None), None);
    assert_eq!(cix_check_alive_sys(&Vec::new(), Some(8)), None);
}

#[test]
fn respawn_waits_two_seconds() {
    let mut start = None;
    assert_eq!(cix_respawn_sys(&mut start, 5_000_000), None);
    assert_eq!(start, Some(5_000_000));
    assert_eq!(cix_respawn_sys(&mut start, 6_999_999), None);
    assert_eq!(start, Some(5_000_000));
    assert_eq!(cix_respawn_sys(&mut start, 7_000_000), Some(CixStates::Spawning));
    assert_eq!(start, None);
    assert_eq!(cix_respawn_sys(&mut start, 7_016_000), None);
    assert_eq!(start, Some(7_016_000));
}

#[test]
fn spawn_gives_a_fresh_character() {
    let body = cix_spawn();
    assert!(!body.grounded.0);
    assert_eq!(body.last_grounded.0, None);
    assert!(!body.hovered.0);
    assert_eq!(body.direction, CixDirection { right: true, progress: ONE });
    assert_eq!(body.health, Health { amount: 100 * ONE, max: 100 * ONE });
    assert_eq!(body.jump.jump_time, None);
    assert_eq!(body.groups, CollisionGroups::new(1, 0xFFFF_FFFE));
    assert_eq!(body.front_arm.0, None);
    assert_eq!(body.back_arm.0, None);
    assert_eq!(body.attack.at, Vec2::new(0, 0));
    assert_eq!(body.attack_state.shoot, 0);
    assert_eq!(shoulder(CixArm::Front), Vec2::new(-3 * ONE, -25 * ONE));
    assert_eq!(shoulder(CixArm::Back), Vec2::new(6 * ONE, -27 * ONE));
}

#[test]
fn states_start_at_their_first_stage() {
    assert_eq!(CixStates::default(), CixStates::Nonexistent);
    assert_eq!(GameStates::default(), GameStates::Loading);
    assert_eq!(PIXELS_PER_METER, 100 * ONE);
}

#[test]
fn timer_runs_forward() {
    let mut timed = Timed::new(2 * ONE);
    assert_eq!(timed, Timed { life: 0, lifetime: 2 * ONE, backwards: false, scale: ONE });
    assert_eq!(timed.fin(), 0);
    assert!(!timed.ended());
    timed.advance(500_000);
    assert_eq!(timed.life, 500_000);
    assert_eq!(timed.fin(), 250_000);
    assert_eq!(timed.fin_64(), 250_000);
    timed.advance(1_500_000);
    assert_eq!(timed.fin(), ONE);
    assert!(timed.ended());
    timed.advance(1_500_000);
    assert_eq!(timed.life, 3_500_000);
    assert_eq!(timed.fin(), ONE);
}

#[test]
fn timer_runs_backwards_and_scaled() {
    let mut timed = Timed { life: ONE, lifetime: 2 * ONE, backwards: true, scale: 2 * ONE };
    timed.advance(250_000);
    assert_eq!(timed.life, 500_000);
    assert_eq!(timed.fin(), 250_000);
    timed.advance(ONE);
    assert_eq!(timed.life, -1_500_000);
    assert_eq!(timed.fin(), 0);
    let mut slow = Timed { life: 0, lifetime: ONE, backwards: false, scale: ONE / 3 };
    slow.advance(10);
    assert_eq!(slow.life, 3);
}

#[test]
fn timer_saturates() {
    let mut timed = Timed { life: i64::MAX - 1, lifetime: 0, backwards: false, scale: i64::MAX };
    timed.advance(i64::MAX);
    assert_eq!(timed.life, i64::MAX);
    let mut back = Timed { life: i64::MIN + 1, lifetime: 0, backwards: true, scale: i64::MAX };
    back.advance(i64::MAX);
    assert_eq!(back.life, i64::MIN);
}

#[test]
fn timer_without_a_lifetime() {
    let timed = Timed::default();
    assert_eq!(timed, Timed { life: 0, lifetime: 0, backwards: false, scale: ONE });
    assert!(timed.ended());
    assert_eq!(timed.fin(), ONE);
    assert_eq!(Timed { life: -1, ..timed }.fin(), 0);
    assert_eq!(Timed { life: 1, ..timed }.fin(), ONE);
    let negative = Timed { life: -1, lifetime: -4, backwards: false, scale: ONE };
    assert_eq!(negative.fin(), 250_000);
    assert!(negative.ended());
}

#[test]
fn timed_update_moves_every_timer() {
    let mut all = vec![
        Timed::new(ONE),
        Timed { life: 10, lifetime: ONE, backwards: true, scale: ONE },
        Timed { life: 0, lifetime: ONE, backwards: false, scale: ONE / 2 },
    ];
    timed_update_sys(16_000, &mut all);
    assert_eq!(all[0].life, 16_000);
    assert_eq!(all[1].life, -15_990);
    assert_eq!(all[2].life, 8_000);
    assert_eq!(all[1].backwards, true);
    assert_eq!(all[2].scale, ONE / 2);
    timed_update_sys(16_000, &mut Vec::new());
}

#[test]
fn timed_post_update_removes_ended_timers() {
    let mut all = vec![
        Timed { life: 5, lifetime: 10, backwards: false, scale: ONE },
        Timed { life: 10, lifetime: 10, backwards: false, scale: ONE },
        Timed { life: 9, lifetime: 10, backwards: false, scale: ONE },
        Timed { life: 11, lifetime: 10, backwards: false, scale: ONE },
    ];
    timed_post_update_sys(&mut all);
    assert_eq!(
        all,
        vec![
            Timed { life: 5, lifetime: 10, backwards: false, scale: ONE },
            Timed { life: 9, lifetime: 10, backwards: false, scale: ONE },
        ]
    );
}

#[test]
fn group_sets() {
    assert!(contains(GROUP_STATIC | GROUP_STOP_PIERCE, GROUP_STOP_PIERCE));
    assert!(!contains(GROUP_STATIC, GROUP_STOP_PIERCE));
    assert!(contains(GROUP_ALL, GROUP_CIX | GROUP_GROUND));
    assert!(!contains(GROUP_CIX, GROUP_CIX | GROUP_GROUND));
    assert!(contains(GROUP_CIX, 0));
    assert!(intersects(GROUP_CIX | GROUP_GROUND, GROUP_GROUND));
    assert!(!intersects(GROUP_CIX, !GROUP_CIX));
    assert!(!intersects(GROUP_CIX, 0));
    assert_eq!(GROUP_BULLET, 1 << 29);
    assert_eq!(GROUP_STOP_PIERCE, 1 << 30);
    assert_eq!(GROUP_GROUND, 1 << 31);
    assert_eq!(laser_filter(), CollisionGroups::new(GROUP_BULLET, !GROUP_CIX));
    assert_eq!(
        hover_filter(CollisionGroups::new(GROUP_CIX, !GROUP_CIX)),
        CollisionGroups::new(GROUP_CIX, GROUP_GROUND)
    );
}

fn cix_contact() -> Contact {
    Contact {
        health: true,
        groups: Some(CollisionGroups::new(GROUP_CIX, !GROUP_CIX)),
        flower: false,
    }
}

fn gear() -> Contact {
    Contact {
        health: false,
        groups: Some(CollisionGroups::new(GROUP_STATIC | GROUP_STOP_PIERCE, GROUP_ALL)),
        flower: false,
    }
}

fn ground() -> Contact {
    Contact {
        health: false,
        groups: Some(CollisionGroups::new(GROUP_STOP_PIERCE | GROUP_GROUND, !GROUP_GROUND)),
        flower: false,
    }
}

fn flower() -> Contact {
    Contact {
        health: false,
        groups: Some(CollisionGroups::new(GROUP_STOP_PIERCE, GROUP_ALL)),
        flower: true,
    }
}

#[test]
fn touching_something_static_kills() {
    assert_eq!(collide_sys(cix_contact(), gear(), false), Collided::KillFirst);
    assert_eq!(collide_sys(gear(), cix_contact(), false), Collided::KillSecond);
    assert_eq!(collide_sys(cix_contact(), gear(), true), Collided::KillFirst);
    assert!(is_deadly(CollisionGroups::new(GROUP_CIX, !GROUP_CIX), gear().groups.unwrap()));
}

#[test]
fn touching_the_ground_does_nothing() {
    assert_eq!(collide_sys(cix_contact(), ground(), false), Collided::Nothing);
    assert_eq!(collide_sys(ground(), cix_contact(), false), Collided::Nothing);
}

#[test]
fn a_static_body_that_the_victim_does_not_meet_is_harmless() {
    let ghost = Contact {
        health: true,
        groups: Some(CollisionGroups::new(GROUP_CIX, GROUP_GROUND)),
        flower: false,
    };
    assert_eq!(collide_sys(ghost, gear(), false), Collided::Nothing);
    let shy = Contact {
        health: false,
        groups: Some(CollisionGroups::new(GROUP_STATIC, GROUP_ENEMY)),
        flower: false,
    };
    assert_eq!(collide_sys(cix_contact(), shy, false), Collided::Nothing);
}

#[test]
fn a_body_with_health_and_no_groups_meets_everything() {
    let bare = Contact { health: true, groups: None, flower: false };
    assert_eq!(collide_sys(bare, gear(), false), Collided::KillFirst);
    assert_eq!(collide_sys(gear(), bare, false), Collided::KillSecond);
    assert_eq!(collide_sys(bare, bare, false), Collided::Nothing);
}

#[test]
fn only_the_first_body_with_health_can_die() {
    let deadly_cix = Contact {
        health: true,
        groups: Some(CollisionGroups::new(GROUP_CIX | GROUP_STATIC, GROUP_ALL)),
        flower: false,
    };
    let enemy = Contact {
        health: true,
        groups: Some(CollisionGroups::new(GROUP_ENEMY, GROUP_ALL)),
        flower: false,
    };
    assert_eq!(collide_sys(deadly_cix, enemy, false), Collided::Nothing);
    assert_eq!(collide_sys(enemy, deadly_cix, false), Collided::KillFirst);
}

#[test]
fn reaching_the_flower_ends_the_game_once() {
    assert_eq!(collide_sys(cix_contact(), flower(), false), Collided::Finish);
    assert_eq!(collide_sys(flower(), cix_contact(), false), Collided::Finish);
    assert_eq!(collide_sys(cix_contact(), flower(), true), Collided::Nothing);
    assert_eq!(collide_sys(gear(), flower(), false), Collided::Nothing);
    let bare_flower = Contact { health: false, groups: None, flower: true };
    assert_eq!(collide_sys(cix_contact(), bare_flower, false), Collided::Nothing);
}
