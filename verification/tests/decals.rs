use zombie_game::blood::{
    add_blood_spatter, update_blood_spatter, Blood, BLOOD_SPATTER_SPEED, BLOOD_TTL, BLOOD_TTM,
};
use zombie_game::utils::{Heading, Vec2, ONE};

fn heading(degrees: f64) -> Heading {
    let radians = degrees.to_radians();
    Heading {
        angle: (degrees * 1_000.0).round() as i64,
        sin: (radians.sin() * 1e6).round() as i64,
        cos: (radians.cos() * 1e6).round() as i64,
    }
}

#[test]
fn decal_constants() {
    assert_eq!(BLOOD_TTL, 3_000_000);
    assert_eq!(BLOOD_TTM, 200_000);
    assert_eq!(BLOOD_SPATTER_SPEED, 380);
}

#[test]
fn new_decal_has_its_full_time() {
    let b = Blood::new(4, Vec2 { x: 1, y: 2 }, heading(90.0));
    assert_eq!(
        b,
        Blood { id: 4, ttl: 3_000_000, ttm: 200_000, rot: heading(90.0), loc: Vec2 { x: 1, y: 2 } }
    );
}

#[test]
fn add_blood_spatter_appends_a_new_decal() {
    let mut bloods = vec![Blood::new(1, Vec2 { x: 0, y: 0 }, heading(0.0))];
    add_blood_spatter(&mut bloods, 2, Vec2 { x: 5, y: 6 }, heading(30.0));
    assert_eq!(bloods.len(), 2);
    assert_eq!(bloods[0].id, 1);
    assert_eq!(bloods[1], Blood::new(2, Vec2 { x: 5, y: 6 }, heading(30.0)));
}

#[test]
fn decal_spatters_then_decays_then_goes() {
    let mut b = Blood::new(1, Vec2 { x: 0, y: 0 }, heading(90.0));
    let mut elapsed: i64 = 0;
    let mut ticks_moving = 0;
    let mut ticks = 0;
    loop {
        let before = b;
        let expired = b.advance(100_000);
        elapsed += 100_000;
        ticks += 1;
        if before.ttm >= 0 {
            ticks_moving += 1;
            assert_eq!(b.ttm, before.ttm - 100_000);
            assert_eq!(b.ttl, before.ttl);
            assert_eq!(b.loc, Vec2 { x: before.loc.x + 38_000, y: before.loc.y + 38_000 });
            assert!(!expired);
        } else {
            assert_eq!(b.ttm, before.ttm);
            assert_eq!(b.ttl, before.ttl - 100_000);
            assert_eq!(b.loc, before.loc);
            assert_eq!(expired, b.ttl <= 0);
        }
        if elapsed <= 200_000 {
            assert!(before.ttm >= 0);
        }
        if expired {
            break;
        }
        assert!(ticks < 100);
    }
    assert_eq!(ticks_moving, 3);
    assert_eq!(ticks, 33);
    assert!(elapsed >= 3_200_000 && elapsed <= 3_200_000 + 100_000);
}

#[test]
fn decal_lives_three_and_a_fifth_seconds_at_sixty_frames_a_second() {
    let mut bloods = vec![Blood::new(9, Vec2 { x: 0, y: 0 }, heading(45.0))];
    let mut elapsed: i64 = 0;
    let mut ticks = 0;
    loop {
        let gone = update_blood_spatter(&mut bloods, 16_667);
        elapsed += 16_667;
        ticks += 1;
        if !gone.is_empty() {
            assert_eq!(gone, vec![9]);
            assert!(bloods.is_empty());
            break;
        }
        assert_eq!(bloods.len(), 1);
        assert!(elapsed < 4_000_000);
    }
    assert_eq!(ticks, 200_000 / 16_667 + 1 + (3_000_000 + 16_666) / 16_667);
    assert_eq!(ticks, 192);
    assert!(elapsed > 3_200_000);
    assert!(elapsed < 3_200_000 + 2 * 16_667);
}

#[test]
fn decal_moves_along_the_diagonal_whatever_its_direction() {
    for degrees in [0.0, 30.0, 90.0, 135.0, 200.0, 270.0, 333.0] {
        let mut b = Blood::new(1, Vec2 { x: 1_000, y: -2_000 }, heading(degrees));
        b.advance(50_000);
        let moved_x = b.loc.x - 1_000;
        let moved_y = b.loc.y + 2_000;
        assert_eq!(moved_x, moved_y);
        let expected = ((degrees as f64).to_radians().sin() * 1e6).round() as i64 * 19_000 / ONE;
        assert_eq!(moved_x, expected);
    }
}

#[test]
fn decal_with_no_time_to_move_left_still_moves_once() {
    let mut b = Blood { id: 1, ttl: 500, ttm: 0, rot: heading(90.0), loc: Vec2 { x: 0, y: 0 } };
    assert!(!b.advance(1_000));
    assert_eq!(b.ttm, -1_000);
    assert_eq!(b.ttl, 500);
    assert_eq!(b.loc, Vec2 { x: 380, y: 380 });
    assert!(b.advance(1_000));
    assert_eq!(b.ttl, -500);
    assert_eq!(b.loc, Vec2 { x: 380, y: 380 });
}

#[test]
fn decal_goes_when_its_time_is_exactly_up() {
    let mut b = Blood { id: 1, ttl: 2_000, ttm: -1, rot: heading(0.0), loc: Vec2 { x: 0, y: 0 } };
    assert!(!b.advance(1_000));
    assert_eq!(b.ttl, 1_000);
    assert!(b.advance(1_000));
    assert_eq!(b.ttl, 0);
}

#[test]
fn decal_that_has_stopped_goes_at_once_when_no_time_is_left() {
    let mut b = Blood { id: 1, ttl: 0, ttm: -1, rot: heading(0.0), loc: Vec2 { x: 0, y: 0 } };
    assert!(b.advance(0));
}

#[test]
fn decal_times_saturate() {
    let mut b =
        Blood { id: 1, ttl: i64::MIN + 5, ttm: -1, rot: heading(0.0), loc: Vec2 { x: 0, y: 0 } };
    assert!(b.advance(10));
    assert_eq!(b.ttl, i64::MIN);
    let mut c =
        Blood { id: 1, ttl: 5, ttm: 0, rot: Heading { angle: 0, sin: i64::MAX, cos: 0 }, loc: Vec2 { x: i64::MAX, y: 0 } };
    assert!(!c.advance(u32::MAX));
    assert_eq!(c.ttm, -(u32::MAX as i64));
    assert_eq!(c.loc, Vec2 { x: i64::MAX, y: i64::MAX });
}

#[test]
fn update_blood_spatter_keeps_the_order_of_those_that_stay() {
    let at = Vec2 { x: 0, y: 0 };
    let mut bloods = vec![
        Blood { id: 1, ttl: 5_000, ttm: -1, rot: heading(0.0), loc: at },
        Blood { id: 2, ttl: 1_000, ttm: -1, rot: heading(0.0), loc: at },
        Blood { id: 3, ttl: 1_000, ttm: 0, rot: heading(90.0), loc: at },
        Blood { id: 4, ttl: 999, ttm: -7, rot: heading(0.0), loc: at },
        Blood { id: 5, ttl: 1_001, ttm: -7, rot: heading(0.0), loc: at },
    ];
    let gone = update_blood_spatter(&mut bloods, 1_000);
    assert_eq!(gone, vec![2, 4]);
    assert_eq!(
        bloods,
        vec![
            Blood { id: 1, ttl: 4_000, ttm: -1, rot: heading(0.0), loc: at },
            Blood { id: 3, ttl: 1_000, ttm: -1_000, rot: heading(90.0), loc: Vec2 { x: 380, y: 380 } },
            Blood { id: 5, ttl: 1, ttm: -7, rot: heading(0.0), loc: at },
        ]
    );
}

#[test]
fn update_blood_spatter_on_no_decals_does_nothing() {
    let mut bloods: Vec<Blood> = Vec::new();
    assert!(update_blood_spatter(&mut bloods, 16_667).is_empty());
    assert!(bloods.is_empty());
}
