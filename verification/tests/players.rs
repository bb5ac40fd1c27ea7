use zombie_game::bullet::Bullet;
use zombie_game::player::{
    create_player, fire_controller, player_mover, track_mouse, Keys, Player, PLAYER_MOVE_SPEED,
};
use zombie_game::utils::{Heading, Vec2, ONE};
use zombie_game::GameDetails;

const STILL: Keys = Keys { up: false, down: false, left: false, right: false };
const RIGHT: Keys = Keys { up: false, down: false, left: false, right: true };
const LEFT: Keys = Keys { up: false, down: false, left: true, right: false };
const UP: Keys = Keys { up: true, down: false, left: false, right: false };
const DOWN: Keys = Keys { up: false, down: true, left: false, right: false };

fn player_at(x: i64, y: i64) -> Player {
    let mut p = create_player();
    p.loc = Vec2 { x, y };
    p
}

#[test]
fn player_speed_is_one_hundred_and_fifty() {
    assert_eq!(PLAYER_MOVE_SPEED, 150);
}

#[test]
fn player_starts_at_one_hundred_by_one_hundred() {
    let p = create_player();
    assert_eq!(p.loc, Vec2 { x: 100_000, y: 100_000 });
    assert_eq!(p.mouse, Vec2 { x: 0, y: 0 });
    assert_eq!(p.hit_box, Vec2 { x: 150_000, y: 150_000 });
    assert_eq!(p.screen, Vec2 { x: 100_000, y: 100_000 });
}

#[test]
fn moving_right_for_a_second_in_the_middle_of_the_map() {
    let mut details = GameDetails::new(3, 3);
    let mut p = player_at(700_000, 700_000);
    player_mover(&mut p, RIGHT, 1_000_000, &mut details);
    assert_eq!(p.loc, Vec2 { x: 850_000, y: 700_000 });
    assert!(640_000 < p.loc.x && p.loc.x < 3_840_000 - 640_000);
    assert_eq!(details.offset_x, 850_000 - 640_000);
    assert_eq!(details.offset_y, 700_000 - 360_000);
    assert_eq!(p.screen, Vec2 { x: 0, y: 0 });
    assert_eq!(details.width, 3);
    assert_eq!(details.height, 3);
}

#[test]
fn moving_right_frame_by_frame_adds_up() {
    let mut details = GameDetails::new(3, 3);
    let mut p = player_at(700_000, 700_000);
    for _ in 0..60 {
        player_mover(&mut p, RIGHT, 16_667, &mut details);
    }
    assert_eq!(p.loc, Vec2 { x: 700_000 + 60 * 2_500, y: 700_000 });
    assert_eq!(details.offset_x, 210_000);
}

#[test]
fn each_key_moves_along_its_axis() {
    let mut details = GameDetails::new(3, 3);
    let mut p = player_at(700_000, 700_000);
    player_mover(&mut p, UP, 100_000, &mut details);
    assert_eq!(p.loc, Vec2 { x: 700_000, y: 715_000 });
    player_mover(&mut p, DOWN, 100_000, &mut details);
    assert_eq!(p.loc, Vec2 { x: 700_000, y: 700_000 });
    player_mover(&mut p, LEFT, 100_000, &mut details);
    assert_eq!(p.loc, Vec2 { x: 685_000, y: 700_000 });
    player_mover(&mut p, RIGHT, 100_000, &mut details);
    assert_eq!(p.loc, Vec2 { x: 700_000, y: 700_000 });
}

#[test]
fn opposite_keys_cancel_and_two_axes_move_together() {
    let mut details = GameDetails::new(3, 3);
    let mut p = player_at(700_000, 700_000);
    player_mover(
        &mut p,
        Keys { up: true, down: true, left: true, right: true },
        100_000,
        &mut details,
    );
    assert_eq!(p.loc, Vec2 { x: 700_000, y: 700_000 });
    player_mover(
        &mut p,
        Keys { up: true, down: false, left: true, right: false },
        100_000,
        &mut details,
    );
    assert_eq!(p.loc, Vec2 { x: 685_000, y: 715_000 });
}

#[test]
fn no_key_moves_nothing_but_sets_the_camera() {
    let mut details = GameDetails { width: 3, height: 3, offset_x: 99, offset_y: -99 };
    let mut p = player_at(700_000, 700_000);
    player_mover(&mut p, STILL, 1_000_000, &mut details);
    assert_eq!(p.loc, Vec2 { x: 700_000, y: 700_000 });
    assert_eq!(details.offset_x, 60_000);
    assert_eq!(details.offset_y, 340_000);
}

#[test]
fn player_stops_a_buffer_from_the_lower_edges() {
    let mut details = GameDetails::new(3, 3);
    let mut p = player_at(60_000, 60_000);
    player_mover(
        &mut p,
        Keys { up: false, down: true, left: true, right: false },
        1_000_000,
        &mut details,
    );
    assert_eq!(p.loc, Vec2 { x: 50_000, y: 50_000 });
    assert_eq!(details.offset_x, 0);
    assert_eq!(details.offset_y, 0);
    assert_eq!(p.screen, Vec2 { x: 50_000 - 640_000, y: 50_000 - 360_000 });
}

#[test]
fn player_stops_a_buffer_from_the_upper_edges() {
    let mut details = GameDetails::new(3, 3);
    let mut p = player_at(3_780_000, 2_100_000);
    player_mover(
        &mut p,
        Keys { up: true, down: false, left: false, right: true },
        1_000_000,
        &mut details,
    );
    assert_eq!(p.loc, Vec2 { x: 3_840_000 - 50_000, y: 2_160_000 - 50_000 });
    assert_eq!(details.offset_x, 3_840_000 - 1_280_000);
    assert_eq!(details.offset_y, 2_160_000 - 720_000);
    assert_eq!(p.screen, Vec2 { x: 640_000 - 50_000, y: 360_000 - 50_000 });
}

#[test]
fn camera_rests_near_the_lower_edge() {
    let mut details = GameDetails::new(3, 3);
    let mut p = player_at(640_000, 360_000);
    player_mover(&mut p, STILL, 0, &mut details);
    assert_eq!(details.offset_x, 0);
    assert_eq!(details.offset_y, 0);
    assert_eq!(p.screen, Vec2 { x: 0, y: 0 });
    let mut q = player_at(640_001, 360_001);
    player_mover(&mut q, STILL, 0, &mut details);
    assert_eq!(details.offset_x, 1);
    assert_eq!(details.offset_y, 1);
    assert_eq!(q.screen, Vec2 { x: 0, y: 0 });
}

#[test]
fn camera_rests_near_the_upper_edge() {
    let mut details = GameDetails::new(3, 3);
    let mut p = player_at(3_200_000, 1_800_000);
    player_mover(&mut p, STILL, 0, &mut details);
    assert_eq!(details.offset_x, 2_560_000);
    assert_eq!(details.offset_y, 1_440_000);
    assert_eq!(p.screen, Vec2 { x: 0, y: 0 });
    let mut q = player_at(3_199_999, 1_799_999);
    player_mover(&mut q, STILL, 0, &mut details);
    assert_eq!(details.offset_x, 2_559_999);
    assert_eq!(details.offset_y, 1_439_999);
    let mut r = player_at(3_300_000, 1_900_000);
    player_mover(&mut r, STILL, 0, &mut details);
    assert_eq!(details.offset_x, 2_560_000);
    assert_eq!(details.offset_y, 1_440_000);
    assert_eq!(r.screen, Vec2 { x: 100_000, y: 100_000 });
}

#[test]
fn player_is_drawn_where_the_camera_puts_it() {
    let mut details = GameDetails::new(3, 2);
    for x in [0, 50_000, 300_000, 640_000, 900_000, 3_200_000, 3_500_000, 9_000_000] {
        for y in [-5, 50_000, 360_000, 700_000, 1_080_000, 1_200_000, 1_440_000] {
            let mut p = player_at(x, y);
            player_mover(&mut p, STILL, 16_667, &mut details);
            assert_eq!(p.screen, details.to_screen(p.loc));
            assert!(50_000 <= p.loc.x && p.loc.x <= 3_840_000 - 50_000);
            assert!(50_000 <= p.loc.y && p.loc.y <= 1_440_000 - 50_000);
            assert!(0 <= details.offset_x && details.offset_x <= 3_840_000 - 1_280_000);
            assert!(0 <= details.offset_y && details.offset_y <= 1_440_000 - 720_000);
        }
    }
}

#[test]
fn world_of_one_tile_never_scrolls() {
    let mut details = GameDetails::new(1, 1);
    let mut p = player_at(100_000, 100_000);
    for _ in 0..20 {
        player_mover(
            &mut p,
            Keys { up: true, down: false, left: false, right: true },
            1_000_000,
            &mut details,
        );
        assert_eq!(details.offset_x, 0);
        assert_eq!(details.offset_y, 0);
    }
    assert_eq!(p.loc, Vec2 { x: 1_230_000, y: 670_000 });
}

#[test]
fn world_without_tiles_holds_the_player_below_zero() {
    let mut details = GameDetails::new(0, 0);
    let mut p = player_at(100_000, 100_000);
    player_mover(&mut p, STILL, 0, &mut details);
    assert_eq!(p.loc, Vec2 { x: -50_000, y: -50_000 });
    assert_eq!(details.offset_x, 0);
    assert_eq!(details.offset_y, 0);
}

#[test]
fn player_far_outside_is_brought_back_without_overflow() {
    let mut details = GameDetails::new(u32::MAX, u32::MAX);
    let mut p = player_at(i64::MAX, i64::MIN);
    player_mover(
        &mut p,
        Keys { up: false, down: true, left: false, right: true },
        u32::MAX,
        &mut details,
    );
    assert_eq!(p.loc, Vec2 { x: u32::MAX as i64 * 1_280_000 - 50_000, y: 50_000 });
    assert_eq!(details.offset_x, (u32::MAX as i64 - 1) * 1_280_000);
    assert_eq!(details.offset_y, 0);
}

#[test]
fn player_mover_leaves_aim_and_hit_box_alone() {
    let mut details = GameDetails::new(3, 3);
    let mut p = player_at(700_000, 700_000);
    p.mouse = Vec2 { x: 12, y: -34 };
    p.hit_box = Vec2 { x: 5, y: 6 };
    player_mover(&mut p, RIGHT, 16_667, &mut details);
    assert_eq!(p.mouse, Vec2 { x: 12, y: -34 });
    assert_eq!(p.hit_box, Vec2 { x: 5, y: 6 });
}

#[test]
fn pointer_is_taken_relative_to_the_centre_with_y_turned_up() {
    let mut p = create_player();
    track_mouse(&mut p, &vec![Vec2 { x: 640_000, y: 360_000 }]);
    assert_eq!(p.mouse, Vec2 { x: 0, y: 0 });
    track_mouse(&mut p, &vec![Vec2 { x: 0, y: 0 }]);
    assert_eq!(p.mouse, Vec2 { x: -640_000, y: 360_000 });
    track_mouse(&mut p, &vec![Vec2 { x: 1_280_000, y: 720_000 }]);
    assert_eq!(p.mouse, Vec2 { x: 640_000, y: -360_000 });
}

#[test]
fn the_last_pointer_position_counts() {
    let mut p = create_player();
    track_mouse(
        &mut p,
        &vec![Vec2 { x: 1, y: 2 }, Vec2 { x: 700_000, y: 300_000 }, Vec2 { x: 650_000, y: 370_000 }],
    );
    assert_eq!(p.mouse, Vec2 { x: 10_000, y: -10_000 });
}

#[test]
fn without_pointer_positions_the_aim_stays() {
    let mut p = create_player();
    p.mouse = Vec2 { x: 77, y: 88 };
    track_mouse(&mut p, &Vec::new());
    assert_eq!(p.mouse, Vec2 { x: 77, y: 88 });
}

#[test]
fn track_mouse_touches_nothing_but_the_aim() {
    let mut p = player_at(5, 6);
    let before = p;
    track_mouse(&mut p, &vec![Vec2 { x: 100, y: 200 }]);
    assert_eq!(p.loc, before.loc);
    assert_eq!(p.hit_box, before.hit_box);
    assert_eq!(p.screen, before.screen);
}

#[test]
fn pointer_target_saturates() {
    let mut p = create_player();
    track_mouse(&mut p, &vec![Vec2 { x: i64::MIN, y: i64::MIN }]);
    assert_eq!(p.mouse, Vec2 { x: i64::MIN, y: i64::MAX });
    track_mouse(&mut p, &vec![Vec2 { x: i64::MAX, y: i64::MAX }]);
    assert_eq!(p.mouse, Vec2 { x: i64::MAX - 640_000, y: 360_000 - i64::MAX });
}

#[test]
fn directions_run_between_the_player_on_screen_and_the_pointer() {
    let mut p = create_player();
    p.screen = Vec2 { x: 100, y: 200 };
    p.mouse = Vec2 { x: 130, y: 160 };
    assert_eq!(p.fire_direction(), Vec2 { x: -30, y: 40 });
    assert_eq!(p.look_direction(), Vec2 { x: 30, y: -40 });
}

#[test]
fn no_shot_without_a_fresh_press() {
    let p = create_player();
    let aim = Heading { angle: 0, sin: 0, cos: ONE };
    assert_eq!(fire_controller(&p, false, aim, 1), None);
}

#[test]
fn a_shot_starts_at_the_player_and_flies_a_quarter_turn_behind_the_aim() {
    let p = player_at(700_000, 650_000);
    let aim = Heading { angle: 30_000, sin: 500_000, cos: 866_025 };
    assert_eq!(
        fire_controller(&p, true, aim, 42),
        Some(Bullet {
            id: 42,
            loc: Vec2 { x: 700_000, y: 650_000 },
            angle: Heading { angle: -60_000, sin: -866_025, cos: 500_000 },
            hit_box: Vec2 { x: 10_000, y: 20_000 },
            damage: 1,
        })
    );
}

#[test]
fn a_shot_normalizes_its_aim_first() {
    let p = create_player();
    let aim = Heading { angle: -135_000, sin: -707_107, cos: -707_107 };
    let fired = fire_controller(&p, true, aim, 1).unwrap();
    assert_eq!(fired.angle, Heading { angle: 135_000, sin: 707_107, cos: -707_107 });
}

fn aim_of(p: &Player) -> Heading {
    let d = p.fire_direction();
    let radians = (d.y as f64).atan2(d.x as f64);
    Heading {
        angle: (radians.to_degrees() * 1_000.0).round() as i64,
        sin: (radians.sin() * 1e6).round() as i64,
        cos: (radians.cos() * 1e6).round() as i64,
    }
}

#[test]
fn a_shot_flies_toward_a_pointer_on_the_right() {
    let details = GameDetails::new(3, 3);
    let mut p = player_at(700_000, 700_000);
    p.screen = Vec2 { x: 0, y: 0 };
    p.mouse = Vec2 { x: 100_000, y: 0 };
    let mut fired = fire_controller(&p, true, aim_of(&p), 1).unwrap();
    assert_eq!(fired.angle, Heading { angle: 90_000, sin: ONE, cos: 0 });
    assert!(fired.advance(100_000, &details));
    assert_eq!(fired.loc, Vec2 { x: 750_000, y: 700_000 });
}

#[test]
fn a_shot_flies_toward_a_pointer_above() {
    let details = GameDetails::new(3, 3);
    let mut p = player_at(700_000, 700_000);
    p.screen = Vec2 { x: 0, y: 0 };
    p.mouse = Vec2 { x: 0, y: 100_000 };
    let mut fired = fire_controller(&p, true, aim_of(&p), 1).unwrap();
    assert_eq!(fired.angle, Heading { angle: 180_000, sin: 0, cos: -ONE });
    assert!(fired.advance(100_000, &details));
    assert_eq!(fired.loc, Vec2 { x: 700_000, y: 750_000 });
}
