use milk_and_honey::anim::{IDLE_CLIP, WALK_CLIP};
use milk_and_honey::game::frame_update;
use milk_and_honey::motion::{
    arrived, dist_sq, in_play_area, select_target, step_toward, walk_to, MousePosition, Vec3,
    AREA_X_MAX, AREA_Z_MAX, AREA_Z_MIN, STEP_MILLI, STOP_DIST_MILLI,
};

#[test]
fn play_area_edges() {
    assert!(in_play_area(&Vec3::new(0, 0, 0)));
    assert!(in_play_area(&Vec3::new(AREA_X_MAX, 0, AREA_Z_MAX)));
    assert!(in_play_area(&Vec3::new(40_000, 0, AREA_Z_MIN)));
    assert!(!in_play_area(&Vec3::new(-1, 0, 0)));
    assert!(!in_play_area(&Vec3::new(AREA_X_MAX + 1, 0, 0)));
    assert!(!in_play_area(&Vec3::new(0, 0, AREA_Z_MIN - 1)));
    assert!(!in_play_area(&Vec3::new(0, 0, AREA_Z_MAX + 1)));
    // Only points on the ground plane count as clickable.
    assert!(!in_play_area(&Vec3::new(0, 1, 0)));
}

#[test]
fn click_inside_picks_new_target() {
    let current = Vec3::new(500, 0, 500);
    let hit = Vec3::new(20_000, 0, -10_000);
    assert_eq!(select_target(&current, &hit, true), hit);
}

#[test]
fn click_outside_is_ignored() {
    let current = Vec3::new(500, 0, 500);
    let hit = Vec3::new(90_000, 0, 0);
    assert_eq!(select_target(&current, &hit, true), current);
}

#[test]
fn no_click_keeps_target() {
    let current = Vec3::new(500, 0, 500);
    let hit = Vec3::new(20_000, 0, 0);
    assert_eq!(select_target(&current, &hit, false), current);
}

#[test]
fn squared_distance_is_exact() {
    let a = Vec3::new(0, 0, 0);
    let b = Vec3::new(3, 4, 12);
    assert_eq!(dist_sq(&a, &b), 9 + 16 + 144);
    assert_eq!(dist_sq(&b, &a), 169);
    assert_eq!(dist_sq(&a, &a), 0);
    let c = Vec3::new(-1000, 0, 1000);
    assert_eq!(dist_sq(&a, &c), 2_000_000);
}

#[test]
fn stop_threshold_is_half_a_unit() {
    assert_eq!(STOP_DIST_MILLI, 500);
    let pos = Vec3::new(0, 0, 0);
    assert!(arrived(&pos, &Vec3::new(500, 0, 0)));
    assert!(!arrived(&pos, &Vec3::new(501, 0, 0)));
}

#[test]
fn holds_position_when_arrived() {
    let pos = Vec3::new(100, 0, 100);
    let target = Vec3::new(400, 0, 100);
    let (p, moving) = step_toward(&pos, &target);
    assert!(!moving);
    assert_eq!(p, pos);
}

#[test]
fn walks_a_fixed_step_along_an_axis() {
    assert_eq!(STEP_MILLI, 200);
    let pos = Vec3::new(0, 0, 0);
    let target = Vec3::new(1000, 0, 0);
    let (p, moving) = step_toward(&pos, &target);
    assert!(moving);
    assert_eq!(p, Vec3::new(200, 0, 0));
}

#[test]
fn walks_diagonally_by_component_shares() {
    // A 3-4-5 triangle: distance 5000, so the step splits 120 / 160.
    let pos = Vec3::new(0, 0, 0);
    let target = Vec3::new(3000, 0, 4000);
    let (p, moving) = step_toward(&pos, &target);
    assert!(moving);
    assert_eq!(p, Vec3::new(120, 0, 160));
}

#[test]
fn walks_backwards_too() {
    let pos = Vec3::new(1000, 0, 0);
    let target = Vec3::new(0, 0, 0);
    let (p, moving) = step_toward(&pos, &target);
    assert!(moving);
    assert_eq!(p, Vec3::new(800, 0, 0));
}

#[test]
fn walk_reaches_the_target() {
    let mut pos = Vec3::new(0, 0, 0);
    let target = Vec3::new(10_000, 0, 0);
    let mut steps: u32 = 0;
    loop {
        let (p, moving) = step_toward(&pos, &target);
        if !moving {
            break;
        }
        pos = p;
        steps += 1;
        assert!(steps < 1000);
    }
    // 48 whole steps of 200 reach 9600, within the stop threshold.
    assert_eq!(steps, 48);
    assert_eq!(pos, Vec3::new(9600, 0, 0));
    assert!(arrived(&pos, &target));
}

#[test]
fn distance_shrinks_every_moving_frame() {
    let mut pos = Vec3::new(77_777, 0, -13_331);
    let target = Vec3::new(4_321, 0, 12_345);
    let mut last = dist_sq(&pos, &target);
    let mut steps: u32 = 0;
    loop {
        let (p, moving) = step_toward(&pos, &target);
        if !moving {
            break;
        }
        pos = p;
        let now = dist_sq(&pos, &target);
        assert!(now < last);
        last = now;
        steps += 1;
        assert!(steps < 10_000);
    }
    assert!(arrived(&pos, &target));
}

#[test]
fn walk_to_ends_within_the_threshold() {
    let start = Vec3::new(-900_000, 250_000, 990_000);
    let target = Vec3::new(80_000, 0, -15_000);
    let p = walk_to(&start, &target);
    assert!(arrived(&p, &target));
    assert!(dist_sq(&p, &target) <= (STOP_DIST_MILLI * STOP_DIST_MILLI) as u64);
}

#[test]
fn frame_with_click_retargets_and_walks() {
    let pos = Vec3::new(0, 0, 0);
    let target = Vec3::new(0, 0, 0);
    let mouse = MousePosition { pos: Vec3::new(1000, 0, 0) };
    let r = frame_update(&pos, &target, &mouse, true);
    assert_eq!(r.target, Vec3::new(1000, 0, 0));
    assert!(r.moving);
    assert_eq!(r.pos, Vec3::new(200, 0, 0));
    assert_eq!(r.clip, WALK_CLIP);
}

#[test]
fn frame_with_outside_click_stays_idle() {
    let pos = Vec3::new(0, 0, 0);
    let target = Vec3::new(0, 0, 0);
    let mouse = MousePosition { pos: Vec3::new(0, 0, 20_000) };
    let r = frame_update(&pos, &target, &mouse, true);
    assert_eq!(r.target, target);
    assert!(!r.moving);
    assert_eq!(r.pos, pos);
    assert_eq!(r.clip, IDLE_CLIP);
}

#[test]
fn frame_without_click_keeps_walking() {
    let pos = Vec3::new(200, 0, 0);
    let target = Vec3::new(1000, 0, 0);
    let mouse = MousePosition { pos: Vec3::new(70_000, 0, 0) };
    let r = frame_update(&pos, &target, &mouse, false);
    assert_eq!(r.target, target);
    assert!(r.moving);
    assert_eq!(r.pos, Vec3::new(400, 0, 0));
    assert_eq!(r.clip, WALK_CLIP);
}
