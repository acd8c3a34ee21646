use pot_popup::opacity::{
    axis_gap_exec, distance_within_fade, floor_sqrt_u32, opacity_for_distance, PopupGeometry,
};

#[test]
fn floor_square_roots() {
    assert_eq!(floor_sqrt_u32(0), 0);
    assert_eq!(floor_sqrt_u32(1), 1);
    assert_eq!(floor_sqrt_u32(24), 4);
    assert_eq!(floor_sqrt_u32(25), 5);
    assert_eq!(floor_sqrt_u32(19599), 139);
    assert_eq!(floor_sqrt_u32(19600), 140);
    assert_eq!(floor_sqrt_u32(u32::MAX), 65535);
}

#[test]
fn gaps_on_one_axis() {
    assert_eq!(axis_gap_exec(5, 10, 20), 5);
    assert_eq!(axis_gap_exec(10, 10, 20), 0);
    assert_eq!(axis_gap_exec(30, 10, 20), 0);
    assert_eq!(axis_gap_exec(31, 10, 20), 1);
    assert_eq!(axis_gap_exec(i32::MAX, i32::MIN, 0), u32::MAX as i64);
}

#[test]
fn distance_to_the_popup() {
    let g = PopupGeometry { x: 0, y: 0, width: 100, height: 50 };
    assert_eq!(distance_within_fade(g, 50, 25), Some(0));
    assert_eq!(distance_within_fade(g, 103, 54), Some(5));
    assert_eq!(distance_within_fade(g, -3, -4), Some(5));
    assert_eq!(distance_within_fade(g, 239, 25), Some(139));
    assert_eq!(distance_within_fade(g, 240, 25), None);
    assert_eq!(distance_within_fade(g, 199, 149), None);
    assert_eq!(distance_within_fade(g, 198, 148), Some(138));
}

#[test]
fn opacity_by_distance() {
    assert_eq!(opacity_for_distance(0), 128);
    assert_eq!(opacity_for_distance(12), 128);
    assert_eq!(opacity_for_distance(13), 127);
    assert_eq!(opacity_for_distance(76), 64);
    assert_eq!(opacity_for_distance(139), 1);
    assert_eq!(opacity_for_distance(140), 0);
    assert_eq!(opacity_for_distance(100000), 0);
}
