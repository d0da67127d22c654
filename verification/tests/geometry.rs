use orbit_core::frame::{teme_to_bevy, InertialPoint, ScenePoint, COORD_LIMIT};
use orbit_core::visibility::is_occluded;

fn scene(x: i64, y: i64, z: i64) -> ScenePoint {
    ScenePoint::new(x, y, z).expect("within the limit")
}

#[test]
fn frame_map_swaps_and_negates() {
    let p = InertialPoint::new(1, 2, 3).unwrap();
    let q = teme_to_bevy(p);
    assert_eq!((q.x(), q.y(), q.z()), (1, 3, -2));
    let p = InertialPoint::new(-7000, 0, 4200).unwrap();
    let q = teme_to_bevy(p);
    assert_eq!((q.x(), q.y(), q.z()), (-7000, 4200, 0));
}

#[test]
fn frame_map_at_the_limit() {
    let p = InertialPoint::new(COORD_LIMIT, -COORD_LIMIT, COORD_LIMIT).unwrap();
    let q = teme_to_bevy(p);
    assert_eq!((q.x(), q.y(), q.z()), (COORD_LIMIT, COORD_LIMIT, COORD_LIMIT));
}

#[test]
fn points_beyond_the_limit_are_refused() {
    assert_eq!(COORD_LIMIT, 1 << 28);
    assert!(ScenePoint::new(COORD_LIMIT, 0, 0).is_some());
    assert!(ScenePoint::new(COORD_LIMIT + 1, 0, 0).is_none());
    assert!(ScenePoint::new(0, -COORD_LIMIT - 1, 0).is_none());
    assert!(ScenePoint::new(0, 0, i64::MIN).is_none());
    assert!(InertialPoint::new(0, 0, -COORD_LIMIT).is_some());
    assert!(InertialPoint::new(0, i64::MAX, 0).is_none());
    let o = ScenePoint::origin();
    assert_eq!((o.x(), o.y(), o.z()), (0, 0, 0));
}

#[test]
fn object_straight_behind_the_body_is_occluded() {
    let viewer = scene(0, 0, 20000);
    let object = scene(0, 0, -20000);
    assert!(is_occluded(viewer, object, ScenePoint::origin(), 6371));
}

#[test]
fn object_beside_the_body_is_visible() {
    let viewer = scene(0, 0, 20000);
    assert!(!is_occluded(viewer, scene(20000, 0, 0), ScenePoint::origin(), 6371));
    assert!(!is_occluded(viewer, scene(0, -7000, 0), ScenePoint::origin(), 6371));
}

#[test]
fn near_object_between_viewer_and_body_is_visible() {
    // closer to the centre than 6/5 of the radius: the far-side rule is off
    let viewer = scene(0, 0, 20000);
    assert!(!is_occluded(viewer, scene(0, 0, 7000), ScenePoint::origin(), 6371));
    assert!(!is_occluded(viewer, scene(0, 0, 7645), ScenePoint::origin(), 6371));
}

#[test]
fn far_side_rule_hides_distant_objects_on_the_viewers_side() {
    // the directions viewer-to-centre and centre-to-object are opposite, and
    // both are farther out than 6/5 of the radius
    let viewer = scene(0, 0, 20000);
    assert!(is_occluded(viewer, scene(0, 0, 20500), ScenePoint::origin(), 6371));
    assert!(is_occluded(viewer, scene(0, 0, 7646), ScenePoint::origin(), 6371));
}

#[test]
fn far_side_rule_needs_a_cosine_below_minus_one_fifth() {
    let viewer = scene(0, 0, 10000);
    // cosine of the angle between (0,0,-1) and (a,0,b)/|.|: -b/sqrt(a*a+b*b)
    // a = 4900, b = 1000: cosine just above -1/5 in magnitude -> 0.19996
    assert!(!is_occluded(viewer, scene(49000, 0, 10000), ScenePoint::origin(), 100));
    // a = 4800, b = 1000: 0.2040 > 1/5
    assert!(is_occluded(viewer, scene(48000, 0, 10000), ScenePoint::origin(), 100));
}

#[test]
fn object_inside_the_body_is_occluded() {
    let viewer = scene(0, 0, 20000);
    assert!(is_occluded(viewer, scene(0, 0, 6370), ScenePoint::origin(), 6371));
    assert!(is_occluded(viewer, scene(100, -100, 100), ScenePoint::origin(), 6371));
    assert!(is_occluded(scene(1, 1, 1), scene(100, -100, 100), ScenePoint::origin(), 6371));
    // on the surface is not inside
    assert!(!is_occluded(viewer, scene(0, 0, 6371), ScenePoint::origin(), 6371));
}

#[test]
fn object_behind_the_limb_is_occluded_and_past_it_visible() {
    let viewer = scene(0, 0, 20000);
    // far behind, slightly off axis: the line of sight passes through the body
    assert!(is_occluded(viewer, scene(3000, 0, -20000), ScenePoint::origin(), 6371));
    // far behind and far off axis: the line of sight clears the body
    assert!(!is_occluded(viewer, scene(30000, 0, -20000), ScenePoint::origin(), 6371));
}

#[test]
fn body_away_from_the_origin() {
    let center = scene(1000, 2000, 3000);
    let viewer = scene(1000, 2000, 23000);
    assert!(is_occluded(viewer, scene(1000, 2000, -17000), center, 6371));
    assert!(!is_occluded(viewer, scene(21000, 2000, 3000), center, 6371));
}

#[test]
fn body_without_extent_hides_nothing_behind_it() {
    let viewer = scene(0, 0, 20000);
    assert!(!is_occluded(viewer, scene(0, 0, -20000), ScenePoint::origin(), 0));
}

#[test]
fn viewer_at_the_object() {
    let p = scene(0, 0, 7000);
    assert!(!is_occluded(p, p, ScenePoint::origin(), 6371));
}

#[test]
fn viewer_inside_the_body_sees_nothing_beyond_the_surface() {
    let viewer = scene(0, 0, 100);
    assert!(is_occluded(viewer, scene(0, 0, 7000), ScenePoint::origin(), 6371));
    assert!(is_occluded(viewer, scene(0, 0, -7000), ScenePoint::origin(), 6371));
}

#[test]
fn extreme_coordinates_are_handled() {
    let l = COORD_LIMIT;
    let a = scene(l, l, l);
    let b = scene(-l, -l, -l);
    assert!(is_occluded(a, b, ScenePoint::origin(), u32::MAX));
    assert!(is_occluded(a, b, ScenePoint::origin(), 1));
    assert!(!is_occluded(a, b, a, 0));
    assert!(is_occluded(a, a, b, u32::MAX));
    assert!(is_occluded(a, scene(l, l, -l), scene(-l, l, l), 1));
    assert!(!is_occluded(scene(0, 0, l), scene(l, 0, -l), scene(0, 0, -l), 1));
}
