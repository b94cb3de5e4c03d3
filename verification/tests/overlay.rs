use magic_cursor::overlay::{checked_overlay_position, overlay_position, LogicalRect};

fn rect(x: i32, y: i32, width: i32, height: i32) -> LogicalRect {
    LogicalRect { x, y, width, height }
}

#[test]
fn overlay_next_to_cursor() {
    let m = vec![rect(0, 0, 1920, 1080)];
    assert_eq!(overlay_position(100, 300, &m), (120, 260));
}

#[test]
fn overlay_clamped_to_edges() {
    let m = vec![rect(0, 0, 1920, 1080)];
    // Right edge: 1920 - 440 - 8.
    assert_eq!(overlay_position(1900, 300, &m), (1472, 260));
    // Top edge and bottom edge.
    assert_eq!(overlay_position(100, 10, &m), (120, 8));
    assert_eq!(overlay_position(100, 1070, &m), (120, 672));
}

#[test]
fn overlay_on_second_monitor() {
    let m = vec![rect(0, 0, 1920, 1080), rect(1920, 0, 1280, 800)];
    assert_eq!(overlay_position(3190, 20, &m), (1920 + 1280 - 448, 8));
}

#[test]
fn overlay_falls_back_to_first_monitor() {
    let m = vec![rect(0, 0, 800, 600), rect(800, 0, 800, 600)];
    assert_eq!(overlay_position(5000, 5000, &m), (352, 192));
}

#[test]
fn overlay_without_monitors() {
    assert_eq!(overlay_position(10, 10, &vec![]), (30, -30));
}

#[test]
fn overlay_small_monitor() {
    let m = vec![rect(0, 0, 300, 200)];
    assert_eq!(overlay_position(100, 100, &m), (8, 8));
}

#[test]
fn overlay_placement_checked() {
    let m = vec![rect(0, 0, 1920, 1080)];
    assert_eq!(checked_overlay_position(100, 300, &m), Some((120, 260)));
    assert_eq!(checked_overlay_position(i32::MAX, 300, &m), None);
    assert_eq!(checked_overlay_position(100, i32::MIN, &m), None);
    assert_eq!(checked_overlay_position(100, 300, &vec![rect(i32::MAX - 10, 0, 100, 100)]), None);
}
