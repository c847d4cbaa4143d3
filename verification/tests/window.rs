use recopied::window::{
    bottom_right_fits_check, near_cursor_fits_check, position_window_at_cursor, position_window_bottom_right, MonitorArea, Position, Size,
};

fn monitor() -> MonitorArea {
    MonitorArea { position: Position { x: 0, y: 0 }, size: Size { width: 1920, height: 1080 } }
}

#[test]
fn bottom_right_leaves_margins() {
    let p = position_window_bottom_right(Some(monitor()), Some(Size { width: 380, height: 560 }));
    assert_eq!(p, Some(Position { x: 1528, y: 472 }));
    assert_eq!(position_window_bottom_right(Some(monitor()), None), Some(Position { x: 1528, y: 472 }));
    assert_eq!(position_window_bottom_right(None, None), None);
}

#[test]
fn bottom_right_on_offset_monitor() {
    let m = MonitorArea { position: Position { x: 1920, y: -200 }, size: Size { width: 1280, height: 1024 } };
    let p = position_window_bottom_right(Some(m), Some(Size { width: 100, height: 100 }));
    assert_eq!(p, Some(Position { x: 1920 + 1280 - 100 - 12, y: -200 + 1024 - 100 - 48 }));
}

#[test]
fn cursor_placement_is_clamped_to_monitor() {
    let w = Some(Size { width: 380, height: 560 });
    assert_eq!(
        position_window_at_cursor(Some(Position { x: 100, y: 100 }), w, Some(monitor())),
        Some(Position { x: 0, y: 80 })
    );
    assert_eq!(
        position_window_at_cursor(Some(Position { x: 1900, y: 1000 }), w, Some(monitor())),
        Some(Position { x: 1540, y: 520 })
    );
    assert_eq!(
        position_window_at_cursor(Some(Position { x: 960, y: 300 }), w, Some(monitor())),
        Some(Position { x: 770, y: 280 })
    );
}

#[test]
fn cursor_placement_without_monitor_or_cursor() {
    assert_eq!(
        position_window_at_cursor(Some(Position { x: 5, y: 6 }), None, None),
        Some(Position { x: 5, y: 6 })
    );
    assert_eq!(
        position_window_at_cursor(None, None, Some(monitor())),
        Some(Position { x: 1528, y: 472 })
    );
    assert_eq!(position_window_at_cursor(None, None, None), None);
}

#[test]
fn window_wider_than_monitor_sticks_to_left_edge() {
    let small = MonitorArea { position: Position { x: 10, y: 10 }, size: Size { width: 300, height: 400 } };
    assert_eq!(
        position_window_at_cursor(Some(Position { x: 200, y: 200 }), None, Some(small)),
        Some(Position { x: 10, y: 10 })
    );
}

#[test]
fn overflow_checks_detect_unrepresentable_placements() {
    assert!(bottom_right_fits_check(monitor(), None));
    let far = MonitorArea { position: Position { x: i32::MAX - 10, y: 0 }, size: Size { width: 100, height: 100 } };
    assert!(!bottom_right_fits_check(far, None));
    assert!(near_cursor_fits_check(Position { x: 10, y: 10 }, None, monitor()));
    assert!(!near_cursor_fits_check(Position { x: i32::MIN, y: 10 }, None, monitor()));
}
