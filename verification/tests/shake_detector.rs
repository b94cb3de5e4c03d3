use magic_cursor::shake_detector::{count_reversals, ShakeConfig, ShakeDetector};

fn make_detector() -> ShakeDetector {
    ShakeDetector::new(ShakeConfig {
        reversal_threshold: 3,
        window_ms: 600,
        min_displacement: 30,
        cooldown_ms: 100_000, // long cooldown so tests don't interfere
    })
}

#[test]
fn test_no_shake_straight_movement() {
    let mut d = make_detector();
    for x in 0..200 {
        assert!(!d.process(x * 2, 0));
    }
}

#[test]
fn test_shake_detected() {
    let mut d = make_detector();
    // Simulate 4 reversals: right 50, left 50, right 50, left 50
    let pattern = [0, 50, 0, 50, 0, 50, 0];
    let mut triggered = false;
    for &x in &pattern {
        if d.process(x, 0) {
            triggered = true;
        }
    }
    assert!(triggered);
}

const MS: u64 = 1_000_000;

#[test]
fn shake_triggers_on_third_reversal() {
    let mut d = make_detector();
    let xs = [0, 50, 0, 50, 0];
    let results: Vec<bool> = xs
        .iter()
        .enumerate()
        .map(|(i, &x)| d.process_at(x, 0, i as u64 * 10 * MS))
        .collect();
    assert_eq!(results, vec![false, false, false, false, true]);
}

#[test]
fn shake_cooldown_blocks_second_trigger() {
    let mut d = ShakeDetector::new(ShakeConfig {
        reversal_threshold: 1,
        window_ms: 600,
        min_displacement: 30,
        cooldown_ms: 2000,
    });
    assert!(!d.process_at(0, 0, 0));
    assert!(!d.process_at(50, 0, 10 * MS));
    assert!(d.process_at(0, 0, 20 * MS));
    // Within the cooldown nothing triggers, however much the cursor shakes.
    let mut t = 30;
    for x in [50, 0, 50, 0, 50, 0] {
        assert!(!d.process_at(x, 0, t * MS));
        t += 10;
    }
    // After the cooldown the next shake triggers again.
    assert!(!d.process_at(50, 0, 2100 * MS));
    assert!(!d.process_at(0, 0, 2110 * MS));
    assert!(d.process_at(50, 0, 2120 * MS));
}

#[test]
fn shake_old_samples_leave_the_window() {
    let mut d = make_detector();
    // Reversals spread over more than the window never add up.
    let mut t = 0;
    for x in [0, 50, 0, 50, 0, 50, 0, 50] {
        assert!(!d.process_at(x, 0, t * MS));
        t += 400;
    }
}

#[test]
fn shake_small_moves_do_not_count() {
    let mut d = make_detector();
    for (i, x) in [0, 10, 0, 10, 0, 10, 0, 10, 0].iter().enumerate() {
        assert!(!d.process_at(*x, 0, i as u64 * MS));
    }
}

#[test]
fn count_reversals_examples() {
    assert_eq!(count_reversals(&vec![0], 30), 0);
    assert_eq!(count_reversals(&vec![0, 100, 200], 30), 0);
    assert_eq!(count_reversals(&vec![0, 50, 0], 30), 1);
    assert_eq!(count_reversals(&vec![0, 50, 0, 50, 0], 30), 3);
    // A pause (no move) does not split a segment.
    assert_eq!(count_reversals(&vec![0, 25, 25, 50, 0], 30), 1);
    // A short wiggle is dropped, and the runs on either side of it go the
    // same way, so it makes no reversal.
    assert_eq!(count_reversals(&vec![0, 50, 45, 100], 30), 0);
    assert_eq!(count_reversals(&vec![0, 50, 45, 100, 40], 30), 1);
    // Jitter within the minimum travel never counts.
    assert_eq!(count_reversals(&vec![0, 10, 0, 10, 0, 10], 30), 0);
    assert_eq!(count_reversals(&vec![i32::MIN, i32::MAX, i32::MIN], 30), 1);
}

#[test]
fn shake_config_default() {
    let c = ShakeConfig::default();
    assert_eq!(c.reversal_threshold, 3);
    assert_eq!(c.window_ms, 600);
    assert_eq!(c.min_displacement, 30);
    assert_eq!(c.cooldown_ms, 2000);
}

#[test]
fn shake_rightward_jitter_does_not_trigger() {
    let mut d = ShakeDetector::new(ShakeConfig::default());
    for (i, x) in [0, 40, 35, 75, 70, 110, 105, 145].iter().enumerate() {
        assert!(!d.process_at(*x, 0, i as u64 * 10 * MS));
    }
    assert_eq!(count_reversals(&vec![0, 40, 35, 75, 70, 110, 105, 145], 30), 0);
}

#[test]
fn shake_ignores_translation_and_y() {
    let mut a = make_detector();
    let mut b = make_detector();
    let xs = [0, 50, 0, 50, 0, 50, 0, 50, 0, 60, 0];
    for (i, x) in xs.iter().enumerate() {
        let t = i as u64 * 20 * MS;
        assert_eq!(a.process_at(*x, 0, t), b.process_at(*x + 1000, (i as i32) * 7, t));
    }
}
