use learning_core::domains::graph::weights::{is_heavier, weight_fraction, Weight};

fn weight(traversals: i64, backups: i64) -> f64 {
    let (n, d) = weight_fraction(traversals, backups);
    n as f64 / d as f64
}

#[test]
fn test_fresh_edge() {
    assert_eq!(weight(0, 0), 0.0);
}

#[test]
fn test_strong_endorsement() {
    assert_eq!(weight(10, 0), 1.0);
}

#[test]
fn test_mixed_signal() {
    let w = weight(10, 3);
    assert!((w - 4.0 / 13.0).abs() < 0.01);
}

#[test]
fn test_cancelled_out() {
    assert_eq!(weight(1, 1), 0.0);
}

#[test]
fn test_more_backups_than_traversals() {
    assert_eq!(weight(1, 5), 0.0);
}

#[test]
fn weight_fraction_is_exact() {
    assert_eq!(weight_fraction(10, 3), (4, 13));
    assert_eq!(weight_fraction(0, 0), (0, 1));
    assert_eq!(weight_fraction(1, 0), (1, 1));
    assert_eq!(weight_fraction(i64::MAX, 0), (i64::MAX as u128, i64::MAX as u128));
}

#[test]
fn heavier_compares_exact_fractions() {
    let a = Weight { traversals: 10, backups: 3 };
    let b = Weight { traversals: 3, backups: 1 };
    // 4/13 against 1/4
    assert!(is_heavier(a, b));
    assert!(!is_heavier(b, a));
    assert!(!is_heavier(a, a));
    let full = Weight { traversals: 1, backups: 0 };
    let fuller = Weight { traversals: 100, backups: 0 };
    assert!(!is_heavier(full, fuller));
    assert!(!is_heavier(fuller, full));
}

#[test]
fn traversal_and_backup_move_the_weight() {
    let w = Weight { traversals: 4, backups: 1 };
    let t = w.traversed();
    assert_eq!((t.traversals, t.backups), (5, 1));
    assert!(!is_heavier(w, t));
    let b = w.backed_up();
    assert_eq!((b.traversals, b.backups), (4, 2));
    assert!(!is_heavier(b, w));
    assert!(is_heavier(w, b));
}
