use trillium_cli::coalesce::{Coalescer, COALESCE_MILLIS};
use trillium_cli::event::Event;

#[test]
fn the_window_is_a_few_hundred_milliseconds() {
    assert_eq!(COALESCE_MILLIS, 300);
}

#[test]
fn a_burst_of_rebuilds_is_one_rebuild() {
    let mut window = Coalescer::new(300);
    let times = [1000, 1000, 1001, 1050, 1299];
    let passed: Vec<bool> = times.iter().map(|t| window.accept(&Event::Rebuild, *t)).collect();
    assert_eq!(passed, vec![true, false, false, false, false]);
}

#[test]
fn the_window_ends_after_its_length() {
    let mut window = Coalescer::new(300);
    assert!(window.accept(&Event::Rebuild, 1000));
    assert!(!window.accept(&Event::Rebuild, 1299));
    assert!(window.accept(&Event::Rebuild, 1300));
    assert!(!window.accept(&Event::Rebuild, 1599));
    assert!(window.accept(&Event::Rebuild, 1600));
}

#[test]
fn collapsed_rebuilds_do_not_move_the_window() {
    let mut window = Coalescer::new(100);
    assert!(window.accept(&Event::Rebuild, 0));
    for t in 1..100 {
        assert!(!window.accept(&Event::Rebuild, t));
    }
    assert!(window.accept(&Event::Rebuild, 100));
}

#[test]
fn other_events_always_pass() {
    let mut window = Coalescer::new(300);
    assert!(window.accept(&Event::Rebuild, 10));
    for event in [
        Event::BinaryChanged,
        Event::Restarted,
        Event::BuildSuccess,
        Event::CompileError { error: "e".to_string() },
        Event::BinaryChanged,
    ] {
        assert!(window.accept(&event, 11));
    }
    assert!(!window.accept(&Event::Rebuild, 12));
    assert!(window.accept(&Event::BinaryChanged, 400));
    assert!(window.accept(&Event::Rebuild, 400));
}

#[test]
fn a_window_without_length_collapses_nothing() {
    let mut window = Coalescer::new(0);
    for _ in 0..5 {
        assert!(window.accept(&Event::Rebuild, 7));
    }
}

#[test]
fn a_clock_that_goes_back_opens_the_window() {
    let mut window = Coalescer::new(300);
    assert!(window.accept(&Event::Rebuild, 1000));
    assert!(window.accept(&Event::Rebuild, 999));
    assert!(!window.accept(&Event::Rebuild, 1000));
}

#[test]
fn the_largest_times_do_not_overflow() {
    let mut window = Coalescer::new(u64::MAX);
    assert!(window.accept(&Event::Rebuild, 0));
    assert!(!window.accept(&Event::Rebuild, u64::MAX - 1));
    assert!(window.accept(&Event::Rebuild, u64::MAX));
    let mut window = Coalescer::new(10);
    assert!(window.accept(&Event::Rebuild, u64::MAX - 5));
    assert!(!window.accept(&Event::Rebuild, u64::MAX));
}
