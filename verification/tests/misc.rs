use jwt_forward_auth::args::ansi;
use jwt_forward_auth::probes::{healthz, readyz};
use jwt_forward_auth::utils::atomic_instant::AtomicInstant;
use jwt_forward_auth::utils::clock::{gap, micros_since_epoch, span_micros};
use jwt_forward_auth::utils::entries::{contains_name, find};
use jwt_forward_auth::utils::reloadable::{on_watch, relevant, EventKind, ModifyKind, WatchAction};
use jwt_forward_auth::States;
use std::time::{Duration, SystemTime, UNIX_EPOCH};

#[test]
fn health_probe_says_ok() {
    let probe = healthz();
    assert_eq!(probe.status, 200);
    assert_eq!(probe.body, "OK");
}

#[test]
fn readiness_probe_follows_the_lifecycle() {
    let starting = readyz(States::Starting);
    assert_eq!((starting.status, starting.body), (503, "Starting"));
    let running = readyz(States::Running);
    assert_eq!((running.status, running.body), (200, "OK"));
    let faulty = readyz(States::FaultyConfig);
    assert_eq!((faulty.status, faulty.body), (500, "Faulty configuration"));
}

#[test]
fn colors_stay_as_asked_while_the_variable_is_off() {
    for flag in [true, false] {
        assert_eq!(ansi(flag, None), flag);
        assert_eq!(ansi(flag, Some(b"0")), flag);
        assert_eq!(ansi(flag, Some(b"f")), flag);
        assert_eq!(ansi(flag, Some(b"false")), flag);
    }
}

#[test]
fn any_other_value_of_the_variable_switches_colors_off() {
    for value in [&b"1"[..], b"true", b"t", b"", b"False", b"00", b"\xff"] {
        assert!(!ansi(true, Some(value)));
        assert!(!ansi(false, Some(value)));
    }
}

#[test]
fn events_that_may_change_the_file_are_relevant() {
    assert!(relevant(EventKind::Any));
    assert!(relevant(EventKind::Create));
    assert!(relevant(EventKind::Remove));
    assert!(relevant(EventKind::Modify(ModifyKind::Any)));
    assert!(relevant(EventKind::Modify(ModifyKind::Data)));
    assert!(relevant(EventKind::Modify(ModifyKind::Name)));
    assert!(relevant(EventKind::Modify(ModifyKind::Other)));
}

#[test]
fn access_and_metadata_events_are_ignored() {
    assert!(!relevant(EventKind::Access));
    assert!(!relevant(EventKind::Other));
    assert!(!relevant(EventKind::Modify(ModifyKind::Metadata)));
}

#[test]
fn watcher_messages_decide_what_is_done() {
    assert_eq!(on_watch(Some(EventKind::Modify(ModifyKind::Data))), WatchAction::Reload);
    assert_eq!(on_watch(Some(EventKind::Remove)), WatchAction::Reload);
    assert_eq!(on_watch(Some(EventKind::Access)), WatchAction::Ignore);
    assert_eq!(on_watch(Some(EventKind::Modify(ModifyKind::Metadata))), WatchAction::Ignore);
    assert_eq!(on_watch(None), WatchAction::Report);
}

#[test]
fn find_gives_the_first_entry_of_a_name() {
    let entries = vec![
        ("a".to_string(), 1u64),
        ("b".to_string(), 2u64),
        ("a".to_string(), 3u64),
    ];
    assert_eq!(find(&entries, "a"), Some(0));
    assert_eq!(find(&entries, "b"), Some(1));
    assert_eq!(find(&entries, "c"), None);
    assert_eq!(find(&Vec::<(String, u64)>::new(), "a"), None);
}

#[test]
fn contains_name_looks_for_the_whole_name() {
    let names = vec!["alpha".to_string(), "beta".to_string()];
    assert!(contains_name(&names, "beta"));
    assert!(!contains_name(&names, "bet"));
    assert!(!contains_name(&Vec::new(), ""));
}

#[test]
fn gap_runs_forward_or_backward() {
    assert_eq!(gap(10, 25), Ok(Duration::from_micros(15)));
    assert_eq!(gap(25, 10), Err(Duration::from_micros(15)));
    assert_eq!(gap(7, 7), Ok(Duration::from_micros(0)));
    assert_eq!(gap(0, u64::MAX), Ok(Duration::from_micros(u64::MAX)));
    assert_eq!(gap(u64::MAX, 0), Err(Duration::from_micros(u64::MAX)));
}

#[test]
fn spans_are_held_in_whole_microseconds() {
    assert_eq!(span_micros(&Duration::from_micros(1_500_000)), 1_500_000);
    assert_eq!(span_micros(&Duration::from_nanos(1_999)), 1);
    assert_eq!(span_micros(&Duration::from_secs(3)), 3_000_000);
    assert_eq!(span_micros(&Duration::ZERO), 0);
}

#[test]
fn spans_beyond_64_bits_are_cut_off() {
    let span = Duration::from_secs(u64::MAX);
    let expected = (span.as_micros() % (1u128 << 64)) as u64;
    assert_eq!(span_micros(&span), expected);
}

#[test]
fn times_are_counted_from_the_epoch() {
    assert_eq!(micros_since_epoch(&UNIX_EPOCH), Some(0));
    assert_eq!(micros_since_epoch(&(UNIX_EPOCH + Duration::from_millis(2))), Some(2_000));
    assert_eq!(micros_since_epoch(&(UNIX_EPOCH - Duration::from_secs(1))), None);
}

#[test]
fn empty_instant_is_the_epoch() {
    let instant = AtomicInstant::empty();
    assert_eq!(instant.micros(), 0);
    assert_eq!(instant.to_system_time(), Some(UNIX_EPOCH));
}

#[test]
fn instant_holds_its_microseconds() {
    let instant = AtomicInstant::new(1_500_000);
    assert_eq!(instant.micros(), 1_500_000);
    assert_eq!(instant.to_system_time(), Some(UNIX_EPOCH + Duration::from_micros(1_500_000)));
}

#[test]
fn instant_of_now_lies_between_two_readings_of_the_clock() {
    let before = micros_since_epoch(&SystemTime::now()).expect("a clock after the epoch");
    let instant = AtomicInstant::now().expect("a clock after the epoch");
    let after = micros_since_epoch(&SystemTime::now()).expect("a clock after the epoch");
    assert!(before <= instant.micros());
    assert!(instant.micros() <= after);
}

#[test]
fn to_now_sets_the_instant_to_the_clock() {
    let instant = AtomicInstant::empty();
    let before = micros_since_epoch(&SystemTime::now()).expect("a clock after the epoch");
    assert!(instant.to_now());
    assert!(before <= instant.micros());
}

#[test]
fn duration_until_later_time_is_ok() {
    let instant = AtomicInstant::new(1_000_000);
    assert_eq!(
        instant.duration_until(UNIX_EPOCH + Duration::from_secs(3)),
        Ok(Duration::from_secs(2))
    );
    assert_eq!(instant.duration_until(UNIX_EPOCH + Duration::from_secs(1)), Ok(Duration::ZERO));
}

#[test]
fn duration_until_earlier_time_is_err() {
    let instant = AtomicInstant::new(5_000_000);
    assert_eq!(
        instant.duration_until(UNIX_EPOCH + Duration::from_secs(3)),
        Err(Duration::from_secs(2))
    );
}

#[test]
fn duration_since_earlier_time_is_ok() {
    let instant = AtomicInstant::new(5_000_000);
    assert_eq!(
        instant.duration_since(UNIX_EPOCH + Duration::from_secs(3)),
        Ok(Duration::from_secs(2))
    );
}

#[test]
fn duration_since_later_time_is_err() {
    let instant = AtomicInstant::new(1_000_000);
    assert_eq!(
        instant.duration_since(UNIX_EPOCH + Duration::from_secs(3)),
        Err(Duration::from_secs(2))
    );
}

#[test]
fn durations_ignore_what_is_below_a_microsecond() {
    let instant = AtomicInstant::new(1);
    assert_eq!(instant.duration_until(UNIX_EPOCH + Duration::from_nanos(2_999)), Ok(Duration::from_micros(1)));
}

#[test]
fn elapsed_since_the_epoch_is_ok() {
    let instant = AtomicInstant::empty();
    let elapsed = instant.elapsed().expect("a clock after the epoch");
    assert!(elapsed.is_ok());
}

#[test]
fn elapsed_of_an_instant_ahead_of_the_clock_is_err() {
    let instant = AtomicInstant::new(u64::MAX);
    let elapsed = instant.elapsed().expect("a clock after the epoch");
    assert!(elapsed.is_err());
}

#[test]
fn add_moves_the_instant_forward() {
    let instant = AtomicInstant::new(10);
    instant.add(Duration::from_micros(5));
    assert_eq!(instant.micros(), 15);
    instant.add(Duration::from_nanos(2_500));
    assert_eq!(instant.micros(), 17);
}

#[test]
fn sub_moves_the_instant_back() {
    let instant = AtomicInstant::new(10);
    instant.sub(Duration::from_micros(4));
    assert_eq!(instant.micros(), 6);
}

#[test]
fn add_and_sub_wrap_around() {
    let instant = AtomicInstant::new(u64::MAX);
    instant.add(Duration::from_micros(2));
    assert_eq!(instant.micros(), 1);
    instant.sub(Duration::from_micros(3));
    assert_eq!(instant.micros(), u64::MAX - 1);
}

#[test]
fn copy_of_instant_does_not_follow_it() {
    let instant = AtomicInstant::new(10);
    let copy = instant.copy();
    instant.add(Duration::from_micros(1));
    assert_eq!(copy.micros(), 10);
    assert_eq!(instant.micros(), 11);
}
