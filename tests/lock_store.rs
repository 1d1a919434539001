use coyote::condition::{condition_met, condition_path, ConditionError};
use coyote::decimal::{format_decimal, parse_decimal};
use coyote::lock::CoyoteLock;

fn s(x: &str) -> String {
    x.to_string()
}

fn cond(parts: &[&str]) -> Vec<String> {
    parts.iter().map(|p| s(p)).collect()
}

#[test]
fn lock_store_round_trip() {
    let mut lock = CoyoteLock::new();
    lock.set(s("src/main.c"), 1700000000);
    lock.set(s("Makefile"), 0);
    lock.set(s("src/main.c"), 1700000123);
    let entries = lock.to_entries();
    assert_eq!(entries.len(), 2);
    assert!(entries.contains(&(s("src/main.c"), s("1700000123"))));
    assert!(entries.contains(&(s("Makefile"), s("0"))));
    let back = CoyoteLock::from_entries(&entries).ok().unwrap();
    assert_eq!(back.get(&s("src/main.c")), Some(1700000123));
    assert_eq!(back.get(&s("Makefile")), Some(0));
    assert_eq!(back.get(&s("other")), None);
    assert_eq!(back.to_entries().len(), 2);
}

#[test]
fn empty_lock_store_round_trip() {
    let entries = CoyoteLock::new().to_entries();
    assert!(entries.is_empty());
    let back = CoyoteLock::from_entries(&entries).ok().unwrap();
    assert!(back.to_entries().is_empty());
}

#[test]
fn malformed_timestamp_is_rejected() {
    let entries = vec![(s("a"), s("12")), (s("b"), s("12x"))];
    match CoyoteLock::from_entries(&entries) {
        Err(e) => {
            assert_eq!(e.path, "b");
            assert_eq!(e.value, "12x");
        }
        Ok(_) => panic!("expected a lock error"),
    }
}

#[test]
fn decimal_text_is_exact() {
    assert_eq!(format_decimal(0), "0");
    assert_eq!(format_decimal(1234567890), "1234567890");
    assert_eq!(format_decimal(u64::MAX), "18446744073709551615");
    assert_eq!(parse_decimal(&s("18446744073709551615")), Some(u64::MAX));
    assert_eq!(parse_decimal(&s("18446744073709551616")), None);
    assert_eq!(parse_decimal(&s("007")), Some(7));
    assert_eq!(parse_decimal(&s("")), None);
    assert_eq!(parse_decimal(&s("-1")), None);
    assert_eq!(parse_decimal(&s("1 2")), None);
}

#[test]
fn first_time_condition_is_met_and_recorded() {
    let mut lock = CoyoteLock::new();
    let c = cond(&["modified", "main.c"]);
    assert!(matches!(condition_met(&c, &s("all"), &mut lock, Some(100)), Ok(true)));
    assert_eq!(lock.get(&s("main.c")), Some(100));
}

#[test]
fn unchanged_file_condition_is_met_once() {
    let mut lock = CoyoteLock::new();
    let c = cond(&["modified", "main.c"]);
    assert!(matches!(condition_met(&c, &s("all"), &mut lock, Some(100)), Ok(true)));
    assert!(matches!(condition_met(&c, &s("all"), &mut lock, Some(100)), Ok(false)));
    assert_eq!(lock.get(&s("main.c")), Some(100));
}

#[test]
fn changed_timestamp_is_met_in_either_direction() {
    let mut lock = CoyoteLock::new();
    let c = cond(&["modified", "main.c"]);
    lock.set(s("main.c"), 100);
    assert!(matches!(condition_met(&c, &s("all"), &mut lock, Some(101)), Ok(true)));
    assert_eq!(lock.get(&s("main.c")), Some(101));
    assert!(matches!(condition_met(&c, &s("all"), &mut lock, Some(50)), Ok(true)));
    assert_eq!(lock.get(&s("main.c")), Some(50));
}

#[test]
fn observe_reports_modification() {
    let mut lock = CoyoteLock::new();
    assert!(lock.observe(&s("p"), 3));
    assert!(!lock.observe(&s("p"), 3));
    assert!(lock.observe(&s("p"), 4));
    assert_eq!(lock.get(&s("p")), Some(4));
}

#[test]
fn malformed_conditions_are_errors() {
    let mut lock = CoyoteLock::new();
    let t = s("lib");
    assert!(matches!(condition_met(&cond(&[]), &t, &mut lock, Some(1)),
        Err(ConditionError::NoCondition { target }) if target == "lib"));
    assert!(matches!(condition_met(&cond(&["changed", "x"]), &t, &mut lock, Some(1)),
        Err(ConditionError::UnknownCondition { verb, target }) if verb == "changed" && target == "lib"));
    assert!(matches!(condition_met(&cond(&["modified"]), &t, &mut lock, Some(1)),
        Err(ConditionError::WrongArity { target }) if target == "lib"));
    assert!(matches!(condition_met(&cond(&["modified", "a", "b"]), &t, &mut lock, Some(1)),
        Err(ConditionError::WrongArity { .. })));
    assert!(lock.to_entries().is_empty());
}

#[test]
fn unreadable_file_is_an_error() {
    let mut lock = CoyoteLock::new();
    assert!(matches!(condition_met(&cond(&["modified", "gone"]), &s("t"), &mut lock, None),
        Err(ConditionError::Unreadable { path }) if path == "gone"));
    assert!(lock.to_entries().is_empty());
}

#[test]
fn condition_path_gives_watched_path() {
    assert!(matches!(condition_path(&cond(&["modified", "a.txt"]), &s("t")), Ok(p) if p == "a.txt"));
}
