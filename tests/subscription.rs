use runar_macros::subscription::{decimal, RegistrationReport};

#[test]
fn decimal_rendering() {
    assert_eq!(decimal(0), "0");
    assert_eq!(decimal(7), "7");
    assert_eq!(decimal(10), "10");
    assert_eq!(decimal(1203), "1203");
    assert_eq!(decimal(usize::MAX), usize::MAX.to_string());
}

#[test]
fn all_registrations_succeed() {
    let mut report = RegistrationReport::new();
    report.record("on_a", "a", Ok(()));
    report.record("on_b", "svc/b", Ok(()));
    assert_eq!(report.finish(), Ok(()));
}

#[test]
fn failures_are_counted_and_listed() {
    let mut report = RegistrationReport::new();
    report.record("on_a", "a", Err("closed".to_string()));
    report.record("on_b", "b", Ok(()));
    report.record("on_c", "svc/c", Err("denied".to_string()));
    assert_eq!(
        report.finish(),
        Err("Failed to register 2 subscription(s):\n\
             Failed to register subscription for handler 'on_a' on topic 'a': closed\n\
             Failed to register subscription for handler 'on_c' on topic 'svc/c': denied"
            .to_string())
    );
}

#[test]
fn single_failure() {
    let mut report = RegistrationReport::new();
    report.record("h", "t", Err("e".to_string()));
    assert_eq!(
        report.finish(),
        Err("Failed to register 1 subscription(s):\nFailed to register subscription for handler 'h' on topic 't': e".to_string())
    );
}
