use http_body_util::SizeHint;

fn hint(lower: u64, upper: Option<u64>) -> SizeHint {
    let mut hint = SizeHint::new();
    hint.set_lower(lower);
    if let Some(upper) = upper {
        hint.set_upper(upper);
    }
    hint
}

fn bounds(hint: SizeHint) -> (u64, Option<u64>) {
    (hint.lower(), hint.upper())
}

#[test]
fn default_says_nothing() {
    assert_eq!(bounds(SizeHint::default()), (0, None));
    assert_eq!(bounds(SizeHint::new()), (0, None));
}

#[test]
fn exact_hints() {
    assert_eq!(bounds(SizeHint::with_exact(42)), (42, Some(42)));
    let mut hint = hint(1, Some(9));
    hint.set_exact(5);
    assert_eq!(bounds(hint), (5, Some(5)));
}

#[test]
fn sums() {
    let sum = hint(1, Some(2)).checked_add(hint(10, Some(20))).unwrap();
    assert_eq!(bounds(sum), (11, Some(22)));
    let sum = hint(1, None).checked_add(hint(10, Some(20))).unwrap();
    assert_eq!(bounds(sum), (11, None));
    let sum = hint(1, Some(2)).checked_add(hint(10, None)).unwrap();
    assert_eq!(bounds(sum), (11, None));
    let sum = hint(1, None).checked_add(hint(10, None)).unwrap();
    assert_eq!(bounds(sum), (11, None));
}

#[test]
fn sums_that_overflow() {
    assert!(hint(u64::MAX, None).checked_add(hint(1, None)).is_none());
    assert!(hint(0, Some(u64::MAX)).checked_add(hint(0, Some(1))).is_none());
    let sum = hint(0, Some(u64::MAX)).checked_add(hint(0, None)).unwrap();
    assert_eq!(bounds(sum), (0, None));
    let sum = hint(u64::MAX, None).checked_add(hint(0, Some(7))).unwrap();
    assert_eq!(bounds(sum), (u64::MAX, None));
}
