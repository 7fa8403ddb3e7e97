use gytags_roster::collector::ranges_are_covered;

#[test]
fn accepts_server_coalesced_ranges() {
    assert!(ranges_are_covered(
        &[(500, 592)],
        &[(300, 399), (400, 499), (500, 599)]
    ));
}

#[test]
fn rejects_partial_range_coverage() {
    assert!(!ranges_are_covered(&[(500, 592)], &[(500, 591)]));
}

#[test]
fn nothing_required_is_always_covered() {
    assert!(ranges_are_covered(&[], &[]));
    assert!(!ranges_are_covered(&[(0, 99)], &[]));
    assert!(ranges_are_covered(&[(0, 99), (100, 199)], &[(0, 199)]));
}
