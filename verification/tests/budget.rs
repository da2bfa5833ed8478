use fed_receive::budget::RequestBudget;

#[test]
fn budget_counts_down_and_stops_at_zero() {
    let mut b = RequestBudget::new(2);
    assert_eq!(b.remaining(), 2);
    assert!(b.try_consume());
    assert_eq!(b.remaining(), 1);
    assert!(b.try_consume());
    assert_eq!(b.remaining(), 0);
    assert!(!b.try_consume());
    assert_eq!(b.remaining(), 0);
}

#[test]
fn zero_budget_allows_nothing() {
    let mut b = RequestBudget::new(0);
    assert!(!b.try_consume());
    assert_eq!(b.remaining(), 0);
}
