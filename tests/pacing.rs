use spidy_fetch::pacing::Backoff;

#[test]
fn delays_grow_by_half_up_to_the_cap() {
    let mut b = Backoff::new(2);
    let got: Vec<u64> = (0..7).map(|_| b.next_delay()).collect();
    assert_eq!(got, vec![500, 750, 1125, 1687, 2000, 2000, 2000]);
    assert_eq!(b.max_delay(), 2000);
}

#[test]
fn delays_never_decrease_nor_pass_the_cap() {
    let mut b = Backoff::new(60);
    let mut last = 0;
    for _ in 0..40 {
        let d = b.next_delay();
        assert!(d >= last);
        assert!(d <= 60_000);
        last = d;
    }
    assert_eq!(last, 60_000);
}

#[test]
fn zero_cap_gives_no_pause() {
    let mut b = Backoff::new(0);
    assert_eq!(b.next_delay(), 0);
    assert_eq!(b.next_delay(), 0);
}

#[test]
fn huge_cap_saturates() {
    let mut b = Backoff::new(u64::MAX);
    assert_eq!(b.max_delay(), u64::MAX);
    assert_eq!(b.next_delay(), 500);
}
