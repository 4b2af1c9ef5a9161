use lifo::sync::{CasCell, Head, LlScCell};

#[test]
fn compare_exchange_swaps_only_on_match() {
    let mut cell = CasCell::new(Some(3));
    assert_eq!(cell.load(), Some(3));

    // mismatch: unchanged, current value reported
    assert_eq!(cell.compare_exchange(Some(7), Some(9)), Err(Some(3)));
    assert_eq!(cell.load(), Some(3));

    // match: swapped
    assert_eq!(cell.compare_exchange(Some(3), None), Ok(()));
    assert_eq!(cell.load(), None);

    assert_eq!(cell.compare_exchange(None, Some(5)), Ok(()));
    assert_eq!(cell.load(), Some(5));
}

// The architectural property that defeats the ABA hazard: an exception taken
// between the load-link and the store-conditional makes the store fail.
#[test]
fn store_conditional_fails_after_preemption() {
    let mut cell = LlScCell::new(Some(3));

    let seen = cell.ldrex();
    assert_eq!(seen, Some(3));
    cell.preempt();
    assert!(!cell.strex(Some(4)));
    assert_eq!(cell.load(), Some(3));

    // undisturbed, the paired load-link/store-conditional succeeds
    let seen = cell.ldrex();
    assert_eq!(seen, Some(3));
    assert!(cell.strex(Some(5)));
    assert_eq!(cell.load(), Some(5));

    // a store-conditional without any reservation at all fails too
    assert!(!cell.strex(Some(6)));
    assert_eq!(cell.load(), Some(5));
}

#[test]
fn clear_exclusive_drops_the_reservation() {
    let mut cell = LlScCell::new(None);

    let seen = cell.ldrex();
    assert_eq!(seen, None);
    cell.clrex();
    assert!(!cell.strex(Some(1)));
    assert_eq!(cell.load(), None);
}

#[test]
fn both_backends_meet_the_swap_contract() {
    let mut cas = Head::new_cas();
    let observed = cas.observe();
    assert_eq!(observed, None);
    assert_eq!(cas.attempt_swap(observed, Some(2)), Ok(()));
    let observed = cas.observe();
    assert_eq!(observed, Some(2));
    cas.abandon();

    let mut llsc = Head::new_llsc();
    let observed = llsc.observe();
    assert_eq!(observed, None);
    assert_eq!(llsc.attempt_swap(observed, Some(2)), Ok(()));
    let observed = llsc.observe();
    assert_eq!(observed, Some(2));
    llsc.abandon();
    // after abandoning the observation, the hardware-assisted swap reports
    // failure and changes nothing
    assert!(llsc.attempt_swap(observed, Some(3)).is_err());
    let observed = llsc.observe();
    assert_eq!(observed, Some(2));
    llsc.abandon();
}
