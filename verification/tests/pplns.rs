use aleo_pool_server::pool::accounting::{
    pplns_to_provers_shares, AccountingAction, AccountingMessage, Share, PPLNS,
};

fn window(p: &PPLNS) -> Vec<(u64, String)> {
    p.shares().into_iter().map(|s| (s.value, s.owner)).collect()
}

fn pplns_with_n(n: u64) -> PPLNS {
    let mut p = PPLNS::new();
    p.set_n(n);
    p
}

#[test]
fn share_init_keeps_value_and_owner() {
    let s = Share::init(42, "aleo1owner".to_string());
    assert_eq!(s.value, 42);
    assert_eq!(s.owner, "aleo1owner");
}

#[test]
fn new_window_is_empty_with_zero_n() {
    let p = PPLNS::new();
    assert_eq!(p.n(), 0);
    assert_eq!(p.current_n(), 0);
    assert!(p.shares().is_empty());
}

#[test]
fn shares_before_any_n_are_dropped() {
    let mut p = PPLNS::new();
    p.add_share(Share::init(5, "a".to_string()));
    assert!(p.shares().is_empty());
    assert_eq!(p.current_n(), 0);
}

#[test]
fn add_share_keeps_most_recent_shares_within_n() {
    let mut p = pplns_with_n(10);
    p.add_share(Share::init(4, "a".to_string()));
    p.add_share(Share::init(3, "b".to_string()));
    p.add_share(Share::init(3, "a".to_string()));
    assert_eq!(p.current_n(), 10);
    assert_eq!(window(&p).len(), 3);
    p.add_share(Share::init(2, "c".to_string()));
    // the oldest share (4) goes: 3 + 3 + 2 = 8 fits
    assert_eq!(
        window(&p),
        vec![(3, "b".to_string()), (3, "a".to_string()), (2, "c".to_string())]
    );
    assert_eq!(p.current_n(), 8);
}

#[test]
fn share_larger_than_n_empties_window() {
    let mut p = pplns_with_n(10);
    p.add_share(Share::init(4, "a".to_string()));
    p.add_share(Share::init(11, "b".to_string()));
    assert!(window(&p).is_empty());
    assert_eq!(p.current_n(), 0);
}

#[test]
fn share_exactly_n_is_kept_alone() {
    let mut p = pplns_with_n(10);
    p.add_share(Share::init(4, "a".to_string()));
    p.add_share(Share::init(10, "b".to_string()));
    assert_eq!(window(&p), vec![(10, "b".to_string())]);
}

#[test]
fn lowering_n_drops_oldest_shares() {
    let mut p = pplns_with_n(100);
    for (v, o) in [(10, "a"), (20, "b"), (30, "c"), (40, "d")] {
        p.add_share(Share::init(v, o.to_string()));
    }
    assert_eq!(p.current_n(), 100);
    p.set_n(70);
    assert_eq!(window(&p), vec![(30, "c".to_string()), (40, "d".to_string())]);
    assert_eq!(p.current_n(), 70);
    assert_eq!(p.n(), 70);
}

#[test]
fn raising_n_keeps_every_share() {
    let mut p = pplns_with_n(50);
    p.add_share(Share::init(20, "a".to_string()));
    p.add_share(Share::init(30, "b".to_string()));
    p.set_n(1000);
    assert_eq!(window(&p), vec![(20, "a".to_string()), (30, "b".to_string())]);
    assert_eq!(p.n(), 1000);
}

#[test]
fn provers_shares_sum_per_owner() {
    let mut p = pplns_with_n(1000);
    for (v, o) in [(10, "a"), (20, "b"), (5, "a"), (1, "c"), (7, "b")] {
        p.add_share(Share::init(v, o.to_string()));
    }
    let (count, totals) = pplns_to_provers_shares(&p);
    assert_eq!(count, 3);
    assert_eq!(
        totals,
        vec![("a".to_string(), 15), ("b".to_string(), 27), ("c".to_string(), 1)]
    );
}

#[test]
fn provers_shares_of_empty_window() {
    let p = PPLNS::new();
    let (count, totals) = pplns_to_provers_shares(&p);
    assert_eq!(count, 0);
    assert!(totals.is_empty());
}

#[test]
fn restore_accepts_consistent_parts() {
    let shares = vec![Share::init(3, "a".to_string()), Share::init(4, "b".to_string())];
    let p = PPLNS::restore(shares, 7, 10).expect("consistent window");
    assert_eq!(window(&p), vec![(3, "a".to_string()), (4, "b".to_string())]);
    assert_eq!(p.current_n(), 7);
    assert_eq!(p.n(), 10);
}

#[test]
fn restore_refuses_wrong_total() {
    let shares = vec![Share::init(3, "a".to_string()), Share::init(4, "b".to_string())];
    assert!(PPLNS::restore(shares, 8, 10).is_none());
}

#[test]
fn restore_refuses_total_above_n() {
    let shares = vec![Share::init(3, "a".to_string()), Share::init(4, "b".to_string())];
    assert!(PPLNS::restore(shares, 7, 6).is_none());
}

#[test]
fn restore_refuses_overflowing_total() {
    let shares = vec![Share::init(u64::MAX, "a".to_string()), Share::init(4, "b".to_string())];
    assert!(PPLNS::restore(shares, 3, u64::MAX).is_none());
}

#[test]
fn handle_applies_messages() {
    let mut p = PPLNS::new();
    assert!(matches!(p.handle(AccountingMessage::SetN(10)), AccountingAction::Done));
    assert_eq!(p.n(), 10);
    assert!(matches!(
        p.handle(AccountingMessage::NewShare("a".to_string(), 6)),
        AccountingAction::Done
    ));
    assert!(matches!(
        p.handle(AccountingMessage::NewShare("b".to_string(), 6)),
        AccountingAction::Done
    ));
    assert_eq!(window(&p), vec![(6, "b".to_string())]);
    match p.handle(AccountingMessage::NewSolution("commitment".to_string())) {
        AccountingAction::RecordSolution(c, count, totals) => {
            assert_eq!(c, "commitment");
            assert_eq!(count, 1);
            assert_eq!(totals, vec![("b".to_string(), 6)]);
        }
        _ => panic!("expected a solution record"),
    }
    assert!(matches!(p.handle(AccountingMessage::Exit), AccountingAction::SaveAndExit));
    assert_eq!(window(&p), vec![(6, "b".to_string())]);
}
