use betfair_ocm::state::OcmState;
use betfair_ocm::types::{ClientOrderId, InstrumentId, Quantity, UnixNanos};

fn order(value: &str) -> ClientOrderId {
    ClientOrderId {
        value: value.to_string(),
        customer_order_ref: value.to_string(),
        legacy_customer_order_ref: value.to_string(),
    }
}

fn instrument(symbol: &str) -> InstrumentId {
    InstrumentId { symbol: symbol.to_string(), venue: "BETFAIR".to_string() }
}

fn quantity(units: u128) -> Quantity {
    Quantity { raw: units * 1_000_000_000, precision: 0 }
}

fn nanos(nanos: u64) -> UnixNanos {
    UnixNanos { nanos }
}

fn key(value: &str, bet_id: &str) -> (String, String) {
    (value.to_string(), bet_id.to_string())
}

#[test]
fn resolve_pending_replace_moves_old_bet_to_replaced_state() {
    let client_order_id = order("O-REPLACE");
    let old_bet_id = "old-bet".to_string();
    let instrument_id = instrument("1.100-1-0");
    let mut state = OcmState::default();
    state.register_pending_replace(
        client_order_id.clone(),
        old_bet_id.clone(),
        instrument_id.clone(),
        quantity(10),
        quantity(3),
    );

    let pending = state
        .resolve_pending_replace(&client_order_id, "new-bet", instrument_id.clone())
        .unwrap();
    assert_eq!(pending.instrument_id, instrument_id);
    assert_eq!(pending.quantity, quantity(10));
    assert_eq!(pending.filled_qty, quantity(3));
    assert!(state.pending_update_keys.is_empty());
    assert_eq!(state.replaced_venue_order_ids.len(), 1);
    assert!(state.replaced_venue_order_ids.contains(&old_bet_id));
    assert!(state
        .resolve_pending_replace(&client_order_id, "newer-bet", instrument_id)
        .is_none());
}

#[test]
fn pending_replace_requires_matching_instrument_and_completed_ambiguity_window() {
    let client_order_id = order("O-REPLACE-COLLISION");
    let instrument_id = instrument("1.100-1-0");
    let foreign_instrument_id = instrument("1.200-2-0");
    let old_bet_id = "old-bet";
    let mut state = OcmState::default();
    state.register_pending_replace(
        client_order_id.clone(),
        old_bet_id.to_string(),
        instrument_id.clone(),
        quantity(10),
        quantity(0),
    );

    assert!(!state.pending_replace_reconcilable(&client_order_id, old_bet_id, nanos(20)));
    assert!(state.mark_pending_replace_ambiguous(&client_order_id, old_bet_id, nanos(20)));
    assert!(!state.pending_replace_reconcilable(&client_order_id, old_bet_id, nanos(19)));
    assert!(state.pending_replace_reconcilable(&client_order_id, old_bet_id, nanos(20)));
    assert!(state
        .resolve_pending_replace(&client_order_id, "foreign-bet", foreign_instrument_id)
        .is_none());
    assert!(state
        .resolve_pending_replace(&client_order_id, "new-bet", instrument_id)
        .is_some());
}

#[test]
fn historical_replaced_bet_cannot_resolve_later_replace() {
    let client_order_id = order("O-REPLACE-TWICE");
    let instrument_id = instrument("1.100-1-0");
    let mut state = OcmState::default();
    state.register_pending_replace(
        client_order_id.clone(),
        "bet-1".to_string(),
        instrument_id.clone(),
        quantity(10),
        quantity(0),
    );
    assert!(state
        .resolve_pending_replace(&client_order_id, "bet-2", instrument_id.clone())
        .is_some());
    state.register_pending_replace(
        client_order_id.clone(),
        "bet-2".to_string(),
        instrument_id.clone(),
        quantity(10),
        quantity(0),
    );

    assert!(state
        .resolve_pending_replace(&client_order_id, "bet-1", instrument_id.clone())
        .is_none());
    assert_eq!(
        state.pending_replace(&client_order_id).map(|(bet_id, _)| bet_id),
        Some("bet-2".to_string()),
    );
    assert!(state
        .resolve_pending_replace(&client_order_id, "bet-3", instrument_id)
        .is_some());
}

#[test]
fn pending_replace_suppresses_cancels_until_cleared() {
    let id = order("O-1");
    let mut state = OcmState::default();
    assert!(!state.should_suppress_cancel(&id, "bet-1"));
    state.register_pending_replace(
        id.clone(),
        "bet-1".to_string(),
        instrument("1.1-1-0"),
        quantity(7),
        quantity(2),
    );
    assert!(state.should_suppress_cancel(&id, "bet-1"));
    assert!(!state.should_suppress_cancel(&id, "bet-2"));
    assert!(!state.should_suppress_cancel(&order("O-2"), "bet-1"));
    assert!(state.pending_update_keys.contains(&key("O-1", "bet-1")));

    let cleared = state.clear_pending_replace(&id, "bet-1").unwrap();
    assert_eq!(cleared.quantity, quantity(7));
    assert_eq!(cleared.filled_qty, quantity(2));
    assert!(!state.should_suppress_cancel(&id, "bet-1"));
    assert!(state.pending_update_keys.is_empty());
    assert!(state.replaced_venue_order_ids.is_empty());
    assert!(state.clear_pending_replace(&id, "bet-1").is_none());
}

#[test]
fn completed_replace_stays_suppressed() {
    let id = order("O-1");
    let mut state = OcmState::default();
    state.register_pending_replace(
        id.clone(),
        "bet-1".to_string(),
        instrument("1.1-1-0"),
        quantity(7),
        quantity(2),
    );
    assert_eq!(
        state.pending_replace_for_bet(&id, "bet-1").map(|p| p.quantity),
        Some(quantity(7)),
    );
    assert!(state.complete_pending_replace(&id, "bet-1").is_some());
    assert!(state.pending_replace_for_bet(&id, "bet-1").is_none());
    assert!(state.pending_replace(&id).is_none());
    assert!(state.should_suppress_cancel(&id, "bet-1"));
    assert!(state.should_suppress_cancel(&order("O-2"), "bet-1"));
    assert!(state.complete_pending_replace(&id, "bet-1").is_none());
    assert_eq!(state.replaced_venue_order_ids.len(), 1);
}

#[test]
fn completing_an_unknown_replace_replaces_nothing() {
    let id = order("O-1");
    let mut state = OcmState::default();
    assert!(state.complete_pending_replace(&id, "bet-1").is_none());
    assert!(state.replaced_venue_order_ids.is_empty());
    assert!(!state.mark_pending_replace_ambiguous(&id, "bet-1", nanos(1)));
    assert!(!state.pending_replace_reconcilable(&id, "bet-1", nanos(u64::MAX)));
}

#[test]
fn replacement_settles_all_bets_of_the_order_on_the_instrument() {
    let id = order("O-1");
    let here = instrument("1.1-1-0");
    let there = instrument("1.2-1-0");
    let mut state = OcmState::default();
    for bet_id in ["bet-1", "bet-2", "bet-new"] {
        state.register_pending_replace(
            id.clone(),
            bet_id.to_string(),
            here.clone(),
            quantity(1),
            quantity(0),
        );
    }
    state.register_pending_replace(
        id.clone(),
        "bet-there".to_string(),
        there,
        quantity(2),
        quantity(0),
    );
    state.register_pending_replace(
        order("O-2"),
        "bet-other".to_string(),
        here.clone(),
        quantity(3),
        quantity(0),
    );

    let settled = state.resolve_pending_replace(&id, "bet-new", here.clone()).unwrap();
    assert_eq!(settled.quantity, quantity(1));
    assert_eq!(state.replaced_venue_order_ids.len(), 2);
    assert!(state.replaced_venue_order_ids.contains("bet-1"));
    assert!(state.replaced_venue_order_ids.contains("bet-2"));
    assert!(state.pending_replace_for_bet(&id, "bet-new").is_some());
    assert!(state.pending_replace_for_bet(&id, "bet-there").is_some());
    assert!(state.pending_replace_for_bet(&order("O-2"), "bet-other").is_some());
    assert_eq!(state.pending_update_keys.len(), 3);
    assert!(state.resolve_pending_replace(&id, "bet-new", here).is_none());
}

#[test]
fn instruments_differ_by_symbol_or_venue() {
    let id = order("O-1");
    let here = instrument("1.1-1-0");
    let elsewhere = InstrumentId { symbol: "1.1-1-0".to_string(), venue: "SIM".to_string() };
    let mut state = OcmState::default();
    state.register_pending_replace(
        id.clone(),
        "bet-1".to_string(),
        here.clone(),
        quantity(1),
        quantity(0),
    );
    assert!(state.resolve_pending_replace(&id, "bet-2", elsewhere).is_none());
    assert!(state.resolve_pending_replace(&id, "bet-1", here.clone()).is_none());
    assert!(state.resolve_pending_replace(&id, "bet-2", here).is_some());
}

#[test]
fn ambiguity_keeps_the_terms_and_registering_anew_takes_it_back() {
    let id = order("O-1");
    let mut state = OcmState::default();
    state.register_pending_replace(
        id.clone(),
        "bet-1".to_string(),
        instrument("1.1-1-0"),
        quantity(7),
        quantity(2),
    );
    assert!(state.mark_pending_replace_ambiguous(&id, "bet-1", nanos(5)));
    let pending = state.pending_replace_for_bet(&id, "bet-1").unwrap();
    assert_eq!(pending.quantity, quantity(7));
    assert_eq!(pending.reconcile_after, Some(nanos(5)));
    assert!(state.pending_replace_reconcilable(&id, "bet-1", nanos(6)));
    state.register_pending_replace(
        id.clone(),
        "bet-1".to_string(),
        instrument("1.1-1-0"),
        quantity(7),
        quantity(2),
    );
    assert!(!state.pending_replace_reconcilable(&id, "bet-1", nanos(6)));
}

#[test]
fn walks_are_answered_in_their_order() {
    let id = order("O-1");
    let here = instrument("1.1-1-0");
    let mut state = OcmState::default();
    for (bet_id, units) in [("bet-1", 1u128), ("bet-2", 2), ("bet-3", 3)] {
        state.register_pending_replace(
            id.clone(),
            bet_id.to_string(),
            here.clone(),
            quantity(units),
            quantity(0),
        );
    }
    state.register_pending_replace(
        order("O-2"),
        "bet-4".to_string(),
        here.clone(),
        quantity(4),
        quantity(0),
    );
    let walk = vec![
        key("O-2", "bet-4"),
        key("O-1", "bet-9"),
        key("O-1", "bet-3"),
        key("O-1", "bet-2"),
        key("O-1", "bet-1"),
    ];

    let (bet_id, pending) = state.first_pending_replace(&walk, &id).unwrap();
    assert_eq!(bet_id, "bet-3");
    assert_eq!(pending.quantity, quantity(3));
    assert!(state.first_pending_replace(&walk, &order("O-3")).is_none());

    let keys = state.resolvable_keys(&walk, &id, "bet-2", &here);
    assert_eq!(keys, vec![key("O-1", "bet-3"), key("O-1", "bet-1")]);
    assert!(state.resolvable_keys(&walk, &id, "bet-2", &instrument("1.2-1-0")).is_empty());

    let keys = vec![key("O-1", "bet-9"), key("O-1", "bet-2"), key("O-2", "bet-4")];
    let settled = state.settle_replaces(&keys).unwrap();
    assert_eq!(settled.quantity, quantity(2));
    assert_eq!(state.pending_update_keys.len(), 2);
    assert_eq!(state.replaced_venue_order_ids.len(), 3);
    assert!(state.replaced_venue_order_ids.contains("bet-9"));
    assert!(state.settle_replaces(&keys).is_none());
    assert!(state.pending_replace(&order("O-2")).is_none());
}

#[test]
fn last_mark_since_registration_decides_when_to_reconcile() {
    let id = order("O-1");
    let mut state = OcmState::default();
    let register = |state: &mut OcmState, units: u128| {
        state.register_pending_replace(
            id.clone(),
            "bet-1".to_string(),
            instrument("1.1-1-0"),
            quantity(units),
            quantity(0),
        )
    };
    assert!(!state.mark_pending_replace_ambiguous(&id, "bet-1", nanos(1)));
    register(&mut state, 3);
    assert_eq!(state.pending_replace_for_bet(&id, "bet-1").unwrap().reconcile_after, None);
    assert!(state.mark_pending_replace_ambiguous(&id, "bet-1", nanos(5)));
    assert!(state.mark_pending_replace_ambiguous(&id, "bet-1", nanos(9)));
    assert!(!state.mark_pending_replace_ambiguous(&id, "bet-2", nanos(2)));
    assert!(!state.pending_replace_reconcilable(&id, "bet-1", nanos(8)));
    assert!(state.pending_replace_reconcilable(&id, "bet-1", nanos(9)));
    assert!(state.mark_pending_replace_ambiguous(&id, "bet-1", nanos(4)));
    assert!(state.pending_replace_reconcilable(&id, "bet-1", nanos(4)));

    assert!(state.complete_pending_replace(&id, "bet-1").is_some());
    assert!(!state.pending_replace_reconcilable(&id, "bet-1", nanos(100)));
    assert!(!state.mark_pending_replace_ambiguous(&id, "bet-1", nanos(7)));
    register(&mut state, 8);
    let pending = state.pending_replace_for_bet(&id, "bet-1").unwrap();
    assert_eq!(pending.quantity, quantity(8));
    assert_eq!(pending.reconcile_after, None);
    assert!(!state.pending_replace_reconcilable(&id, "bet-1", nanos(100)));
}

#[test]
fn cancels_are_suppressed_while_under_way_and_once_replaced() {
    let id = order("O-1");
    let mut state = OcmState::default();
    for bet_id in ["bet-1", "bet-2"] {
        assert!(!state.should_suppress_cancel(&id, bet_id));
        state.register_pending_replace(
            id.clone(),
            bet_id.to_string(),
            instrument("1.1-1-0"),
            quantity(3),
            quantity(0),
        );
        assert!(state.should_suppress_cancel(&id, bet_id));
        assert!(!state.should_suppress_cancel(&order("O-2"), bet_id));
    }
    assert!(state.clear_pending_replace(&id, "bet-1").is_some());
    assert!(state.complete_pending_replace(&id, "bet-2").is_some());
    assert!(!state.should_suppress_cancel(&id, "bet-1"));
    assert!(state.should_suppress_cancel(&id, "bet-2"));
    assert!(state.should_suppress_cancel(&order("O-2"), "bet-2"));
}
