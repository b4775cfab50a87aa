use betfair_ocm::state::OcmState;
use betfair_ocm::types::{ClientOrderId, InstrumentId, Quantity, StrategyId};

fn order(value: &str, current: &str, legacy: &str) -> ClientOrderId {
    ClientOrderId {
        value: value.to_string(),
        customer_order_ref: current.to_string(),
        legacy_customer_order_ref: legacy.to_string(),
    }
}

fn strategy(value: &str) -> StrategyId {
    StrategyId { value: value.to_string() }
}

fn found(state: &OcmState, rfo: &str) -> Option<String> {
    state.resolve_client_order_id(Some(rfo)).map(|id| id.value)
}

#[test]
fn new_order_is_found_by_its_current_reference_only() {
    let mut state = OcmState::default();
    state.register_customer_order_ref(order("ABCDEF", "DEF", "ABC"));
    assert_eq!(found(&state, "DEF"), Some("ABCDEF".to_string()));
    assert_eq!(found(&state, "ABC"), None);
    assert_eq!(found(&state, "ABCDEF"), None);
    assert!(state.resolve_client_order_id(None).is_none());
    let id = state.resolve_client_order_id(Some("DEF")).unwrap();
    assert_eq!(id.customer_order_ref, "DEF");
    assert_eq!(id.legacy_customer_order_ref, "ABC");
}

#[test]
fn legacy_reference_is_registered_when_truncated() {
    let mut state = OcmState::default();
    state.register_customer_order_ref_with_legacy(order("ABCDEF", "DEF", "ABC"));
    assert_eq!(found(&state, "DEF"), Some("ABCDEF".to_string()));
    assert_eq!(found(&state, "ABC"), Some("ABCDEF".to_string()));

    let mut state = OcmState::default();
    state.register_customer_order_ref_with_legacy(order("ABC", "C", "ABC"));
    assert_eq!(found(&state, "C"), Some("ABC".to_string()));
    assert_eq!(found(&state, "ABC"), None);
    assert_eq!(state.customer_order_refs.len(), 1);
}

#[test]
fn later_registration_takes_a_shared_reference_over() {
    let mut state = OcmState::default();
    state.register_customer_order_ref(order("1-REF", "REF", "1-R"));
    state.register_customer_order_ref(order("2-REF", "REF", "2-R"));
    assert_eq!(found(&state, "REF"), Some("2-REF".to_string()));
}

#[test]
fn strategy_is_the_one_recorded_last() {
    let id = order("O-1", "O-1", "O-1");
    let mut state = OcmState::default();
    assert!(state.order_strategy_id(&id).is_none());
    state.register_order_identity(id.clone(), strategy("S-1"));
    state.register_order_identity(id.clone(), strategy("S-2"));
    assert_eq!(state.order_strategy_id(&id), Some(strategy("S-2")));
    assert!(state.order_strategy_id(&order("O-2", "O-1", "O-1")).is_none());
}

#[test]
fn acceptance_is_emitted_once() {
    let id = order("O-1", "O-1", "O-1");
    let mut state = OcmState::default();
    assert!(state.mark_accepted(id.clone()));
    assert!(!state.mark_accepted(id.clone()));
    assert!(state.mark_accepted(order("O-2", "O-2", "O-2")));
    state.remove_customer_order_refs(&id);
    assert!(state.mark_accepted(id));
}

#[test]
fn removal_forgets_the_order_and_no_other() {
    let id = order("ABCDEF", "DEF", "ABC");
    let other = order("GHIJKL", "JKL", "GHI");
    let mut state = OcmState::default();
    for o in [&id, &other] {
        state.register_customer_order_ref_with_legacy(o.clone());
        state.register_order_identity(o.clone(), strategy("S-1"));
        state.mark_accepted(o.clone());
    }
    state.remove_customer_order_refs(&id);
    assert_eq!(found(&state, "DEF"), None);
    assert_eq!(found(&state, "ABC"), None);
    assert!(state.order_strategy_id(&id).is_none());
    assert!(!state.accepted_orders.contains("ABCDEF"));
    assert_eq!(found(&state, "JKL"), Some("GHIJKL".to_string()));
    assert_eq!(found(&state, "GHI"), Some("GHIJKL".to_string()));
    assert!(state.order_strategy_id(&other).is_some());
    assert!(state.accepted_orders.contains("GHIJKL"));
}

#[test]
fn cleanup_waits_for_pending_replaces() {
    let id = order("ABCDEF", "DEF", "ABC");
    let mut state = OcmState::default();
    state.register_customer_order_ref_with_legacy(id.clone());
    state.register_pending_replace(
        id.clone(),
        "bet-1".to_string(),
        InstrumentId { symbol: "1.1-1-0".to_string(), venue: "BETFAIR".to_string() },
        Quantity { raw: 1, precision: 0 },
        Quantity { raw: 0, precision: 0 },
    );
    state.cleanup_terminal_order(&id);
    assert_eq!(found(&state, "DEF"), Some("ABCDEF".to_string()));
    state.cleanup_terminal_order(&order("GHIJKL", "DEF", "GHI"));
    assert_eq!(found(&state, "DEF"), None);
    assert_eq!(found(&state, "ABC"), Some("ABCDEF".to_string()));
    assert!(state.complete_pending_replace(&id, "bet-1").is_some());
    state.cleanup_terminal_order(&id);
    assert_eq!(found(&state, "ABC"), None);
}

#[test]
fn orders_are_equal_by_value() {
    assert_eq!(order("A", "B", "C"), order("A", "D", "E"));
    assert_ne!(order("A", "B", "C"), order("F", "B", "C"));
}

#[test]
fn removed_order_is_found_by_no_reference() {
    let id = order("ABCDEF", "DEF", "ABC");
    let mut state = OcmState::default();
    state.register_customer_order_ref(id.clone());
    state.register_customer_order_ref_with_legacy(id.clone());
    state.register_customer_order_ref(order("XBCDEF", "DEF", "XBC"));
    state.register_customer_order_ref_with_legacy(order("GHIJKL", "JKL", "GHI"));
    state.remove_customer_order_refs(&id);
    assert!(state.customer_order_refs.values().all(|found| *found != id));
    assert_eq!(state.customer_order_refs.len(), 2);
}

#[test]
fn skipped_cleanup_keeps_acceptance_and_strategy() {
    let id = order("O-1", "O-1", "O-1");
    let mut state = OcmState::default();
    assert!(state.mark_accepted(id.clone()));
    state.register_order_identity(id.clone(), strategy("S-1"));
    state.register_pending_replace(
        id.clone(),
        "bet-1".to_string(),
        InstrumentId { symbol: "1.1-1-0".to_string(), venue: "BETFAIR".to_string() },
        Quantity { raw: 1, precision: 0 },
        Quantity { raw: 0, precision: 0 },
    );
    state.cleanup_terminal_order(&id);
    assert!(!state.mark_accepted(id.clone()));
    assert_eq!(state.order_strategy_id(&id), Some(strategy("S-1")));
    assert!(state.clear_pending_replace(&id, "bet-1").is_some());
    state.cleanup_terminal_order(&id);
    assert!(state.order_strategy_id(&id).is_none());
    assert!(state.mark_accepted(id));
}

#[test]
fn strategy_is_unknown_from_removal_until_recorded_anew() {
    let id = order("O-1", "R-1", "R-0");
    let mut state = OcmState::default();
    state.mark_accepted(id.clone());
    state.register_customer_order_ref(id.clone());
    assert!(state.order_strategy_id(&id).is_none());
    state.register_order_identity(id.clone(), strategy("S-1"));
    state.remove_customer_order_refs(&id);
    assert!(state.order_strategy_id(&id).is_none());
    state.register_customer_order_ref_with_legacy(id.clone());
    state.register_order_identity(order("O-2", "R-1", "R-0"), strategy("S-2"));
    state.mark_accepted(id.clone());
    assert!(state.order_strategy_id(&id).is_none());
    state.register_order_identity(id.clone(), strategy("S-3"));
    assert_eq!(state.order_strategy_id(&id), Some(strategy("S-3")));
    state.cleanup_terminal_order(&id);
    assert!(state.order_strategy_id(&id).is_none());
    assert!(!state.accepted_orders.contains("O-1"));
    assert_eq!(found(&state, "R-1"), None);
    assert_eq!(state.order_strategy_id(&order("O-2", "", "")), Some(strategy("S-2")));
}
