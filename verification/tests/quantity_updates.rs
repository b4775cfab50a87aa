use betfair_ocm::state::OcmState;
use betfair_ocm::types::{ClientOrderId, Quantity};

fn order(value: &str) -> ClientOrderId {
    ClientOrderId {
        value: value.to_string(),
        customer_order_ref: value.to_string(),
        legacy_customer_order_ref: value.to_string(),
    }
}

fn quantity(units: u128) -> Quantity {
    Quantity { raw: units * 1_000_000_000, precision: 0 }
}

#[test]
fn pending_quantity_update_requires_a_definitive_reduction() {
    let client_order_id = order("O-REDUCE");
    let bet_id = "bet-1";
    let mut state = OcmState::default();
    state.register_pending_quantity_update(
        client_order_id.clone(),
        bet_id.to_string(),
        quantity(10),
        quantity(4),
    );

    assert!(!state.resolve_pending_quantity_update(&client_order_id, bet_id, quantity(10)));
    assert!(state.resolve_pending_quantity_update(&client_order_id, bet_id, quantity(6)));
    assert_eq!(
        state.confirmed_quantity_update(&client_order_id, bet_id),
        Some(quantity(6)),
    );
    assert!(!state.resolve_pending_quantity_update(&client_order_id, bet_id, quantity(4)));
    assert!(state.clear_pending_quantity_update(&client_order_id, bet_id));
    assert_eq!(state.confirmed_quantity_update(&client_order_id, bet_id), None);
}

#[test]
fn reduction_bounds_are_exact() {
    let id = order("O-1");
    for (active, confirmed) in [(3u128, false), (4, true), (9, true), (10, false), (11, false)] {
        let mut state = OcmState::default();
        state.register_pending_quantity_update(
            id.clone(),
            "bet-1".to_string(),
            quantity(10),
            quantity(4),
        );
        assert_eq!(
            state.resolve_pending_quantity_update(&id, "bet-1", quantity(active)),
            confirmed,
        );
        assert_eq!(state.confirmed_quantity_update(&id, "bet-1").is_some(), confirmed);
    }
}

#[test]
fn completing_confirms_any_quantity_once() {
    let id = order("O-1");
    let mut state = OcmState::default();
    assert!(!state.complete_pending_quantity_update(&id, "bet-1", quantity(1)));
    assert_eq!(state.confirmed_quantity_update(&id, "bet-1"), None);
    state.register_pending_quantity_update(
        id.clone(),
        "bet-1".to_string(),
        quantity(10),
        quantity(4),
    );
    assert!(!state.complete_pending_quantity_update(&order("O-2"), "bet-1", quantity(1)));
    assert!(state.complete_pending_quantity_update(&id, "bet-1", quantity(12)));
    assert_eq!(state.confirmed_quantity_update(&id, "bet-1"), Some(quantity(12)));
    assert!(!state.complete_pending_quantity_update(&id, "bet-1", quantity(1)));
    assert_eq!(state.confirmed_quantity_update(&id, "bet-1"), Some(quantity(12)));
}

#[test]
fn clearing_forgets_pending_and_confirmed_updates() {
    let id = order("O-1");
    let mut state = OcmState::default();
    assert!(!state.clear_pending_quantity_update(&id, "bet-1"));
    state.register_pending_quantity_update(
        id.clone(),
        "bet-1".to_string(),
        quantity(10),
        quantity(4),
    );
    assert!(state.clear_pending_quantity_update(&id, "bet-1"));
    assert!(!state.resolve_pending_quantity_update(&id, "bet-1", quantity(6)));
    assert!(!state.clear_pending_quantity_update(&id, "bet-1"));
}

#[test]
fn quantities_compare_by_their_units() {
    let plain = Quantity { raw: 5, precision: 0 };
    let shown = Quantity { raw: 5, precision: 2 };
    assert_eq!(plain, shown);
    assert!(plain < Quantity { raw: 6, precision: 0 });
    assert!(plain >= shown);
}

#[test]
fn confirmed_quantity_is_that_of_the_last_confirmation() {
    let id = order("O-1");
    let mut state = OcmState::default();
    let register = |state: &mut OcmState, original: u128, requested: u128| {
        state.register_pending_quantity_update(
            id.clone(),
            "bet-1".to_string(),
            quantity(original),
            quantity(requested),
        )
    };
    register(&mut state, 10, 6);
    assert!(state.resolve_pending_quantity_update(&id, "bet-1", quantity(6)));
    register(&mut state, 6, 5);
    register(&mut state, 6, 3);
    assert_eq!(state.confirmed_quantity_update(&id, "bet-1"), Some(quantity(6)));
    assert!(!state.resolve_pending_quantity_update(&id, "bet-1", quantity(2)));
    assert!(state.resolve_pending_quantity_update(&id, "bet-1", quantity(4)));
    assert_eq!(state.confirmed_quantity_update(&id, "bet-1"), Some(quantity(4)));
    assert!(!state.complete_pending_quantity_update(&id, "bet-1", quantity(1)));
    register(&mut state, 4, 1);
    assert!(state.clear_pending_quantity_update(&id, "bet-1"));
    assert!(!state.resolve_pending_quantity_update(&id, "bet-1", quantity(1)));
    assert_eq!(state.confirmed_quantity_update(&id, "bet-1"), None);
}
