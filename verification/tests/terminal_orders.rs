use std::collections::HashMap;

use betfair_ocm::decimal::{Decimal, MAX_MANTISSA, MAX_SCALE};
use betfair_ocm::state::OcmState;
use betfair_ocm::types::{ClientOrderId, FillTrackerCommand, OrderSyncEntry};

/// Keeps the cumulative size of each bet, and the published trades.
#[derive(Default)]
struct Tracker {
    sizes: HashMap<String, rust_decimal::Decimal>,
    trade_ids: Vec<String>,
}

impl Tracker {
    fn execute(&mut self, command: FillTrackerCommand) {
        match command {
            FillTrackerCommand::Prune { bet_id } => {
                self.sizes.remove(&bet_id);
            }
            FillTrackerCommand::SyncOrder { bet_id, filled_qty, .. } => {
                let size = rust_decimal::Decimal::from_i128_with_scale(
                    filled_qty.mantissa(),
                    filled_qty.scale(),
                );
                self.sizes.insert(bet_id, size);
            }
            FillTrackerCommand::SeedPublishedTradeIds { trade_ids } => {
                self.trade_ids.extend(trade_ids);
            }
        }
    }

    fn advance_cumulative_fill(
        &mut self,
        bet_id: &str,
        size_matched: rust_decimal::Decimal,
        average_price: Option<rust_decimal::Decimal>,
        price: rust_decimal::Decimal,
    ) -> Option<(rust_decimal::Decimal, rust_decimal::Decimal)> {
        let known = self.sizes.get(bet_id).copied().unwrap_or(rust_decimal::Decimal::ZERO);
        if size_matched <= known {
            return None;
        }
        self.sizes.insert(bet_id.to_string(), size_matched);
        Some((size_matched - known, average_price.unwrap_or(price)))
    }
}

fn decimal(mantissa: i128, scale: u32) -> Decimal {
    Decimal::new(mantissa, scale).unwrap()
}

fn entry(bet_id: &str, value: &str, is_closed: bool, filled: i128, trades: &[&str]) -> OrderSyncEntry {
    OrderSyncEntry {
        bet_id: bet_id.to_string(),
        client_order_id: ClientOrderId {
            value: value.to_string(),
            customer_order_ref: format!("{value}-current"),
            legacy_customer_order_ref: format!("{value}-legacy"),
        },
        is_closed,
        filled_qty: decimal(filled, 2),
        avg_px: decimal(20, 1),
        trade_ids: trades.iter().map(|t| t.to_string()).collect(),
    }
}

#[test]
fn terminal_order_retention_evicts_fill_tracker_state() {
    let mut state = OcmState::default();
    let mut fill_tracker = Tracker::default();
    let first_bet_id = "bet-0";
    let size_matched = rust_decimal::Decimal::new(10, 0);
    let average_price = rust_decimal::Decimal::new(20, 1);

    assert!(fill_tracker
        .advance_cumulative_fill(first_bet_id, size_matched, Some(average_price), average_price)
        .is_some());
    assert!(state.mark_terminal_order(first_bet_id.to_string()).is_none());
    let mut commands = Vec::new();
    for index in 1..=OcmState::TERMINAL_ORDER_RETENTION {
        assert!(commands.is_empty());
        commands.extend(state.mark_terminal_order(format!("bet-{index}")));
    }
    assert_eq!(commands.len(), 1);
    assert!(fill_tracker
        .advance_cumulative_fill(first_bet_id, size_matched, Some(average_price), average_price)
        .is_none());
    for command in commands {
        fill_tracker.execute(command);
    }

    let replay_after_eviction = fill_tracker.advance_cumulative_fill(
        first_bet_id,
        size_matched,
        Some(average_price),
        average_price,
    );

    assert!(!state.terminal_orders.contains(first_bet_id));
    assert!(replay_after_eviction.is_some());
}

#[test]
fn retention_is_first_in_first_out() {
    assert_eq!(OcmState::TERMINAL_ORDER_RETENTION, 10_000);
    let mut state = OcmState::default();
    for index in 0..OcmState::TERMINAL_ORDER_RETENTION {
        assert!(state.mark_terminal_order(format!("bet-{index}")).is_none());
    }
    assert_eq!(state.terminal_orders.len(), OcmState::TERMINAL_ORDER_RETENTION);
    assert!(state.mark_terminal_order("bet-0".to_string()).is_none());
    for index in 0..3 {
        match state.mark_terminal_order(format!("new-{index}")) {
            Some(FillTrackerCommand::Prune { bet_id }) => {
                assert_eq!(bet_id, format!("bet-{index}"));
                assert!(!state.terminal_orders.contains(&bet_id));
            }
            other => panic!("unexpected {other:?}"),
        }
        assert!(state.terminal_orders.contains(&format!("new-{index}")));
    }
    assert!(state.terminal_orders.contains("bet-3"));
    assert_eq!(state.terminal_orders.len(), OcmState::TERMINAL_ORDER_RETENTION);
}

#[test]
fn marking_twice_is_marking_once() {
    let mut state = OcmState::default();
    assert!(state.mark_terminal_order("bet-1".to_string()).is_none());
    assert!(state.mark_terminal_order("bet-1".to_string()).is_none());
    assert_eq!(state.terminal_orders.len(), 1);
}

#[test]
fn sync_separates_open_and_closed_orders() {
    let mut state = OcmState::default();
    let commands = state.sync_from_orders(&[
        entry("bet-1", "O-1", false, 0, &[]),
        entry("bet-2", "O-2", true, 0, &[]),
    ]);
    assert!(commands.is_empty());
    assert!(state.terminal_orders.contains("bet-2"));
    assert_eq!(state.terminal_orders.len(), 1);
    for rfo in ["O-1-current", "O-1-legacy"] {
        let id = state.resolve_client_order_id(Some(rfo)).unwrap();
        assert_eq!(id.value, "O-1");
    }
    assert!(state.resolve_client_order_id(Some("O-2-current")).is_none());
    assert_eq!(state.customer_order_refs.len(), 2);
    assert!(state.accepted_orders.is_empty());
    assert!(state.order_strategies.is_empty());
}

#[test]
fn sync_anchors_fills_and_published_trades_in_order() {
    let mut state = OcmState::default();
    let mut fill_tracker = Tracker::default();
    let commands = state.sync_from_orders(&[
        entry("bet-1", "O-1", false, 250, &["T-1", "T-2"]),
        entry("bet-2", "O-2", true, 100, &[]),
        entry("bet-3", "O-3", false, -1, &["T-3"]),
    ]);
    assert_eq!(commands.len(), 4);
    match &commands[0] {
        FillTrackerCommand::SyncOrder { bet_id, filled_qty, avg_px } => {
            assert_eq!(bet_id, "bet-1");
            assert_eq!(*filled_qty, decimal(250, 2));
            assert_eq!(*avg_px, decimal(20, 1));
        }
        other => panic!("unexpected {other:?}"),
    }
    assert!(matches!(&commands[1], FillTrackerCommand::SeedPublishedTradeIds { trade_ids }
        if trade_ids == &["T-1", "T-2"]));
    assert!(matches!(&commands[2], FillTrackerCommand::SyncOrder { bet_id, .. } if bet_id == "bet-2"));
    assert!(matches!(&commands[3], FillTrackerCommand::SeedPublishedTradeIds { trade_ids }
        if trade_ids == &["T-3"]));
    for command in commands {
        fill_tracker.execute(command);
    }
    let anchored = rust_decimal::Decimal::new(250, 2);
    let price = rust_decimal::Decimal::new(20, 1);
    assert!(fill_tracker.advance_cumulative_fill("bet-1", anchored, None, price).is_none());
    assert_eq!(
        fill_tracker.advance_cumulative_fill("bet-1", rust_decimal::Decimal::new(3, 0), None, price),
        Some((rust_decimal::Decimal::new(50, 2), price)),
    );
    assert_eq!(fill_tracker.trade_ids, ["T-1", "T-2", "T-3"]);
}

#[test]
fn sync_prunes_before_it_anchors() {
    let mut state = OcmState::default();
    for index in 0..OcmState::TERMINAL_ORDER_RETENTION {
        assert!(state.mark_terminal_order(format!("bet-{index}")).is_none());
    }
    let commands = state.sync_from_orders(&[entry("new", "O-1", true, 100, &[])]);
    assert_eq!(commands.len(), 2);
    assert!(matches!(&commands[0], FillTrackerCommand::Prune { bet_id } if bet_id == "bet-0"));
    assert!(matches!(&commands[1], FillTrackerCommand::SyncOrder { bet_id, .. } if bet_id == "new"));
}

#[test]
fn sync_in_parts_is_sync_of_the_whole() {
    let parts = [
        entry("bet-1", "O-1", false, 250, &["T-1"]),
        entry("bet-2", "O-2", true, 100, &[]),
    ];
    let mut whole = OcmState::default();
    let all = whole.sync_from_orders(&parts);
    let mut split = OcmState::default();
    let mut joined = split.sync_from_orders(&parts[..1]);
    joined.extend(split.sync_from_orders(&parts[1..]));
    assert_eq!(format!("{all:?}"), format!("{joined:?}"));
    assert_eq!(whole.terminal_orders, split.terminal_orders);
    assert_eq!(whole.customer_order_refs, split.customer_order_refs);
}

#[test]
fn decimals_have_bounds() {
    assert!(Decimal::new(MAX_MANTISSA, MAX_SCALE).is_some());
    assert!(Decimal::new(-MAX_MANTISSA, 0).is_some());
    assert!(Decimal::new(MAX_MANTISSA + 1, 0).is_none());
    assert!(Decimal::new(-MAX_MANTISSA - 1, 0).is_none());
    assert!(Decimal::new(0, MAX_SCALE + 1).is_none());
    let max = rust_decimal::Decimal::MAX;
    assert_eq!(MAX_MANTISSA, max.mantissa());
    assert_eq!(MAX_SCALE, rust_decimal::Decimal::MAX_SCALE);
}

#[test]
fn positive_decimals_are_above_zero() {
    assert!(decimal(1, 28).is_positive());
    assert!(decimal(MAX_MANTISSA, 0).is_positive());
    assert!(!decimal(0, 5).is_positive());
    assert!(!decimal(-1, 28).is_positive());
    assert!(!decimal(-MAX_MANTISSA, 0).is_positive());
    assert_eq!(decimal(-12, 3).mantissa(), -12);
    assert_eq!(decimal(-12, 3).scale(), 3);
}

#[test]
fn sync_of_later_open_orders_takes_references_over() {
    let mut state = OcmState::default();
    let mut second = entry("bet-2", "O-2", false, 0, &[]);
    second.client_order_id.legacy_customer_order_ref = "O-1-legacy".to_string();
    let mut closed = entry("bet-3", "O-3", true, 0, &[]);
    closed.client_order_id.customer_order_ref = "O-1-current".to_string();
    let commands = state.sync_from_orders(&[entry("bet-1", "O-1", false, 0, &[]), second, closed]);
    assert!(commands.is_empty());
    let found = |rfo: &str| state.resolve_client_order_id(Some(rfo)).map(|id| id.value);
    assert_eq!(found("O-1-current"), Some("O-1".to_string()));
    assert_eq!(found("O-1-legacy"), Some("O-2".to_string()));
    assert_eq!(found("O-2-current"), Some("O-2".to_string()));
}

#[test]
fn open_orders_and_known_bets_take_no_room() {
    let mut state = OcmState::default();
    for index in 1..OcmState::TERMINAL_ORDER_RETENTION {
        assert!(state.mark_terminal_order(format!("bet-{index}")).is_none());
    }
    let commands = state.sync_from_orders(&[
        entry("open-1", "O-1", false, 0, &[]),
        entry("bet-1", "O-2", true, 0, &[]),
        entry("new", "O-3", true, 0, &[]),
        entry("new", "O-3", true, 0, &[]),
        entry("open-2", "O-4", false, 0, &[]),
    ]);
    assert!(commands.is_empty());
    assert_eq!(state.terminal_orders.len(), OcmState::TERMINAL_ORDER_RETENTION);
    assert!(state.terminal_orders.contains("new"));
    assert!(state.terminal_orders.contains("bet-1"));
}

#[test]
fn marks_and_syncs_finish_bets_in_the_order_of_the_calls() {
    let mut state = OcmState::default();
    assert!(state.mark_terminal_order("first".to_string()).is_none());
    assert!(state.sync_from_orders(&[entry("second", "O-1", true, 0, &[])]).is_empty());
    for index in 2..OcmState::TERMINAL_ORDER_RETENTION {
        if index % 2 == 0 {
            assert!(state.mark_terminal_order(format!("bet-{index}")).is_none());
        } else {
            let order = entry(&format!("bet-{index}"), "O-2", true, 0, &[]);
            assert!(state.sync_from_orders(&[order]).is_empty());
        }
        state.register_customer_order_ref(entry("", "O-3", false, 0, &[]).client_order_id);
    }
    assert!(state.terminal_orders.contains("first"));

    let commands = state.sync_from_orders(&[entry("new-1", "O-4", true, 0, &[])]);
    assert_eq!(commands.len(), 1);
    assert!(matches!(&commands[0], FillTrackerCommand::Prune { bet_id } if bet_id == "first"));
    assert!(!state.terminal_orders.contains("first"));
    assert!(state.terminal_orders.contains("second"));
    match state.mark_terminal_order("new-2".to_string()) {
        Some(FillTrackerCommand::Prune { bet_id }) => assert_eq!(bet_id, "second"),
        other => panic!("unexpected {other:?}"),
    }
    assert!(!state.terminal_orders.contains("second"));
    assert!(state.terminal_orders.contains("bet-2"));
    assert_eq!(state.terminal_orders.len(), OcmState::TERMINAL_ORDER_RETENTION);
}
