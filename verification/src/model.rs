//! The mathematical view of the OCM state, and what each operation does to it.
use vstd::prelude::*;

use crate::collections::BetKeyView;
use crate::state::OcmState;
use crate::types::{
    ClientOrderIdView, FillTrackerCommandView, InstrumentIdView, OrderSyncEntryView,
    PendingQuantityUpdate, PendingReplaceView, Quantity, UnixNanos,
};

verus! {

/// The view of an `OcmState`. Orders are keyed by the value of their client
/// order identifier, bets by the client order and the bet identifier.
#[verifier::ext_equal]
pub struct OcmModel {
    pub customer_order_refs: Map<Seq<char>, ClientOrderIdView>,
    pub order_strategies: Map<Seq<char>, Seq<char>>,
    pub accepted_orders: Set<Seq<char>>,
    pub stream_reported_client_orders: Set<Seq<char>>,
    pub terminal_orders: Set<Seq<char>>,
    pub terminal_order_queue: Seq<Seq<char>>,
    pub replaced_venue_order_ids: Set<Seq<char>>,
    pub pending_update_keys: Set<BetKeyView>,
    pub pending_replaces: Map<BetKeyView, PendingReplaceView>,
    pub pending_quantity_updates: Map<BetKeyView, PendingQuantityUpdate>,
    pub confirmed_quantity_updates: Map<BetKeyView, Quantity>,
}

impl OcmModel {
    /// The state that knows of no order.
    pub open spec fn initial() -> OcmModel {
        OcmModel {
            customer_order_refs: Map::empty(),
            order_strategies: Map::empty(),
            accepted_orders: Set::empty(),
            stream_reported_client_orders: Set::empty(),
            terminal_orders: Set::empty(),
            terminal_order_queue: Seq::empty(),
            replaced_venue_order_ids: Set::empty(),
            pending_update_keys: Set::empty(),
            pending_replaces: Map::empty(),
            pending_quantity_updates: Map::empty(),
            confirmed_quantity_updates: Map::empty(),
        }
    }

    // Customer order references, strategies and acceptance.

    /// The order is found by its current reference.
    pub open spec fn register_customer_order_ref(self, id: ClientOrderIdView) -> OcmModel {
        OcmModel {
            customer_order_refs: self.customer_order_refs.insert(id.customer_order_ref, id),
            ..self
        }
    }

    /// The order is found by its current reference and, where that is not the
    /// identifier itself, by its legacy reference.
    pub open spec fn register_customer_order_ref_with_legacy(
        self,
        id: ClientOrderIdView,
    ) -> OcmModel {
        let current = self.register_customer_order_ref(id);
        if id.legacy_customer_order_ref != id.value {
            OcmModel {
                customer_order_refs: current.customer_order_refs.insert(
                    id.legacy_customer_order_ref,
                    id,
                ),
                ..current
            }
        } else {
            current
        }
    }

    /// The order was submitted by the strategy.
    pub open spec fn register_order_identity(
        self,
        id: ClientOrderIdView,
        strategy: Seq<char>,
    ) -> OcmModel {
        OcmModel { order_strategies: self.order_strategies.insert(id.value, strategy), ..self }
    }

    /// The strategy that submitted the order.
    pub open spec fn order_strategy_id(self, id: ClientOrderIdView) -> Option<Seq<char>> {
        if self.order_strategies.contains_key(id.value) {
            Some(self.order_strategies[id.value])
        } else {
            None
        }
    }

    /// The order's acceptance was emitted.
    pub open spec fn mark_accepted(self, id: ClientOrderIdView) -> OcmModel {
        OcmModel { accepted_orders: self.accepted_orders.insert(id.value), ..self }
    }

    /// Neither reference of the order is known any more, nor its strategy, nor
    /// its acceptance.
    pub open spec fn remove_customer_order_refs(self, id: ClientOrderIdView) -> OcmModel {
        OcmModel {
            customer_order_refs: self.customer_order_refs.remove(id.customer_order_ref).remove(
                id.legacy_customer_order_ref,
            ),
            order_strategies: self.order_strategies.remove(id.value),
            accepted_orders: self.accepted_orders.remove(id.value),
            ..self
        }
    }

    /// The order that a stream reference belongs to.
    pub open spec fn resolve_client_order_id(self, rfo: Option<Seq<char>>) -> Option<
        ClientOrderIdView,
    > {
        match rfo {
            Some(r) => if self.customer_order_refs.contains_key(r) {
                Some(self.customer_order_refs[r])
            } else {
                None
            },
            None => None,
        }
    }

    // Replaces.

    /// Whether a cancel of the bet only shows that the bet is being, or was,
    /// replaced.
    pub open spec fn should_suppress_cancel(self, id: ClientOrderIdView, bet_id: Seq<char>) -> bool {
        self.replaced_venue_order_ids.contains(bet_id) || self.pending_update_keys.contains(
            (id.value, bet_id),
        )
    }

    /// A replace of the bet is under way.
    pub open spec fn register_pending_replace(
        self,
        id: ClientOrderIdView,
        bet_id: Seq<char>,
        instrument_id: InstrumentIdView,
        quantity: Quantity,
        filled_qty: Quantity,
    ) -> OcmModel {
        let pending = PendingReplaceView {
            instrument_id,
            quantity,
            filled_qty,
            reconcile_after: None,
        };
        OcmModel {
            pending_update_keys: self.pending_update_keys.insert((id.value, bet_id)),
            pending_replaces: self.pending_replaces.insert((id.value, bet_id), pending),
            ..self
        }
    }

    /// The replace that is under way for the bet.
    pub open spec fn pending_replace_for_bet(
        self,
        id: ClientOrderIdView,
        bet_id: Seq<char>,
    ) -> Option<PendingReplaceView> {
        if self.pending_replaces.contains_key((id.value, bet_id)) {
            Some(self.pending_replaces[(id.value, bet_id)])
        } else {
            None
        }
    }

    /// The outcome of the bet's replace, if one is under way, is ambiguous
    /// until it may be reconciled.
    pub open spec fn mark_pending_replace_ambiguous(
        self,
        id: ClientOrderIdView,
        bet_id: Seq<char>,
        reconcile_after: UnixNanos,
    ) -> OcmModel {
        match self.pending_replace_for_bet(id, bet_id) {
            Some(pending) => OcmModel {
                pending_replaces: self.pending_replaces.insert(
                    (id.value, bet_id),
                    PendingReplaceView { reconcile_after: Some(reconcile_after), ..pending },
                ),
                ..self
            },
            None => self,
        }
    }

    /// Whether an ambiguous replace of the bet may be reconciled now.
    pub open spec fn pending_replace_reconcilable(
        self,
        id: ClientOrderIdView,
        bet_id: Seq<char>,
        ts_now: UnixNanos,
    ) -> bool {
        match self.pending_replace_for_bet(id, bet_id) {
            Some(pending) => match pending.reconcile_after {
                Some(reconcile_after) => ts_now.nanos >= reconcile_after.nanos,
                None => false,
            },
            None => false,
        }
    }

    /// Whether a replace of the key's bet is under way that the replacement can
    /// be the outcome of: one of the same order on the same instrument, and of
    /// another bet.
    pub open spec fn can_replace(
        self,
        id: ClientOrderIdView,
        replacement_bet_id: Seq<char>,
        instrument_id: InstrumentIdView,
        key: BetKeyView,
    ) -> bool {
        &&& key.0 == id.value
        &&& key.1 != replacement_bet_id
        &&& self.pending_replaces.contains_key(key)
        &&& self.pending_replaces[key].instrument_id == instrument_id
    }

    /// The pending keys that the replacement settles.
    pub open spec fn resolvable(
        self,
        id: ClientOrderIdView,
        replacement_bet_id: Seq<char>,
        instrument_id: InstrumentIdView,
    ) -> Set<BetKeyView> {
        Set::new(
            |key: BetKeyView|
                self.pending_update_keys.contains(key) && self.can_replace(
                    id,
                    replacement_bet_id,
                    instrument_id,
                    key,
                ),
        )
    }

    /// The replace of the first key that one is under way for.
    pub open spec fn first_replace(self, keys: Seq<BetKeyView>) -> Option<PendingReplaceView>
        decreases keys.len(),
    {
        if keys.len() == 0 {
            None
        } else if self.pending_replaces.contains_key(keys.first()) {
            Some(self.pending_replaces[keys.first()])
        } else {
            self.first_replace(keys.drop_first())
        }
    }

    /// The bet and the replace of the first key of the order that one is under
    /// way for.
    pub open spec fn first_replace_of_order(
        self,
        id: ClientOrderIdView,
        keys: Seq<BetKeyView>,
    ) -> Option<(Seq<char>, PendingReplaceView)>
        decreases keys.len(),
    {
        if keys.len() == 0 {
            None
        } else if keys.first().0 == id.value && self.pending_replaces.contains_key(keys.first()) {
            Some((keys.first().1, self.pending_replaces[keys.first()]))
        } else {
            self.first_replace_of_order(id, keys.drop_first())
        }
    }

    /// The keys are no longer pending, and their bets are replaced.
    pub open spec fn replace_keys(self, keys: Set<BetKeyView>) -> OcmModel {
        OcmModel {
            pending_update_keys: self.pending_update_keys.difference(keys),
            pending_replaces: self.pending_replaces.remove_keys(keys),
            replaced_venue_order_ids: self.replaced_venue_order_ids.union(bets_of(keys)),
            ..self
        }
    }

    /// The replacement bet settles every replace that it can be the outcome
    /// of. A bet that was itself replaced settles none.
    pub open spec fn resolve_pending_replace(
        self,
        id: ClientOrderIdView,
        replacement_bet_id: Seq<char>,
        instrument_id: InstrumentIdView,
    ) -> OcmModel {
        if self.replaced_venue_order_ids.contains(replacement_bet_id) {
            self
        } else {
            self.replace_keys(self.resolvable(id, replacement_bet_id, instrument_id))
        }
    }

    /// Whether `r` is an answer to the replacement bet: one of the replaces
    /// that it settles, or none where it settles none. Which one, if there are
    /// several, is open.
    pub open spec fn resolves_to(
        self,
        id: ClientOrderIdView,
        replacement_bet_id: Seq<char>,
        instrument_id: InstrumentIdView,
        r: Option<PendingReplaceView>,
    ) -> bool {
        let keys = self.resolvable(id, replacement_bet_id, instrument_id);
        match r {
            Some(pending) => {
                &&& !self.replaced_venue_order_ids.contains(replacement_bet_id)
                &&& exists|key: BetKeyView|
                    #[trigger] keys.contains(key) && self.pending_replaces[key] == pending
            },
            None => {
                ||| self.replaced_venue_order_ids.contains(replacement_bet_id)
                ||| forall|key: BetKeyView| !keys.contains(key)
            },
        }
    }

    /// The bet's replace succeeded: it is no longer pending and, if one was
    /// under way, the bet is replaced.
    pub open spec fn complete_pending_replace(
        self,
        id: ClientOrderIdView,
        bet_id: Seq<char>,
    ) -> OcmModel {
        let cleared = self.clear_pending_replace(id, bet_id);
        if self.pending_replaces.contains_key((id.value, bet_id)) {
            OcmModel {
                replaced_venue_order_ids: self.replaced_venue_order_ids.insert(bet_id),
                ..cleared
            }
        } else {
            cleared
        }
    }

    /// The bet's replace is given up.
    pub open spec fn clear_pending_replace(
        self,
        id: ClientOrderIdView,
        bet_id: Seq<char>,
    ) -> OcmModel {
        OcmModel {
            pending_update_keys: self.pending_update_keys.remove((id.value, bet_id)),
            pending_replaces: self.pending_replaces.remove((id.value, bet_id)),
            ..self
        }
    }

    /// Whether `r` is one of the replaces under way for the order, with its
    /// bet, or none where there is none. Which one, if there are several, is
    /// open.
    pub open spec fn is_pending_replace(
        self,
        id: ClientOrderIdView,
        r: Option<(Seq<char>, PendingReplaceView)>,
    ) -> bool {
        match r {
            Some((bet_id, pending)) => self.pending_replace_for_bet(id, bet_id) == Some(pending),
            None => forall|bet_id: Seq<char>|
                !#[trigger] self.pending_replaces.contains_key((id.value, bet_id)),
        }
    }

    // Quantity updates.

    /// A reduction of the bet's quantity is under way.
    pub open spec fn register_pending_quantity_update(
        self,
        id: ClientOrderIdView,
        bet_id: Seq<char>,
        original: Quantity,
        requested: Quantity,
    ) -> OcmModel {
        OcmModel {
            pending_quantity_updates: self.pending_quantity_updates.insert(
                (id.value, bet_id),
                PendingQuantityUpdate { original, requested },
            ),
            ..self
        }
    }

    /// Whether the active quantity shows that the bet was reduced: it is below
    /// the original, and not below what was asked for.
    pub open spec fn is_definitive_reduction(
        self,
        id: ClientOrderIdView,
        bet_id: Seq<char>,
        active_quantity: Quantity,
    ) -> bool {
        let key = (id.value, bet_id);
        &&& self.pending_quantity_updates.contains_key(key)
        &&& self.pending_quantity_updates[key].requested.raw <= active_quantity.raw
        &&& active_quantity.raw < self.pending_quantity_updates[key].original.raw
    }

    /// The bet's update is confirmed with the quantity.
    pub open spec fn confirm_quantity(
        self,
        id: ClientOrderIdView,
        bet_id: Seq<char>,
        quantity: Quantity,
    ) -> OcmModel {
        OcmModel {
            pending_quantity_updates: self.pending_quantity_updates.remove((id.value, bet_id)),
            confirmed_quantity_updates: self.confirmed_quantity_updates.insert(
                (id.value, bet_id),
                quantity,
            ),
            ..self
        }
    }

    /// The active quantity confirms the bet's update if it shows a reduction.
    pub open spec fn resolve_pending_quantity_update(
        self,
        id: ClientOrderIdView,
        bet_id: Seq<char>,
        active_quantity: Quantity,
    ) -> OcmModel {
        if self.is_definitive_reduction(id, bet_id, active_quantity) {
            self.confirm_quantity(id, bet_id, active_quantity)
        } else {
            self
        }
    }

    /// The quantity confirms the bet's update if one is under way.
    pub open spec fn complete_pending_quantity_update(
        self,
        id: ClientOrderIdView,
        bet_id: Seq<char>,
        quantity: Quantity,
    ) -> OcmModel {
        if self.pending_quantity_updates.contains_key((id.value, bet_id)) {
            self.confirm_quantity(id, bet_id, quantity)
        } else {
            self
        }
    }

    /// The quantity that the bet's update was confirmed with.
    pub open spec fn confirmed_quantity_update(
        self,
        id: ClientOrderIdView,
        bet_id: Seq<char>,
    ) -> Option<Quantity> {
        if self.confirmed_quantity_updates.contains_key((id.value, bet_id)) {
            Some(self.confirmed_quantity_updates[(id.value, bet_id)])
        } else {
            None
        }
    }

    /// Nothing is known of an update of the bet's quantity.
    pub open spec fn clear_pending_quantity_update(
        self,
        id: ClientOrderIdView,
        bet_id: Seq<char>,
    ) -> OcmModel {
        OcmModel {
            pending_quantity_updates: self.pending_quantity_updates.remove((id.value, bet_id)),
            confirmed_quantity_updates: self.confirmed_quantity_updates.remove((id.value, bet_id)),
            ..self
        }
    }

    // Finished orders.

    /// Whether an update of one of the order's bets is under way.
    pub open spec fn has_pending_update(self, id: ClientOrderIdView) -> bool {
        exists|bet_id: Seq<char>| #[trigger]
            self.pending_update_keys.contains((id.value, bet_id))
    }

    /// The order is forgotten, unless an update of it is under way.
    pub open spec fn cleanup_terminal_order(self, id: ClientOrderIdView) -> OcmModel {
        if self.has_pending_update(id) {
            self
        } else {
            self.remove_customer_order_refs(id)
        }
    }

    /// The bet that is forgotten when `bet_id` is marked as finished: the
    /// oldest one, if `bet_id` is new and as many as are retained are known.
    pub open spec fn expired_by(self, bet_id: Seq<char>) -> Option<Seq<char>> {
        let queue = self.terminal_order_queue.push(bet_id);
        if !self.terminal_orders.contains(bet_id) && queue.len()
            > OcmState::TERMINAL_ORDER_RETENTION {
            Some(queue.first())
        } else {
            None
        }
    }

    /// The bet is finished.
    pub open spec fn mark_terminal_order(self, bet_id: Seq<char>) -> OcmModel {
        let orders = self.terminal_orders.insert(bet_id);
        let queue = self.terminal_order_queue.push(bet_id);
        if self.terminal_orders.contains(bet_id) {
            self
        } else {
            match self.expired_by(bet_id) {
                Some(expired) => OcmModel {
                    terminal_orders: orders.remove(expired),
                    terminal_order_queue: queue.drop_first(),
                    ..self
                },
                None => OcmModel {
                    terminal_orders: orders,
                    terminal_order_queue: queue,
                    ..self
                },
            }
        }
    }

    // Reconnecting.

    /// A cached order is finished if it is closed, and found by its references
    /// if it is not.
    pub open spec fn sync_entry(self, entry: OrderSyncEntryView) -> OcmModel {
        if entry.is_closed {
            self.mark_terminal_order(entry.bet_id)
        } else {
            self.register_customer_order_ref_with_legacy(entry.client_order_id)
        }
    }

    /// What a cached order tells the fill tracker.
    pub open spec fn sync_entry_commands(self, entry: OrderSyncEntryView) -> Seq<
        FillTrackerCommandView,
    > {
        let pruned = match self.expired_by(entry.bet_id) {
            Some(bet_id) if entry.is_closed => seq![FillTrackerCommandView::Prune { bet_id }],
            _ => seq![],
        };
        pruned + anchor_commands(entry)
    }

    /// The cached orders, taken one after the other.
    pub open spec fn sync_from_orders(self, orders: Seq<OrderSyncEntryView>) -> OcmModel
        decreases orders.len(),
    {
        if orders.len() == 0 {
            self
        } else {
            self.sync_from_orders(orders.drop_last()).sync_entry(orders.last())
        }
    }

    /// What the cached orders tell the fill tracker, one after the other.
    pub open spec fn sync_commands(self, orders: Seq<OrderSyncEntryView>) -> Seq<
        FillTrackerCommandView,
    >
        decreases orders.len(),
    {
        if orders.len() == 0 {
            seq![]
        } else {
            self.sync_commands(orders.drop_last()) + self.sync_from_orders(
                orders.drop_last(),
            ).sync_entry_commands(orders.last())
        }
    }
}

/// The bets of the keys.
pub open spec fn bets_of(keys: Set<BetKeyView>) -> Set<Seq<char>> {
    Set::new(|bet_id: Seq<char>| exists|id: Seq<char>| #[trigger] keys.contains((id, bet_id)))
}

/// The command that forgets an expired bet.
pub open spec fn prune_command(expired: Option<Seq<char>>) -> Option<FillTrackerCommandView> {
    match expired {
        Some(bet_id) => Some(FillTrackerCommandView::Prune { bet_id }),
        None => None,
    }
}

/// The command that anchors a cached order's fill, if it has any, and the one
/// that seeds its trades, if it has any.
pub open spec fn anchor_commands(entry: OrderSyncEntryView) -> Seq<FillTrackerCommandView> {
    let synced = if entry.filled_qty.mantissa() > 0 {
        seq![
            FillTrackerCommandView::SyncOrder {
                bet_id: entry.bet_id,
                filled_qty: entry.filled_qty,
                avg_px: entry.avg_px,
            },
        ]
    } else {
        seq![]
    };
    let seeded = if entry.trade_ids.len() > 0 {
        seq![FillTrackerCommandView::SeedPublishedTradeIds { trade_ids: entry.trade_ids }]
    } else {
        seq![]
    };
    synced + seeded
}

} // verus!
