//! The OCM state, shared by the stream reader and the execution client.
use std::collections::VecDeque;

use ahash::{AHashMap, AHashSet};
use vstd::prelude::*;

use crate::collections::{
    confirmed_map, confirmed_map_get, confirmed_map_insert, confirmed_map_new,
    confirmed_map_remove, id_set, id_set_contains, id_set_insert, id_set_new, id_set_remove,
    key_set, key_set_contains, key_set_insert, key_set_items, key_set_new, key_set_remove,
    key_views, quantity_update_map, quantity_update_map_get, quantity_update_map_insert,
    quantity_update_map_new, quantity_update_map_remove, ref_map, ref_map_get, ref_map_insert,
    ref_map_new, ref_map_remove, replace_map, replace_map_get, replace_map_get_mut,
    replace_map_insert, replace_map_keys, replace_map_new, replace_map_remove, strategy_map,
    strategy_map_get, strategy_map_insert, strategy_map_new, strategy_map_remove, BetKey,
    BetKeyView,
};
use crate::model::{bets_of, prune_command, OcmModel};
use crate::types::{
    command_views, entry_views, option_view, string_views, ClientOrderId, ClientOrderIdView,
    FillTrackerCommand, InstrumentId, OrderSyncEntry, PendingQuantityUpdate, PendingReplace,
    Quantity, StrategyId, UnixNanos,
};

verus! {

/// What the stream reader and the execution client share about orders.
#[derive(Debug)]
pub struct OcmState {
    /// The order that a customer order reference belongs to.
    pub customer_order_refs: AHashMap<String, ClientOrderId>,
    /// The strategy that submitted an order, by the order's identifier.
    pub order_strategies: AHashMap<String, StrategyId>,
    /// The orders whose acceptance was emitted, so that it is emitted once.
    pub accepted_orders: AHashSet<String>,
    /// The orders that the stream reported a status of.
    pub stream_reported_client_orders: AHashSet<String>,
    /// The bets that are finished: cancelled, lapsed or filled.
    pub terminal_orders: AHashSet<String>,
    /// The finished bets, the oldest first.
    terminal_order_queue: VecDeque<String>,
    /// The bets that were replaced, whose late updates are suppressed.
    pub replaced_venue_order_ids: AHashSet<String>,
    /// The orders and bets that a replace is under way for.
    pub pending_update_keys: AHashSet<BetKey>,
    /// The replaces that are under way.
    pending_replaces: AHashMap<BetKey, PendingReplace>,
    /// The quantity updates that are under way.
    pending_quantity_updates: AHashMap<BetKey, PendingQuantityUpdate>,
    /// The quantities that updates were confirmed with.
    confirmed_quantity_updates: AHashMap<BetKey, Quantity>,
}

impl OcmState {
    /// How many finished bets are retained, so that the memory is bounded while
    /// delayed updates of recent bets are still known.
    pub const TERMINAL_ORDER_RETENTION: usize = 10_000;
}

impl View for OcmState {
    type V = OcmModel;

    closed spec fn view(&self) -> OcmModel {
        OcmModel {
            customer_order_refs: ref_map(self.customer_order_refs),
            order_strategies: strategy_map(self.order_strategies),
            accepted_orders: id_set(self.accepted_orders),
            stream_reported_client_orders: id_set(self.stream_reported_client_orders),
            terminal_orders: id_set(self.terminal_orders),
            terminal_order_queue: string_views(self.terminal_order_queue@),
            replaced_venue_order_ids: id_set(self.replaced_venue_order_ids),
            pending_update_keys: key_set(self.pending_update_keys),
            pending_replaces: replace_map(self.pending_replaces),
            pending_quantity_updates: quantity_update_map(self.pending_quantity_updates),
            confirmed_quantity_updates: confirmed_map(self.confirmed_quantity_updates),
        }
    }
}

/// The view of a state shows what each collection of it holds, in its own
/// place.
proof fn law_state_views_show_the_collections(s: OcmState)
    ensures
        s@.customer_order_refs == ref_map(s.customer_order_refs),
        s@.order_strategies == strategy_map(s.order_strategies),
        s@.accepted_orders == id_set(s.accepted_orders),
        s@.stream_reported_client_orders == id_set(s.stream_reported_client_orders),
        s@.terminal_orders == id_set(s.terminal_orders),
        s@.terminal_order_queue.len() == s.terminal_order_queue@.len(),
        forall|i: int|
            0 <= i < s.terminal_order_queue@.len() ==> #[trigger] s@.terminal_order_queue[i]
                == s.terminal_order_queue@[i]@,
        s@.replaced_venue_order_ids == id_set(s.replaced_venue_order_ids),
        s@.pending_update_keys == key_set(s.pending_update_keys),
        s@.pending_replaces == replace_map(s.pending_replaces),
        s@.pending_quantity_updates == quantity_update_map(s.pending_quantity_updates),
        s@.confirmed_quantity_updates == confirmed_map(s.confirmed_quantity_updates),
{
}

impl Default for OcmState {
    /// The state that knows of no order.
    fn default() -> (r: OcmState)
        ensures
            r@ == OcmModel::initial(),
    {
        let r = OcmState {
            customer_order_refs: ref_map_new(),
            order_strategies: strategy_map_new(),
            accepted_orders: id_set_new(),
            stream_reported_client_orders: id_set_new(),
            terminal_orders: id_set_new(),
            terminal_order_queue: VecDeque::new(),
            replaced_venue_order_ids: id_set_new(),
            pending_update_keys: key_set_new(),
            pending_replaces: replace_map_new(),
            pending_quantity_updates: quantity_update_map_new(),
            confirmed_quantity_updates: confirmed_map_new(),
        };
        assert(r@ =~= OcmModel::initial());
        r
    }
}

impl OcmState {
    /// Registers the current customer order reference of a new order.
    pub fn register_customer_order_ref(&mut self, client_order_id: ClientOrderId)
        ensures
            final(self)@ == old(self)@.register_customer_order_ref(client_order_id@),
    {
        let rfo = client_order_id.customer_order_ref.clone();
        ref_map_insert(&mut self.customer_order_refs, rfo, client_order_id);
    }

    /// Registers both the current and the legacy customer order reference.
    ///
    /// Used when the stream reconnects, for orders that may have been placed
    /// under either.
    pub fn register_customer_order_ref_with_legacy(&mut self, client_order_id: ClientOrderId)
        ensures
            final(self)@ == old(self)@.register_customer_order_ref_with_legacy(client_order_id@),
    {
        let rfo = client_order_id.customer_order_ref.clone();
        let rfo_legacy = client_order_id.legacy_customer_order_ref.clone();
        ref_map_insert(&mut self.customer_order_refs, rfo, client_order_id.clone());
        if rfo_legacy != client_order_id.value {
            ref_map_insert(&mut self.customer_order_refs, rfo_legacy, client_order_id);
        }
    }

    /// Records the strategy that submitted an order.
    pub fn register_order_identity(
        &mut self,
        client_order_id: ClientOrderId,
        strategy_id: StrategyId,
    )
        ensures
            final(self)@ == old(self)@.register_order_identity(client_order_id@, strategy_id@),
    {
        strategy_map_insert(&mut self.order_strategies, client_order_id.value, strategy_id);
    }

    /// Returns the strategy that submitted an order, if it is known.
    pub fn order_strategy_id(&self, client_order_id: &ClientOrderId) -> (r: Option<StrategyId>)
        ensures
            option_view(r) == self@.order_strategy_id(client_order_id@),
    {
        match strategy_map_get(&self.order_strategies, client_order_id.value.as_str()) {
            Some(strategy_id) => Some(strategy_id.clone()),
            None => None,
        }
    }

    /// Records that the acceptance of an order was emitted.
    ///
    /// Returns `true` if this call is the first to do so, and the caller
    /// should emit the acceptance, or `false` if it was emitted before.
    pub fn mark_accepted(&mut self, client_order_id: ClientOrderId) -> (fresh: bool)
        ensures
            final(self)@ == old(self)@.mark_accepted(client_order_id@),
            fresh == !old(self)@.accepted_orders.contains(client_order_id@.value),
    {
        id_set_insert(&mut self.accepted_orders, client_order_id.value)
    }

    /// Forgets the customer order references of an order, the strategy that
    /// submitted it, and its acceptance.
    pub fn remove_customer_order_refs(&mut self, client_order_id: &ClientOrderId)
        ensures
            final(self)@ == old(self)@.remove_customer_order_refs(client_order_id@),
    {
        let rfo = client_order_id.customer_order_ref.as_str();
        let rfo_legacy = client_order_id.legacy_customer_order_ref.as_str();
        ref_map_remove(&mut self.customer_order_refs, rfo);
        ref_map_remove(&mut self.customer_order_refs, rfo_legacy);
        strategy_map_remove(&mut self.order_strategies, client_order_id.value.as_str());
        id_set_remove(&mut self.accepted_orders, client_order_id.value.as_str());
    }

    /// Finds the order that a stream update's reference belongs to.
    pub fn resolve_client_order_id(&self, rfo: Option<&str>) -> (r: Option<ClientOrderId>)
        ensures
            option_view(r) == self@.resolve_client_order_id(option_view(rfo)),
    {
        match rfo {
            Some(rfo) => match ref_map_get(&self.customer_order_refs, rfo) {
                Some(client_order_id) => Some(client_order_id.clone()),
                None => None,
            },
            None => None,
        }
    }

    /// Whether a cancel or lapse of the bet should be suppressed, because a
    /// replace of it is under way or has been made.
    pub fn should_suppress_cancel(&self, client_order_id: &ClientOrderId, bet_id: &str) -> (r: bool)
        ensures
            r == self@.should_suppress_cancel(client_order_id@, bet_id@),
    {
        if id_set_contains(&self.replaced_venue_order_ids, bet_id) {
            return true;
        }
        key_set_contains(&self.pending_update_keys, &bet_key(client_order_id, bet_id))
    }

    /// Records that a replace of the bet is under way.
    pub fn register_pending_replace(
        &mut self,
        client_order_id: ClientOrderId,
        bet_id: String,
        instrument_id: InstrumentId,
        quantity: Quantity,
        filled_qty: Quantity,
    )
        ensures
            final(self)@ == old(self)@.register_pending_replace(
                client_order_id@,
                bet_id@,
                instrument_id@,
                quantity,
                filled_qty,
            ),
    {
        let key = bet_key(&client_order_id, bet_id.as_str());
        key_set_insert(&mut self.pending_update_keys, key);
        replace_map_insert(
            &mut self.pending_replaces,
            (client_order_id.value, bet_id),
            PendingReplace { instrument_id, quantity, filled_qty, reconcile_after: None },
        );
    }

    /// Records that the outcome of the bet's replace is ambiguous, and from
    /// when on it may be reconciled.
    ///
    /// Returns `false`, and records nothing, if no replace is under way.
    pub fn mark_pending_replace_ambiguous(
        &mut self,
        client_order_id: &ClientOrderId,
        old_bet_id: &str,
        reconcile_after: UnixNanos,
    ) -> (r: bool)
        ensures
            final(self)@ == old(self)@.mark_pending_replace_ambiguous(
                client_order_id@,
                old_bet_id@,
                reconcile_after,
            ),
            r == (old(self)@.pending_replace_for_bet(client_order_id@, old_bet_id@) is Some),
    {
        let key = bet_key(client_order_id, old_bet_id);
        match replace_map_get_mut(&mut self.pending_replaces, &key) {
            Some(pending) => {
                pending.reconcile_after = Some(reconcile_after);
                true
            },
            None => false,
        }
    }

    /// Whether the outcome of the bet's replace is ambiguous, and may be
    /// reconciled by now.
    pub fn pending_replace_reconcilable(
        &self,
        client_order_id: &ClientOrderId,
        old_bet_id: &str,
        ts_now: UnixNanos,
    ) -> (r: bool)
        ensures
            r == self@.pending_replace_reconcilable(client_order_id@, old_bet_id@, ts_now),
    {
        let key = bet_key(client_order_id, old_bet_id);
        match replace_map_get(&self.pending_replaces, &key) {
            Some(pending) => match pending.reconcile_after {
                Some(reconcile_after) => ts_now.nanos >= reconcile_after.nanos,
                None => false,
            },
            None => false,
        }
    }

    /// Settles the replaces that the replacement bet can be the outcome of, and
    /// returns one of them.
    ///
    /// The old bets move to the replaced ones, so that their late updates are
    /// suppressed. A replacement bet that was itself replaced settles nothing.
    pub fn resolve_pending_replace(
        &mut self,
        client_order_id: &ClientOrderId,
        replacement_bet_id: &str,
        instrument_id: InstrumentId,
    ) -> (r: Option<PendingReplace>)
        ensures
            final(self)@ == old(self)@.resolve_pending_replace(
                client_order_id@,
                replacement_bet_id@,
                instrument_id@,
            ),
            old(self)@.resolves_to(
                client_order_id@,
                replacement_bet_id@,
                instrument_id@,
                option_view(r),
            ),
    {
        if id_set_contains(&self.replaced_venue_order_ids, replacement_bet_id) {
            return None;
        }
        let walk = key_set_items(&self.pending_update_keys);
        let pending = self.resolvable_keys(
            &walk,
            client_order_id,
            replacement_bet_id,
            &instrument_id,
        );
        let ghost keys = self@.resolvable(client_order_id@, replacement_bet_id@, instrument_id@);
        proof {
            let can_replace = |key: BetKeyView|
                self@.can_replace(client_order_id@, replacement_bet_id@, instrument_id@, key);
            assert forall|key: BetKeyView|
                #![trigger keys.contains(key)]
                key_views(pending@).to_set().contains(key) <==> keys.contains(key) by {
                if keys.contains(key) {
                    assert(key_views(walk@).to_set().contains(key));
                    let i = choose|i: int|
                        0 <= i < key_views(walk@).len() && key_views(walk@)[i] == key;
                    key_views(walk@).lemma_filter_contains(can_replace, i);
                }
                if key_views(pending@).contains(key) {
                    let i = choose|i: int|
                        0 <= i < key_views(pending@).len() && key_views(pending@)[i] == key;
                    key_views(walk@).lemma_filter_pred(can_replace, i);
                    key_views(walk@).lemma_filter_contains_rev(can_replace, key);
                    assert(key_views(walk@).to_set().contains(key));
                }
            }
            assert(key_views(pending@).to_set() =~= keys);
            lemma_first_replace(self@, key_views(pending@));
        }
        self.settle_replaces(&pending)
    }

    /// Returns those keys of a walk over the pending ones, in the order of the
    /// walk, whose replaces the replacement bet can be the outcome of.
    pub fn resolvable_keys(
        &self,
        walk: &Vec<BetKey>,
        client_order_id: &ClientOrderId,
        replacement_bet_id: &str,
        instrument_id: &InstrumentId,
    ) -> (r: Vec<BetKey>)
        ensures
            key_views(r@) == key_views(walk@).filter(
                |key: BetKeyView|
                    self@.can_replace(client_order_id@, replacement_bet_id@, instrument_id@, key),
            ),
    {
        let replacement = replacement_bet_id.to_owned();
        let ghost can_replace = |key: BetKeyView|
            self@.can_replace(client_order_id@, replacement_bet_id@, instrument_id@, key);
        let mut r: Vec<BetKey> = Vec::new();
        let mut i: usize = 0;
        proof {
            reveal(Seq::filter);
        }
        while i < walk.len()
            invariant
                i <= walk.len(),
                replacement@ == replacement_bet_id@,
                can_replace == (|key: BetKeyView|
                    self@.can_replace(client_order_id@, replacement_bet_id@, instrument_id@, key)),
                key_views(r@) == key_views(walk@).take(i as int).filter(can_replace),
            decreases walk.len() - i,
        {
            let key = &walk[i];
            let ghost before = r@;
            proof {
                reveal(Seq::filter);
                let next = key_views(walk@).take(i + 1);
                assert(next.drop_last() == key_views(walk@).take(i as int));
                assert(next.last() == key@);
            }
            let on_instrument = match replace_map_get(&self.pending_replaces, key) {
                Some(pending) => pending.instrument_id == *instrument_id,
                None => false,
            };
            if key.0 == client_order_id.value && key.1 != replacement && on_instrument {
                r.push((key.0.clone(), key.1.clone()));
                assert(key_views(r@) == key_views(before).push(key@));
            }
            i = i + 1;
        }
        assert(key_views(walk@).take(walk@.len() as int) == key_views(walk@));
        r
    }

    /// Ends the replaces of the keys: none is pending any more, and their bets
    /// are replaced. Returns the first replace that was under way.
    pub fn settle_replaces(&mut self, keys: &Vec<BetKey>) -> (r: Option<PendingReplace>)
        ensures
            final(self)@ == old(self)@.replace_keys(key_views(keys@).to_set()),
            option_view(r) == old(self)@.first_replace(key_views(keys@)),
    {
        let ghost views = key_views(keys@);
        let ghost replaces = replace_map(old(self).pending_replaces);
        let mut resolution: Option<PendingReplace> = None;
        let mut i: usize = 0;
        assert(views.skip(0) == views);
        while i < keys.len() && resolution.is_none()
            invariant
                i <= keys.len(),
                views == key_views(keys@),
                replaces == replace_map(old(self).pending_replaces),
                *self == (OcmState { pending_replaces: self.pending_replaces, ..*old(self) }),
                replace_map(self.pending_replaces).remove_keys(views.to_set())
                    == replaces.remove_keys(views.to_set()),
                match resolution {
                    Some(pending) => old(self)@.first_replace(views) == Some(pending@),
                    None => {
                        &&& replace_map(self.pending_replaces) == replaces
                        &&& old(self)@.first_replace(views) == old(self)@.first_replace(
                            views.skip(i as int),
                        )
                    },
                },
            decreases keys.len() - i,
        {
            proof {
                assert(views.skip(i as int).first() == keys@[i as int]@);
                assert(views.skip(i as int).drop_first() == views.skip(i + 1));
                assert(views[i as int] == keys@[i as int]@);
                assert(views.contains(keys@[i as int]@));
            }
            resolution = replace_map_remove(&mut self.pending_replaces, &keys[i]);
            i = i + 1;
        }
        let mut i: usize = 0;
        while i < keys.len()
            invariant
                i <= keys.len(),
                views == key_views(keys@),
                replaces == replace_map(old(self).pending_replaces),
                *self == (OcmState {
                    pending_update_keys: self.pending_update_keys,
                    pending_replaces: self.pending_replaces,
                    replaced_venue_order_ids: self.replaced_venue_order_ids,
                    ..*old(self)
                }),
                key_set(self.pending_update_keys) == key_set(
                    old(self).pending_update_keys,
                ).difference(views.take(i as int).to_set()),
                replace_map(self.pending_replaces).remove_keys(views.to_set())
                    == replaces.remove_keys(views.to_set()),
                forall|j: int|
                    #![trigger keys@[j]]
                    0 <= j < i ==> !replace_map(self.pending_replaces).contains_key(keys@[j]@),
                id_set(self.replaced_venue_order_ids) == id_set(
                    old(self).replaced_venue_order_ids,
                ).union(bets_of(views.take(i as int).to_set())),
            decreases keys.len() - i,
        {
            proof {
                lemma_take_next(views, i as int);
                lemma_bets_of_insert(views.take(i as int).to_set(), keys@[i as int]@);
                assert(views[i as int] == keys@[i as int]@);
                assert(views.contains(keys@[i as int]@));
            }
            let update = &keys[i];
            key_set_remove(&mut self.pending_update_keys, update);
            replace_map_remove(&mut self.pending_replaces, update);
            id_set_insert(&mut self.replaced_venue_order_ids, update.1.clone());
            i = i + 1;
        }
        proof {
            assert(views.take(views.len() as int) == views);
            assert forall|key: BetKeyView| views.to_set().contains(key) implies !replace_map(
                self.pending_replaces,
            ).contains_key(key) by {
                let j = choose|j: int| 0 <= j < views.len() && views[j] == key;
                assert(keys@[j]@ == key);
            }
            assert(replace_map(self.pending_replaces) =~= replace_map(
                self.pending_replaces,
            ).remove_keys(views.to_set()));
        }
        resolution
    }

    /// Ends the bet's replace as successful: if one is under way, the bet is
    /// replaced from now on, and the replace is returned.
    pub fn complete_pending_replace(
        &mut self,
        client_order_id: &ClientOrderId,
        old_bet_id: &str,
    ) -> (r: Option<PendingReplace>)
        ensures
            final(self)@ == old(self)@.complete_pending_replace(client_order_id@, old_bet_id@),
            option_view(r) == old(self)@.pending_replace_for_bet(client_order_id@, old_bet_id@),
    {
        let key = bet_key(client_order_id, old_bet_id);
        key_set_remove(&mut self.pending_update_keys, &key);
        let pending = replace_map_remove(&mut self.pending_replaces, &key);
        if pending.is_some() {
            id_set_insert(&mut self.replaced_venue_order_ids, old_bet_id.to_owned());
        }
        pending
    }

    /// Gives the bet's replace up, and returns it if one was under way.
    pub fn clear_pending_replace(
        &mut self,
        client_order_id: &ClientOrderId,
        old_bet_id: &str,
    ) -> (r: Option<PendingReplace>)
        ensures
            final(self)@ == old(self)@.clear_pending_replace(client_order_id@, old_bet_id@),
            option_view(r) == old(self)@.pending_replace_for_bet(client_order_id@, old_bet_id@),
    {
        let key = bet_key(client_order_id, old_bet_id);
        key_set_remove(&mut self.pending_update_keys, &key);
        replace_map_remove(&mut self.pending_replaces, &key)
    }

    /// Returns a replace that is under way for the order, with its bet.
    pub fn pending_replace(&self, client_order_id: &ClientOrderId) -> (r: Option<
        (String, PendingReplace),
    >)
        ensures
            self@.is_pending_replace(client_order_id@, option_view(r)),
    {
        let walk = replace_map_keys(&self.pending_replaces);
        proof {
            lemma_first_replace_of_order(self@, client_order_id@, key_views(walk@));
            assert forall|bet_id: Seq<char>|
                !key_views(walk@).contains((client_order_id@.value, bet_id))
                    implies !#[trigger] self@.pending_replaces.contains_key(
                (client_order_id@.value, bet_id),
            ) by {
                assert(!key_views(walk@).to_set().contains((client_order_id@.value, bet_id)));
            }
        }
        self.first_pending_replace(&walk, client_order_id)
    }

    /// Returns the first replace of the order in a walk over the keys of those
    /// under way, with its bet.
    pub fn first_pending_replace(
        &self,
        walk: &Vec<BetKey>,
        client_order_id: &ClientOrderId,
    ) -> (r: Option<(String, PendingReplace)>)
        ensures
            option_view(r) == self@.first_replace_of_order(client_order_id@, key_views(walk@)),
    {
        let ghost views = key_views(walk@);
        let mut i: usize = 0;
        assert(views.skip(0) == views);
        while i < walk.len()
            invariant
                i <= walk.len(),
                views == key_views(walk@),
                self@.first_replace_of_order(client_order_id@, views)
                    == self@.first_replace_of_order(client_order_id@, views.skip(i as int)),
            decreases walk.len() - i,
        {
            let key = &walk[i];
            proof {
                assert(views.skip(i as int).first() == key@);
                assert(views.skip(i as int).drop_first() == views.skip(i + 1));
            }
            if key.0 == client_order_id.value {
                if let Some(pending) = replace_map_get(&self.pending_replaces, key) {
                    return Some((key.1.clone(), pending.clone()));
                }
            }
            i = i + 1;
        }
        None
    }

    /// Returns the replace that is under way for the bet.
    pub fn pending_replace_for_bet(
        &self,
        client_order_id: &ClientOrderId,
        old_bet_id: &str,
    ) -> (r: Option<PendingReplace>)
        ensures
            option_view(r) == self@.pending_replace_for_bet(client_order_id@, old_bet_id@),
    {
        match replace_map_get(&self.pending_replaces, &bet_key(client_order_id, old_bet_id)) {
            Some(pending) => Some(pending.clone()),
            None => None,
        }
    }

    /// Records that a reduction of the bet's quantity is under way.
    pub fn register_pending_quantity_update(
        &mut self,
        client_order_id: ClientOrderId,
        bet_id: String,
        original: Quantity,
        requested: Quantity,
    )
        ensures
            final(self)@ == old(self)@.register_pending_quantity_update(
                client_order_id@,
                bet_id@,
                original,
                requested,
            ),
    {
        quantity_update_map_insert(
            &mut self.pending_quantity_updates,
            (client_order_id.value, bet_id),
            PendingQuantityUpdate { original, requested },
        );
    }

    /// Confirms the bet's update with the quantity that the stream reports as
    /// active, if that shows a definitive reduction.
    ///
    /// Returns `false`, and changes nothing, if no update is under way, or if
    /// the quantity is below the requested or not below the original one.
    pub fn resolve_pending_quantity_update(
        &mut self,
        client_order_id: &ClientOrderId,
        bet_id: &str,
        active_quantity: Quantity,
    ) -> (r: bool)
        ensures
            final(self)@ == old(self)@.resolve_pending_quantity_update(
                client_order_id@,
                bet_id@,
                active_quantity,
            ),
            r == old(self)@.is_definitive_reduction(client_order_id@, bet_id@, active_quantity),
    {
        let key = bet_key(client_order_id, bet_id);
        let update = match quantity_update_map_get(&self.pending_quantity_updates, &key) {
            Some(update) => *update,
            None => {
                return false;
            },
        };
        if active_quantity < update.requested || active_quantity >= update.original {
            return false;
        }
        quantity_update_map_remove(&mut self.pending_quantity_updates, &key);
        confirmed_map_insert(&mut self.confirmed_quantity_updates, key, active_quantity);
        true
    }

    /// Confirms the bet's update with the quantity.
    ///
    /// Returns `false`, and changes nothing, if no update is under way.
    pub fn complete_pending_quantity_update(
        &mut self,
        client_order_id: &ClientOrderId,
        bet_id: &str,
        quantity: Quantity,
    ) -> (r: bool)
        ensures
            final(self)@ == old(self)@.complete_pending_quantity_update(
                client_order_id@,
                bet_id@,
                quantity,
            ),
            r == old(self)@.pending_quantity_updates.contains_key((client_order_id@.value, bet_id@)),
    {
        let key = bet_key(client_order_id, bet_id);
        if quantity_update_map_remove(&mut self.pending_quantity_updates, &key).is_none() {
            return false;
        }
        confirmed_map_insert(&mut self.confirmed_quantity_updates, key, quantity);
        true
    }

    /// Returns the quantity that the bet's update was confirmed with.
    pub fn confirmed_quantity_update(
        &self,
        client_order_id: &ClientOrderId,
        bet_id: &str,
    ) -> (r: Option<Quantity>)
        ensures
            r == self@.confirmed_quantity_update(client_order_id@, bet_id@),
    {
        match confirmed_map_get(
            &self.confirmed_quantity_updates,
            &bet_key(client_order_id, bet_id),
        ) {
            Some(quantity) => Some(*quantity),
            None => None,
        }
    }

    /// Forgets the bet's update, whether it is under way or confirmed.
    ///
    /// Returns whether there was anything to forget.
    pub fn clear_pending_quantity_update(
        &mut self,
        client_order_id: &ClientOrderId,
        bet_id: &str,
    ) -> (r: bool)
        ensures
            final(self)@ == old(self)@.clear_pending_quantity_update(client_order_id@, bet_id@),
            r == (old(self)@.pending_quantity_updates.contains_key(
                (client_order_id@.value, bet_id@),
            ) || old(self)@.confirmed_quantity_updates.contains_key(
                (client_order_id@.value, bet_id@),
            )),
    {
        let key = bet_key(client_order_id, bet_id);
        let pending = quantity_update_map_remove(&mut self.pending_quantity_updates, &key).is_some();
        let confirmed = confirmed_map_remove(&mut self.confirmed_quantity_updates, &key).is_some();
        pending || confirmed
    }

    /// Forgets a finished order, unless an update of it is under way.
    pub fn cleanup_terminal_order(&mut self, client_order_id: &ClientOrderId)
        ensures
            final(self)@ == old(self)@.cleanup_terminal_order(client_order_id@),
    {
        if !self.has_pending_update(client_order_id) {
            self.remove_customer_order_refs(client_order_id);
        }
    }

    /// Records a finished bet, and bounds how many are retained.
    ///
    /// Returns the command that makes the fill tracker forget the bet which
    /// expired, if one did.
    #[must_use]
    pub fn mark_terminal_order(&mut self, bet_id: String) -> (r: Option<FillTrackerCommand>)
        ensures
            final(self)@ == old(self)@.mark_terminal_order(bet_id@),
            option_view(r) == prune_command(old(self)@.expired_by(bet_id@)),
    {
        if !id_set_insert(&mut self.terminal_orders, bet_id.clone()) {
            proof {
                assert(self@ =~= old(self)@);
            }
            return None;
        }
        self.terminal_order_queue.push_back(bet_id);
        assert(string_views(self.terminal_order_queue@) == old(self)@.terminal_order_queue.push(
            bet_id@,
        ));
        if self.terminal_order_queue.len() > Self::TERMINAL_ORDER_RETENTION {
            if let Some(expired_bet_id) = self.terminal_order_queue.pop_front() {
                id_set_remove(&mut self.terminal_orders, expired_bet_id.as_str());
                assert(self@.terminal_order_queue == old(self)@.terminal_order_queue.push(
                    bet_id@,
                ).drop_first());
                return Some(FillTrackerCommand::Prune { bet_id: expired_bet_id });
            }
        }
        None
    }

    /// Takes over what the cache knows of the orders when the stream
    /// reconnects.
    ///
    /// Returns the commands that anchor the fill tracker, so that the image
    /// that follows neither treats a cumulative size as a new fill nor emits a
    /// fill again that was published before.
    #[must_use]
    pub fn sync_from_orders(&mut self, orders: &[OrderSyncEntry]) -> (r: Vec<FillTrackerCommand>)
        ensures
            final(self)@ == old(self)@.sync_from_orders(entry_views(orders@)),
            command_views(r@) == old(self)@.sync_commands(entry_views(orders@)),
    {
        let mut commands: Vec<FillTrackerCommand> = Vec::new();
        let ghost entries = entry_views(orders@);
        let mut i: usize = 0;
        assert(command_views(commands@) == old(self)@.sync_commands(entries.take(0)));
        while i < orders.len()
            invariant
                i <= orders.len(),
                entries == entry_views(orders@),
                self@ == old(self)@.sync_from_orders(entries.take(i as int)),
                command_views(commands@) == old(self)@.sync_commands(entries.take(i as int)),
            decreases orders.len() - i,
        {
            self.sync_order(&orders[i], &mut commands);
            proof {
                assert(entries.take(i + 1).drop_last() == entries.take(i as int));
                assert(entries.take(i + 1).last() == orders@[i as int]@);
            }
            i = i + 1;
        }
        assert(entries.take(orders@.len() as int) == entries);
        commands
    }

    /// Takes over one cached order, and appends its commands.
    fn sync_order(&mut self, entry: &OrderSyncEntry, commands: &mut Vec<FillTrackerCommand>)
        ensures
            final(self)@ == old(self)@.sync_entry(entry@),
            command_views(final(commands)@) == command_views(old(commands)@)
                + old(self)@.sync_entry_commands(entry@),
    {
        let ghost before = commands@;
        if entry.is_closed {
            if let Some(prune) = self.mark_terminal_order(entry.bet_id.clone()) {
                commands.push(prune);
            }
        } else {
            self.register_customer_order_ref_with_legacy(entry.client_order_id.clone());
        }
        if entry.filled_qty.is_positive() {
            commands.push(
                FillTrackerCommand::SyncOrder {
                    bet_id: entry.bet_id.clone(),
                    filled_qty: entry.filled_qty,
                    avg_px: entry.avg_px,
                },
            );
        }
        if entry.trade_ids.len() > 0 {
            let trade_ids = entry.trade_ids.clone();
            assert(string_views(trade_ids@) == string_views(entry.trade_ids@));
            commands.push(FillTrackerCommand::SeedPublishedTradeIds { trade_ids });
        }
        assert(command_views(commands@) == command_views(before)
            + old(self)@.sync_entry_commands(entry@));
    }

    /// Whether an update of one of the order's bets is under way.
    fn has_pending_update(&self, client_order_id: &ClientOrderId) -> (r: bool)
        ensures
            r == self@.has_pending_update(client_order_id@),
    {
        let keys = key_set_items(&self.pending_update_keys);
        let mut i: usize = 0;
        while i < keys.len()
            invariant
                i <= keys.len(),
                key_views(keys@).to_set() == key_set(self.pending_update_keys),
                forall|j: int|
                    #![trigger keys@[j]]
                    0 <= j < i ==> keys@[j].0@ != client_order_id.value@,
            decreases keys.len() - i,
        {
            let key = &keys[i];
            if key.0 == client_order_id.value {
                proof {
                    assert(key_views(keys@)[i as int] == key@);
                    assert(key_views(keys@).to_set().contains(key@));
                    assert(self@.pending_update_keys.contains((client_order_id@.value, key.1@)));
                }
                return true;
            }
            i = i + 1;
        }
        proof {
            assert forall|bet_id: Seq<char>|
                !#[trigger] self@.pending_update_keys.contains(
                    (client_order_id@.value, bet_id),
                ) by {
                let key = (client_order_id@.value, bet_id);
                if self@.pending_update_keys.contains(key) {
                    assert(key_views(keys@).to_set().contains(key));
                    let j = choose|j: int|
                        0 <= j < key_views(keys@).len() && key_views(keys@)[j] == key;
                    assert(keys@[j]@ == key);
                }
            }
        }
        false
    }
}

/// The key of an order's bet.
fn bet_key(client_order_id: &ClientOrderId, bet_id: &str) -> (key: BetKey)
    ensures
        key@ == (client_order_id@.value, bet_id@),
{
    (client_order_id.value.clone(), bet_id.to_owned())
}

/// The first replace of a list of keys is one of theirs, and is missing only
/// if none of them has one.
proof fn lemma_first_replace(s: OcmModel, keys: Seq<BetKeyView>)
    ensures
        match s.first_replace(keys) {
            Some(pending) => exists|key: BetKeyView|
                #[trigger] keys.to_set().contains(key) && s.pending_replaces.contains_key(key)
                    && s.pending_replaces[key] == pending,
            None => forall|key: BetKeyView| #[trigger]
                keys.to_set().contains(key) ==> !s.pending_replaces.contains_key(key),
        },
    decreases keys.len(),
{
    if keys.len() > 0 {
        lemma_first_replace(s, keys.drop_first());
        assert(keys.to_set().contains(keys.first()));
        assert forall|key: BetKeyView| #[trigger]
            keys.drop_first().to_set().contains(key) implies keys.to_set().contains(key) by {
            let i = choose|i: int| 0 <= i < keys.drop_first().len() && keys.drop_first()[i] == key;
            assert(keys[i + 1] == key);
        }
        assert forall|key: BetKeyView| #[trigger]
            keys.to_set().contains(key) implies key == keys.first()
            || keys.drop_first().to_set().contains(key) by {
            let i = choose|i: int| 0 <= i < keys.len() && keys[i] == key;
            if i > 0 {
                assert(keys.drop_first()[i - 1] == key);
            }
        }
    }
}

/// The first replace of an order in a list of keys is under way for the
/// order, and is missing only if none of the order's keys has one.
proof fn lemma_first_replace_of_order(s: OcmModel, id: ClientOrderIdView, keys: Seq<BetKeyView>)
    ensures
        match s.first_replace_of_order(id, keys) {
            Some((bet_id, pending)) => s.pending_replace_for_bet(id, bet_id) == Some(pending),
            None => forall|bet_id: Seq<char>| #[trigger]
                keys.contains((id.value, bet_id)) ==> !s.pending_replaces.contains_key(
                    (id.value, bet_id),
                ),
        },
    decreases keys.len(),
{
    if keys.len() > 0 {
        lemma_first_replace_of_order(s, id, keys.drop_first());
        assert(keys.first() == (keys.first().0, keys.first().1));
        assert forall|bet_id: Seq<char>| #[trigger]
            keys.contains((id.value, bet_id)) implies keys.first() == (id.value, bet_id)
            || keys.drop_first().contains((id.value, bet_id)) by {
            let i = choose|i: int| 0 <= i < keys.len() && keys[i] == (id.value, bet_id);
            if i > 0 {
                assert(keys.drop_first()[i - 1] == (id.value, bet_id));
            }
        }
    }
}

/// The set of a prefix grows by the next element.
proof fn lemma_take_next<A>(s: Seq<A>, i: int)
    requires
        0 <= i < s.len(),
    ensures
        s.take(i + 1).to_set() == s.take(i).to_set().insert(s[i]),
{
    assert(s.take(i + 1) == s.take(i).push(s[i]));
    s.take(i).lemma_push_to_set_commute(s[i]);
}

/// The bets of a set of keys grow by the bet of the key that is inserted.
proof fn lemma_bets_of_insert(keys: Set<BetKeyView>, key: BetKeyView)
    ensures
        bets_of(keys.insert(key)) == bets_of(keys).insert(key.1),
{
    assert forall|bet_id: Seq<char>|
        #![trigger bets_of(keys.insert(key)).contains(bet_id)]
        bets_of(keys.insert(key)).contains(bet_id) <==> bets_of(keys).insert(key.1).contains(
            bet_id,
        ) by {
        if bets_of(keys).contains(bet_id) {
            let id = choose|id: Seq<char>| #[trigger] keys.contains((id, bet_id));
            assert(keys.insert(key).contains((id, bet_id)));
        }
        assert(key == (key.0, key.1));
        assert(keys.insert(key).contains((key.0, key.1)));
    }
    assert(bets_of(keys.insert(key)) =~= bets_of(keys).insert(key.1));
}

} // verus!
