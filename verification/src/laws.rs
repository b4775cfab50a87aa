//! The properties of the OCM state that hold across calls.
//!
//! Each law is stated over the operations of `OcmModel`, which are what the
//! methods of `OcmState` do.
use vstd::prelude::*;

use crate::collections::BetKeyView;
use crate::model::{anchor_commands, OcmModel};
use crate::state::OcmState;
use crate::types::{
    ClientOrderIdView, FillTrackerCommandView, InstrumentIdView, OrderSyncEntryView,
    PendingReplaceView, Quantity, UnixNanos,
};

verus! {

/// A call that changes the state.
pub enum OcmStep {
    RegisterCustomerOrderRef { id: ClientOrderIdView },
    RegisterCustomerOrderRefWithLegacy { id: ClientOrderIdView },
    RegisterOrderIdentity { id: ClientOrderIdView, strategy: Seq<char> },
    MarkAccepted { id: ClientOrderIdView },
    RemoveCustomerOrderRefs { id: ClientOrderIdView },
    RegisterPendingReplace {
        id: ClientOrderIdView,
        bet_id: Seq<char>,
        instrument_id: InstrumentIdView,
        quantity: Quantity,
        filled_qty: Quantity,
    },
    MarkPendingReplaceAmbiguous {
        id: ClientOrderIdView,
        bet_id: Seq<char>,
        reconcile_after: UnixNanos,
    },
    ResolvePendingReplace {
        id: ClientOrderIdView,
        replacement_bet_id: Seq<char>,
        instrument_id: InstrumentIdView,
    },
    SettleReplaces { keys: Seq<BetKeyView> },
    CompletePendingReplace { id: ClientOrderIdView, bet_id: Seq<char> },
    ClearPendingReplace { id: ClientOrderIdView, bet_id: Seq<char> },
    RegisterPendingQuantityUpdate {
        id: ClientOrderIdView,
        bet_id: Seq<char>,
        original: Quantity,
        requested: Quantity,
    },
    ResolvePendingQuantityUpdate {
        id: ClientOrderIdView,
        bet_id: Seq<char>,
        active_quantity: Quantity,
    },
    CompletePendingQuantityUpdate { id: ClientOrderIdView, bet_id: Seq<char>, quantity: Quantity },
    ClearPendingQuantityUpdate { id: ClientOrderIdView, bet_id: Seq<char> },
    CleanupTerminalOrder { id: ClientOrderIdView },
    MarkTerminalOrder { bet_id: Seq<char> },
    SyncFromOrders { orders: Seq<OrderSyncEntryView> },
}

impl OcmModel {
    /// The state after a call.
    pub open spec fn step(self, step: OcmStep) -> OcmModel {
        match step {
            OcmStep::RegisterCustomerOrderRef { id } => self.register_customer_order_ref(id),
            OcmStep::RegisterCustomerOrderRefWithLegacy { id } =>
                self.register_customer_order_ref_with_legacy(id),
            OcmStep::RegisterOrderIdentity { id, strategy } => self.register_order_identity(
                id,
                strategy,
            ),
            OcmStep::MarkAccepted { id } => self.mark_accepted(id),
            OcmStep::RemoveCustomerOrderRefs { id } => self.remove_customer_order_refs(id),
            OcmStep::RegisterPendingReplace { id, bet_id, instrument_id, quantity, filled_qty } =>
                self.register_pending_replace(id, bet_id, instrument_id, quantity, filled_qty),
            OcmStep::MarkPendingReplaceAmbiguous { id, bet_id, reconcile_after } =>
                self.mark_pending_replace_ambiguous(id, bet_id, reconcile_after),
            OcmStep::ResolvePendingReplace { id, replacement_bet_id, instrument_id } =>
                self.resolve_pending_replace(id, replacement_bet_id, instrument_id),
            OcmStep::SettleReplaces { keys } => self.replace_keys(keys.to_set()),
            OcmStep::CompletePendingReplace { id, bet_id } => self.complete_pending_replace(
                id,
                bet_id,
            ),
            OcmStep::ClearPendingReplace { id, bet_id } => self.clear_pending_replace(id, bet_id),
            OcmStep::RegisterPendingQuantityUpdate { id, bet_id, original, requested } =>
                self.register_pending_quantity_update(id, bet_id, original, requested),
            OcmStep::ResolvePendingQuantityUpdate { id, bet_id, active_quantity } =>
                self.resolve_pending_quantity_update(id, bet_id, active_quantity),
            OcmStep::CompletePendingQuantityUpdate { id, bet_id, quantity } =>
                self.complete_pending_quantity_update(id, bet_id, quantity),
            OcmStep::ClearPendingQuantityUpdate { id, bet_id } =>
                self.clear_pending_quantity_update(id, bet_id),
            OcmStep::CleanupTerminalOrder { id } => self.cleanup_terminal_order(id),
            OcmStep::MarkTerminalOrder { bet_id } => self.mark_terminal_order(bet_id),
            OcmStep::SyncFromOrders { orders } => self.sync_from_orders(orders),
        }
    }

    /// The state after a history of calls.
    pub open spec fn run(self, steps: Seq<OcmStep>) -> OcmModel
        decreases steps.len(),
    {
        if steps.len() == 0 {
            self
        } else {
            self.run(steps.drop_last()).step(steps.last())
        }
    }

    /// The state after the bets are marked as finished, one after the other.
    pub open spec fn mark_terminal_orders(self, bet_ids: Seq<Seq<char>>) -> OcmModel
        decreases bet_ids.len(),
    {
        if bet_ids.len() == 0 {
            self
        } else {
            self.mark_terminal_orders(bet_ids.drop_last()).mark_terminal_order(bet_ids.last())
        }
    }

    /// What the collections of a state agree on:
    /// the finished bets are those of the queue, each once and no more than are
    /// retained; the replaces under way are those whose updates are pending;
    /// and an order is found by its own references only.
    pub open spec fn consistent(self) -> bool {
        &&& self.terminal_order_queue.no_duplicates()
        &&& self.terminal_order_queue.len() <= OcmState::TERMINAL_ORDER_RETENTION
        &&& self.terminal_orders == self.terminal_order_queue.to_set()
        &&& self.pending_update_keys == self.pending_replaces.dom()
        &&& forall|rfo: Seq<char>| #[trigger]
            self.customer_order_refs.contains_key(rfo) ==> is_reference_of(
                rfo,
                self.customer_order_refs[rfo],
            )
    }
}

/// Whether `rfo` is one of the references of the order.
pub open spec fn is_reference_of(rfo: Seq<char>, id: ClientOrderIdView) -> bool {
    rfo == id.customer_order_ref || rfo == id.legacy_customer_order_ref
}

/// Whether registering both references of the order makes `rfo` find it: it is
/// the current one, or the legacy one where that is not the identifier itself.
pub open spec fn is_registered_under(rfo: Seq<char>, id: ClientOrderIdView) -> bool {
    ||| rfo == id.customer_order_ref
    ||| rfo == id.legacy_customer_order_ref && id.legacy_customer_order_ref != id.value
}

// What every call keeps.

/// A call keeps the collections consistent.
pub proof fn law_step_keeps_consistent(s: OcmModel, step: OcmStep)
    requires
        s.consistent(),
    ensures
        s.step(step).consistent(),
{
    match step {
        OcmStep::MarkTerminalOrder { bet_id } => {
            lemma_mark_terminal_keeps_consistent(s, bet_id);
        },
        OcmStep::SyncFromOrders { orders } => {
            lemma_sync_keeps_consistent(s, orders);
        },
        _ => {
            assert(s.step(step).pending_update_keys =~= s.step(step).pending_replaces.dom());
        },
    }
}

/// Every state that calls lead to, from the one that knows of no order, is
/// consistent.
pub proof fn law_reachable_states_are_consistent(steps: Seq<OcmStep>)
    ensures
        OcmModel::initial().run(steps).consistent(),
    decreases steps.len(),
{
    if steps.len() == 0 {
        let s = OcmModel::initial();
        assert(s.terminal_orders =~= s.terminal_order_queue.to_set());
        assert(s.pending_update_keys =~= s.pending_replaces.dom());
    } else {
        law_reachable_states_are_consistent(steps.drop_last());
        law_step_keeps_consistent(OcmModel::initial().run(steps.drop_last()), steps.last());
    }
}

proof fn lemma_mark_terminal_keeps_consistent(s: OcmModel, bet_id: Seq<char>)
    requires
        s.consistent(),
    ensures
        s.mark_terminal_order(bet_id).consistent(),
        !s.terminal_orders.contains(bet_id) ==> s.mark_terminal_order(
            bet_id,
        ).terminal_order_queue.last() == bet_id,
        s.mark_terminal_order(bet_id).terminal_orders.contains(bet_id),
{
    let t = s.mark_terminal_order(bet_id);
    if !s.terminal_orders.contains(bet_id) {
        let queue = s.terminal_order_queue.push(bet_id);
        assert(!s.terminal_order_queue.contains(bet_id));
        assert(queue.no_duplicates());
        assert forall|x: Seq<char>|
            #![trigger t.terminal_orders.contains(x)]
            t.terminal_orders.contains(x) <==> t.terminal_order_queue.contains(x) by {
            if s.terminal_order_queue.contains(x) {
                let i = choose|i: int|
                    0 <= i < s.terminal_order_queue.len() && s.terminal_order_queue[i] == x;
                assert(queue[i] == x);
                if s.expired_by(bet_id) is Some && i > 0 {
                    assert(t.terminal_order_queue[i - 1] == x);
                }
            }
            if t.terminal_order_queue.contains(x) {
                let i = choose|i: int|
                    0 <= i < t.terminal_order_queue.len() && t.terminal_order_queue[i] == x;
                if s.expired_by(bet_id) is Some {
                    assert(queue[i + 1] == x);
                }
                assert(x == bet_id || s.terminal_order_queue.contains(x));
            }
            assert(t.terminal_order_queue[t.terminal_order_queue.len() - 1] == bet_id);
        }
        assert(t.terminal_orders =~= t.terminal_order_queue.to_set());
    }
}

proof fn lemma_sync_keeps_consistent(s: OcmModel, orders: Seq<OrderSyncEntryView>)
    requires
        s.consistent(),
    ensures
        s.sync_from_orders(orders).consistent(),
    decreases orders.len(),
{
    if orders.len() > 0 {
        lemma_sync_keeps_consistent(s, orders.drop_last());
        let t = s.sync_from_orders(orders.drop_last());
        lemma_mark_terminal_keeps_consistent(t, orders.last().bet_id);
    }
}

// Finished bets.

/// No more bets are retained as finished than the bound allows.
pub proof fn law_terminal_orders_are_bounded(s: OcmModel)
    requires
        s.consistent(),
    ensures
        s.terminal_orders.finite(),
        s.terminal_orders.len() <= OcmState::TERMINAL_ORDER_RETENTION,
{
    s.terminal_order_queue.unique_seq_to_set();
}

/// A bet that is marked as finished is known as finished, and marking it again
/// changes nothing and expires nothing.
pub proof fn law_marking_is_idempotent(s: OcmModel, bet_id: Seq<char>)
    requires
        s.consistent(),
    ensures
        s.mark_terminal_order(bet_id).terminal_orders.contains(bet_id),
        s.mark_terminal_order(bet_id).mark_terminal_order(bet_id) == s.mark_terminal_order(bet_id),
        s.mark_terminal_order(bet_id).expired_by(bet_id) is None,
{
    lemma_mark_terminal_keeps_consistent(s, bet_id);
}

/// Marking a bet forgets at most one other bet: the oldest.
pub proof fn law_marking_forgets_the_oldest_only(s: OcmModel, bet_id: Seq<char>, other: Seq<char>)
    requires
        s.consistent(),
        s.terminal_orders.contains(other),
    ensures
        s.mark_terminal_order(bet_id).terminal_orders.contains(other) <==> s.expired_by(bet_id)
            != Some(other),
        s.expired_by(bet_id) == Some(other) ==> other == s.terminal_order_queue.first(),
{
}

/// A new finished bet is retained while fewer other bets than the bound are
/// marked after it, however often.
pub proof fn law_recent_terminal_orders_are_retained(
    s: OcmModel,
    bet_id: Seq<char>,
    later: Seq<Seq<char>>,
)
    requires
        s.consistent(),
        !s.terminal_orders.contains(bet_id),
        later.to_set().remove(bet_id).len() < OcmState::TERMINAL_ORDER_RETENTION,
    ensures
        s.mark_terminal_order(bet_id).mark_terminal_orders(later).terminal_orders.contains(bet_id),
{
    lemma_mark_terminal_keeps_consistent(s, bet_id);
    let t = s.mark_terminal_order(bet_id);
    let at = t.terminal_order_queue.len() - 1;
    vstd::seq_lib::seq_to_set_is_finite(later);
    assert(newer_than(t, at) =~= Set::empty());
    let i = lemma_retained_position(t, bet_id, at, later, later.to_set().remove(bet_id));
    assert(t.mark_terminal_orders(later).terminal_order_queue[i] == bet_id);
}

/// The finished bets that are newer than the one at the place in the queue.
pub open spec fn newer_than(s: OcmModel, at: int) -> Set<Seq<char>> {
    s.terminal_order_queue.subrange(at + 1, s.terminal_order_queue.len() as int).to_set()
}

/// Marking a new bet adds it to those that are newer than the one at the
/// place, which moves up by one if the oldest bet expires.
proof fn lemma_newer_after_mark(s: OcmModel, at: int, bet_id: Seq<char>)
    requires
        s.consistent(),
        0 <= at < s.terminal_order_queue.len(),
        !s.terminal_orders.contains(bet_id),
        s.expired_by(bet_id) is Some ==> at > 0,
    ensures
        ({
            let t = s.mark_terminal_order(bet_id);
            let now = if s.expired_by(bet_id) is Some {
                at - 1
            } else {
                at
            };
            &&& 0 <= now < t.terminal_order_queue.len()
            &&& t.terminal_order_queue[now] == s.terminal_order_queue[at]
            &&& newer_than(t, now) == newer_than(s, at).insert(bet_id)
        }),
{
    let t = s.mark_terminal_order(bet_id);
    let newer = s.terminal_order_queue.subrange(at + 1, s.terminal_order_queue.len() as int);
    let now = if s.expired_by(bet_id) is Some {
        at - 1
    } else {
        at
    };
    assert(t.terminal_order_queue.subrange(now + 1, t.terminal_order_queue.len() as int)
        == newer.push(bet_id));
    newer.lemma_push_to_set_commute(bet_id);
}

/// The bets newer than the one at the place are as many as there are places
/// behind it.
proof fn lemma_newer_len(s: OcmModel, at: int)
    requires
        s.consistent(),
        0 <= at < s.terminal_order_queue.len(),
    ensures
        newer_than(s, at).finite(),
        newer_than(s, at).len() == s.terminal_order_queue.len() - 1 - at,
{
    let newer = s.terminal_order_queue.subrange(at + 1, s.terminal_order_queue.len() as int);
    vstd::seq_lib::seq_to_set_is_finite(newer);
    newer.unique_seq_to_set();
}

/// A finished bet stays in the queue while the bets that are marked after it
/// are among fewer than are retained.
proof fn lemma_retained_position(
    s: OcmModel,
    bet_id: Seq<char>,
    at: int,
    later: Seq<Seq<char>>,
    others: Set<Seq<char>>,
) -> (i: int)
    requires
        s.consistent(),
        0 <= at < s.terminal_order_queue.len(),
        s.terminal_order_queue[at] == bet_id,
        newer_than(s, at).subset_of(others),
        later.to_set().remove(bet_id).subset_of(others),
        others.finite(),
        others.len() < OcmState::TERMINAL_ORDER_RETENTION,
        !others.contains(bet_id),
    ensures
        s.mark_terminal_orders(later).consistent(),
        0 <= i < s.mark_terminal_orders(later).terminal_order_queue.len(),
        s.mark_terminal_orders(later).terminal_order_queue[i] == bet_id,
        newer_than(s.mark_terminal_orders(later), i).subset_of(others),
    decreases later.len(),
{
    if later.len() == 0 {
        at
    } else {
        let before = later.drop_last();
        let bet = later.last();
        assert(later == before.push(bet));
        before.lemma_push_to_set_commute(bet);
        let j = lemma_retained_position(s, bet_id, at, before, others);
        let t = s.mark_terminal_orders(before);
        lemma_mark_terminal_keeps_consistent(t, bet);
        if t.terminal_orders.contains(bet) {
            j
        } else {
            assert(t.terminal_orders.contains(bet_id));
            assert(newer_than(t, j).insert(bet).subset_of(others));
            lemma_newer_len(t, j);
            assert(!t.terminal_order_queue.contains(bet));
            assert(!newer_than(t, j).contains(bet)) by {
                if newer_than(t, j).contains(bet) {
                    let newer = t.terminal_order_queue.subrange(
                        j + 1,
                        t.terminal_order_queue.len() as int,
                    );
                    let k = choose|k: int| 0 <= k < newer.len() && newer[k] == bet;
                    assert(t.terminal_order_queue[j + 1 + k] == bet);
                }
            }
            vstd::set_lib::lemma_len_subset(newer_than(t, j).insert(bet), others);
            lemma_newer_after_mark(t, j, bet);
            if t.expired_by(bet) is Some {
                j - 1
            } else {
                j
            }
        }
    }
}

/// The queue after new bets are marked holds the latest of the old ones and
/// the new ones.
pub proof fn law_queue_holds_the_latest(s: OcmModel, later: Seq<Seq<char>>)
    requires
        s.consistent(),
        later.no_duplicates(),
        forall|i: int| 0 <= i < later.len() ==> !s.terminal_orders.contains(#[trigger] later[i]),
    ensures
        s.mark_terminal_orders(later).consistent(),
        s.mark_terminal_orders(later).terminal_order_queue == latest(
            s.terminal_order_queue + later,
        ),
    decreases later.len(),
{
    if later.len() == 0 {
        assert(s.terminal_order_queue + later == s.terminal_order_queue);
    } else {
        let before = later.drop_last();
        let bet_id = later.last();
        assert forall|i: int| 0 <= i < before.len() implies !s.terminal_orders.contains(
            #[trigger] before[i],
        ) by {
            assert(before[i] == later[i]);
        }
        law_queue_holds_the_latest(s, before);
        let t = s.mark_terminal_orders(before);
        lemma_mark_terminal_keeps_consistent(t, bet_id);
        if t.terminal_orders.contains(bet_id) {
            let i = choose|i: int|
                0 <= i < t.terminal_order_queue.len() && t.terminal_order_queue[i] == bet_id;
            let all = s.terminal_order_queue + before;
            let k = i + all.len() - latest(all).len();
            assert(all[k] == bet_id);
            if k < s.terminal_order_queue.len() {
                assert(s.terminal_order_queue.contains(bet_id));
                assert(s.terminal_orders.contains(later[later.len() - 1]));
            } else {
                assert(later[k - s.terminal_order_queue.len()] == later[later.len() - 1]);
            }
        }
        assert((s.terminal_order_queue + before).push(bet_id) == s.terminal_order_queue + later);
        assert(s.mark_terminal_orders(later).terminal_order_queue == latest(
            s.terminal_order_queue + later,
        ));
    }
}

/// The last elements of a sequence, as many as are retained.
pub open spec fn latest(all: Seq<Seq<char>>) -> Seq<Seq<char>> {
    if all.len() <= OcmState::TERMINAL_ORDER_RETENTION {
        all
    } else {
        all.subrange(all.len() - OcmState::TERMINAL_ORDER_RETENTION, all.len() as int)
    }
}

/// As many new finished bets as are retained push an old one out, whatever else
/// is marked beside them: it is no longer known as finished, and one of the
/// bets makes the fill tracker forget it.
pub proof fn law_old_terminal_orders_expire(
    s: OcmModel,
    bet_id: Seq<char>,
    later: Seq<Seq<char>>,
)
    requires
        s.consistent(),
        s.terminal_orders.contains(bet_id),
        !later.contains(bet_id),
        later.to_set().difference(s.terminal_orders).len() >= OcmState::TERMINAL_ORDER_RETENTION,
    ensures
        !s.mark_terminal_orders(later).terminal_orders.contains(bet_id),
        exists|k: int| #[trigger] expires_at(s, bet_id, later, k),
{
    let t = s.mark_terminal_orders(later);
    lemma_expires_or_is_older(s, bet_id, later);
    if t.terminal_orders.contains(bet_id) {
        let fresh = later.to_set().difference(s.terminal_orders);
        let p = choose|p: int| is_older(t, p, bet_id, fresh);
        lemma_newer_len(t, p);
        vstd::set_lib::lemma_len_subset(fresh, newer_than(t, p));
    }
}

/// Whether marking the bet at the place, after those before it, makes the fill
/// tracker forget `bet_id`.
pub open spec fn expires_at(
    s: OcmModel,
    bet_id: Seq<char>,
    later: Seq<Seq<char>>,
    k: int,
) -> bool {
    &&& 0 <= k < later.len()
    &&& s.mark_terminal_orders(later.take(k)).expired_by(later[k]) == Some(bet_id)
}

/// Whether `bet_id` is at the place in the queue, and the others are newer.
spec fn is_older(s: OcmModel, at: int, bet_id: Seq<char>, others: Set<Seq<char>>) -> bool {
    &&& 0 <= at < s.terminal_order_queue.len()
    &&& s.terminal_order_queue[at] == bet_id
    &&& others.subset_of(newer_than(s, at))
}

/// A finished bet that is not marked again expires, or is older than all new
/// ones that were marked after it.
proof fn lemma_expires_or_is_older(s: OcmModel, bet_id: Seq<char>, later: Seq<Seq<char>>)
    requires
        s.consistent(),
        s.terminal_orders.contains(bet_id),
        !later.contains(bet_id),
    ensures
        ({
            let t = s.mark_terminal_orders(later);
            let fresh = later.to_set().difference(s.terminal_orders);
            &&& t.consistent()
            &&& t.terminal_orders.subset_of(s.terminal_orders.union(later.to_set()))
            &&& if t.terminal_orders.contains(bet_id) {
                exists|p: int| #[trigger] is_older(t, p, bet_id, fresh)
            } else {
                exists|k: int| #[trigger] expires_at(s, bet_id, later, k)
            }
        }),
    decreases later.len(),
{
    let u = s.mark_terminal_orders(later);
    let fresh = later.to_set().difference(s.terminal_orders);
    if later.len() == 0 {
        let p = choose|p: int|
            0 <= p < s.terminal_order_queue.len() && s.terminal_order_queue[p] == bet_id;
        assert(is_older(u, p, bet_id, fresh));
    } else {
        let before = later.drop_last();
        let bet = later.last();
        let t = s.mark_terminal_orders(before);
        let known = before.to_set().difference(s.terminal_orders);
        assert(later == before.push(bet));
        before.lemma_push_to_set_commute(bet);
        assert(!before.contains(bet_id)) by {
            if before.contains(bet_id) {
                let i = choose|i: int| 0 <= i < before.len() && before[i] == bet_id;
                assert(later[i] == bet_id);
            }
        }
        assert(bet != bet_id) by {
            assert(later[later.len() - 1] == bet);
        }
        lemma_expires_or_is_older(s, bet_id, before);
        lemma_mark_terminal_keeps_consistent(t, bet);
        if t.terminal_orders.contains(bet_id) {
            let p = choose|p: int| is_older(t, p, bet_id, known);
            if t.terminal_orders.contains(bet) {
                assert(fresh =~= known);
                assert(is_older(u, p, bet_id, fresh));
            } else if t.expired_by(bet) is Some && p == 0 {
                assert(later.take(later.len() - 1) == before);
                assert(expires_at(s, bet_id, later, later.len() - 1));
            } else {
                lemma_newer_after_mark(t, p, bet);
                let now = if t.expired_by(bet) is Some {
                    p - 1
                } else {
                    p
                };
                assert(is_older(u, now, bet_id, fresh));
                assert(u.terminal_order_queue.contains(bet_id));
            }
        } else {
            let k = choose|k: int| expires_at(s, bet_id, before, k);
            assert(later.take(k) == before.take(k));
            assert(expires_at(s, bet_id, later, k));
        }
    }
}

// References, strategies and acceptance.

/// A registered order is found by its current reference and, if both were
/// registered, by its legacy reference wherever that is not the identifier
/// itself. Other references are found as before.
pub proof fn law_registered_orders_are_found(s: OcmModel, id: ClientOrderIdView, rfo: Seq<char>)
    ensures
        s.register_customer_order_ref(id).resolve_client_order_id(Some(rfo)) == (if rfo
            == id.customer_order_ref {
            Some(id)
        } else {
            s.resolve_client_order_id(Some(rfo))
        }),
        s.register_customer_order_ref_with_legacy(id).resolve_client_order_id(Some(rfo)) == (if
        is_registered_under(rfo, id) {
            Some(id)
        } else {
            s.resolve_client_order_id(Some(rfo))
        }),
{
}

/// An update without a reference belongs to no order, in any state.
pub proof fn law_no_reference_no_order(s: OcmModel)
    ensures
        s.resolve_client_order_id(None) is None,
{
}

/// A removed order is found by neither reference, its strategy is unknown, and
/// its acceptance may be emitted anew. Other orders are not affected.
pub proof fn law_removed_orders_are_forgotten(
    s: OcmModel,
    id: ClientOrderIdView,
    rfo: Seq<char>,
    other: ClientOrderIdView,
)
    ensures
        s.remove_customer_order_refs(id).resolve_client_order_id(Some(id.customer_order_ref)) is None,
        s.remove_customer_order_refs(id).resolve_client_order_id(
            Some(id.legacy_customer_order_ref),
        ) is None,
        s.remove_customer_order_refs(id).order_strategy_id(id) is None,
        !s.remove_customer_order_refs(id).accepted_orders.contains(id.value),
        !is_reference_of(rfo, id) ==> s.remove_customer_order_refs(id).resolve_client_order_id(
            Some(rfo),
        ) == s.resolve_client_order_id(Some(rfo)),
        other.value != id.value ==> s.remove_customer_order_refs(id).order_strategy_id(other)
            == s.order_strategy_id(other),
        other.value != id.value ==> s.remove_customer_order_refs(id).accepted_orders.contains(
            other.value,
        ) == s.accepted_orders.contains(other.value),
{
}

/// How the references of an order are derived from its identifier.
pub struct ReferenceRule {
    pub current: spec_fn(Seq<char>) -> Seq<char>,
    pub legacy: spec_fn(Seq<char>) -> Seq<char>,
}

impl ReferenceRule {
    /// Whether the references of the order are those that the rule derives.
    pub open spec fn derives(self, id: ClientOrderIdView) -> bool {
        &&& id.customer_order_ref == (self.current)(id.value)
        &&& id.legacy_customer_order_ref == (self.legacy)(id.value)
    }

    /// Whether the call registers no order but with the references that the
    /// rule derives.
    pub open spec fn governs(self, step: OcmStep) -> bool {
        match step {
            OcmStep::RegisterCustomerOrderRef { id } => self.derives(id),
            OcmStep::RegisterCustomerOrderRefWithLegacy { id } => self.derives(id),
            OcmStep::SyncFromOrders { orders } => self.governs_sync(orders),
            _ => true,
        }
    }

    /// Whether the open ones among the cached orders have the references that
    /// the rule derives.
    pub open spec fn governs_sync(self, orders: Seq<OrderSyncEntryView>) -> bool {
        forall|i: int|
            #![trigger orders[i]]
            0 <= i < orders.len() && !orders[i].is_closed ==> self.derives(
                orders[i].client_order_id,
            )
    }

    /// Whether every order that a reference finds has the references that the
    /// rule derives, that one among them.
    pub open spec fn holds_in(self, s: OcmModel) -> bool {
        forall|rfo: Seq<char>| #[trigger]
            s.customer_order_refs.contains_key(rfo) ==> {
                &&& is_reference_of(rfo, s.customer_order_refs[rfo])
                &&& self.derives(s.customer_order_refs[rfo])
            }
    }
}

/// Where orders are registered with the references of one rule only, the rule
/// holds after every call.
pub proof fn law_reference_rule_is_kept(rule: ReferenceRule, s: OcmModel, steps: Seq<OcmStep>)
    requires
        rule.holds_in(s),
        forall|i: int| 0 <= i < steps.len() ==> rule.governs(#[trigger] steps[i]),
    ensures
        rule.holds_in(s.run(steps)),
    decreases steps.len(),
{
    if steps.len() > 0 {
        let before = steps.drop_last();
        assert forall|i: int| 0 <= i < before.len() implies rule.governs(#[trigger] before[i]) by {
            assert(before[i] == steps[i]);
        }
        law_reference_rule_is_kept(rule, s, before);
        assert(rule.governs(steps[steps.len() - 1]));
        if let OcmStep::SyncFromOrders { orders } = steps.last() {
            lemma_sync_keeps_reference_rule(rule, s.run(before), orders);
        }
    }
}

proof fn lemma_sync_keeps_reference_rule(
    rule: ReferenceRule,
    s: OcmModel,
    orders: Seq<OrderSyncEntryView>,
)
    requires
        rule.holds_in(s),
        rule.governs_sync(orders),
    ensures
        rule.holds_in(s.sync_from_orders(orders)),
    decreases orders.len(),
{
    if orders.len() > 0 {
        let before = orders.drop_last();
        assert forall|i: int|
            #![trigger before[i]]
            0 <= i < before.len() && !before[i].is_closed implies rule.derives(
            before[i].client_order_id,
        ) by {
            assert(before[i] == orders[i]);
        }
        lemma_sync_keeps_reference_rule(rule, s, before);
        assert(orders.last() == orders[orders.len() - 1]);
    }
}

/// A removed order is found by no reference at all, in every state that calls
/// lead to, from the one that knows of no order: the references of an order
/// are functions of its identifier, so that every mapping to it is removed,
/// whether it was registered with its legacy reference or without. The cleanup
/// of an order without an update under way does the same.
pub proof fn law_removed_orders_are_found_by_no_reference(
    rule: ReferenceRule,
    steps: Seq<OcmStep>,
    id: ClientOrderIdView,
    rfo: Option<Seq<char>>,
)
    requires
        forall|i: int| 0 <= i < steps.len() ==> rule.governs(#[trigger] steps[i]),
        rule.derives(id),
    ensures
        OcmModel::initial().run(steps).remove_customer_order_refs(id).resolve_client_order_id(rfo)
            matches Some(found) ==> found.value != id.value,
        !OcmModel::initial().run(steps).has_pending_update(id) ==> (OcmModel::initial().run(
            steps,
        ).cleanup_terminal_order(id).resolve_client_order_id(rfo) matches Some(found)
            ==> found.value != id.value),
{
    law_reference_rule_is_kept(rule, OcmModel::initial(), steps);
}

/// Whether the call registers the order with the identifier.
pub open spec fn registers_order(step: OcmStep, value: Seq<char>) -> bool {
    match step {
        OcmStep::RegisterCustomerOrderRef { id } => id.value == value,
        OcmStep::RegisterCustomerOrderRefWithLegacy { id } => id.value == value,
        OcmStep::SyncFromOrders { orders } => sync_registers_order(orders, value),
        _ => false,
    }
}

/// Whether the order with the identifier is an open one among the cached ones.
pub open spec fn sync_registers_order(orders: Seq<OrderSyncEntryView>, value: Seq<char>) -> bool {
    exists|i: int|
        #![trigger orders[i]]
        0 <= i < orders.len() && !orders[i].is_closed && orders[i].client_order_id.value == value
}

/// An order that no reference finds is found by none until it is registered,
/// whatever else is called.
pub proof fn law_orders_are_found_after_registration_only(
    s: OcmModel,
    value: Seq<char>,
    steps: Seq<OcmStep>,
    rfo: Option<Seq<char>>,
)
    requires
        forall|r: Seq<char>|
            s.customer_order_refs.contains_key(r) ==> (#[trigger] s.customer_order_refs[r]).value
                != value,
        forall|i: int| 0 <= i < steps.len() ==> !registers_order(#[trigger] steps[i], value),
    ensures
        s.run(steps).resolve_client_order_id(rfo) matches Some(found) ==> found.value != value,
    decreases steps.len(),
{
    if steps.len() > 0 {
        let before = steps.drop_last();
        let t = s.run(before);
        assert forall|i: int| 0 <= i < before.len() implies !registers_order(
            #[trigger] before[i],
            value,
        ) by {
            assert(before[i] == steps[i]);
        }
        law_orders_are_found_after_registration_only(s, value, before, rfo);
        assert(!registers_order(steps[steps.len() - 1], value));
        if let OcmStep::SyncFromOrders { orders } = steps.last() {
            lemma_sync_finds_nothing_else(t, value, orders, rfo);
        }
    }
}

proof fn lemma_sync_finds_nothing_else(
    s: OcmModel,
    value: Seq<char>,
    orders: Seq<OrderSyncEntryView>,
    rfo: Option<Seq<char>>,
)
    requires
        s.resolve_client_order_id(rfo) matches Some(found) ==> found.value != value,
        !sync_registers_order(orders, value),
    ensures
        s.sync_from_orders(orders).resolve_client_order_id(rfo) matches Some(found) ==> found.value
            != value,
    decreases orders.len(),
{
    if orders.len() > 0 {
        let before = orders.drop_last();
        if sync_registers_order(before, value) {
            let i = choose|i: int|
                #![trigger before[i]]
                0 <= i < before.len() && !before[i].is_closed && before[i].client_order_id.value
                    == value;
            assert(before[i] == orders[i]);
        }
        lemma_sync_finds_nothing_else(s, value, before, rfo);
        assert(orders.last() == orders[orders.len() - 1]);
    }
}

/// Removing an order undoes its registration, submission and acceptance, if
/// nothing was known of it before.
pub proof fn law_removal_undoes_registration(
    s: OcmModel,
    id: ClientOrderIdView,
    strategy: Seq<char>,
)
    requires
        s.resolve_client_order_id(Some(id.customer_order_ref)) is None,
        s.resolve_client_order_id(Some(id.legacy_customer_order_ref)) is None,
        s.order_strategy_id(id) is None,
        !s.accepted_orders.contains(id.value),
    ensures
        s.register_customer_order_ref(id).remove_customer_order_refs(id) == s,
        s.register_customer_order_ref_with_legacy(id).remove_customer_order_refs(id) == s,
        s.register_order_identity(id, strategy).remove_customer_order_refs(id) == s,
        s.mark_accepted(id).remove_customer_order_refs(id) == s,
{
    assert(s.register_customer_order_ref(id).remove_customer_order_refs(id) =~= s);
    assert(s.register_customer_order_ref_with_legacy(id).remove_customer_order_refs(id) =~= s);
    assert(s.register_order_identity(id, strategy).remove_customer_order_refs(id) =~= s);
    assert(s.mark_accepted(id).remove_customer_order_refs(id) =~= s);
}

/// The strategy of an order is the one that was recorded last.
pub proof fn law_recorded_strategy_is_known(
    s: OcmModel,
    id: ClientOrderIdView,
    strategy: Seq<char>,
    other: ClientOrderIdView,
)
    ensures
        s.register_order_identity(id, strategy).order_strategy_id(id) == Some(strategy),
        other.value != id.value ==> s.register_order_identity(id, strategy).order_strategy_id(other)
            == s.order_strategy_id(other),
{
}

/// Whether the call, in the state, forgets the order with the identifier: it
/// removes it, or cleans it up while no update of it is under way.
pub open spec fn forgets_order(s: OcmModel, step: OcmStep, value: Seq<char>) -> bool {
    match step {
        OcmStep::RemoveCustomerOrderRefs { id } => id.value == value,
        OcmStep::CleanupTerminalOrder { id } => id.value == value && !s.has_pending_update(id),
        _ => false,
    }
}

/// Acceptance is emitted once: after an order was marked as accepted, marking
/// it again is not the first time, whatever is called in between that does not
/// forget the order.
pub proof fn law_acceptance_is_emitted_once(
    s: OcmModel,
    id: ClientOrderIdView,
    steps: Seq<OcmStep>,
)
    requires
        forall|i: int|
            0 <= i < steps.len() ==> !forgets_order(
                s.mark_accepted(id).run(steps.take(i)),
                #[trigger] steps[i],
                id.value,
            ),
    ensures
        s.mark_accepted(id).run(steps).accepted_orders.contains(id.value),
        s.mark_accepted(id).run(steps).mark_accepted(id) == s.mark_accepted(id).run(steps),
    decreases steps.len(),
{
    let t = s.mark_accepted(id);
    if steps.len() > 0 {
        let before = steps.drop_last();
        assert forall|i: int| 0 <= i < before.len() implies !forgets_order(
            t.run(before.take(i)),
            #[trigger] before[i],
            id.value,
        ) by {
            assert(before[i] == steps[i]);
            assert(before.take(i) == steps.take(i));
        }
        law_acceptance_is_emitted_once(s, id, before);
        assert(steps.take(steps.len() - 1) == before);
        assert(!forgets_order(t.run(before), steps[steps.len() - 1], id.value));
        if let OcmStep::SyncFromOrders { orders } = steps.last() {
            law_sync_touches_references_and_finished_bets_only(t.run(before), orders);
        }
    }
    assert(t.run(steps).mark_accepted(id) =~= t.run(steps));
}

/// The strategy of an order stays known, whatever is called that neither
/// forgets the order nor records another strategy for it.
pub proof fn law_recorded_strategy_stays_known(
    s: OcmModel,
    id: ClientOrderIdView,
    strategy: Seq<char>,
    steps: Seq<OcmStep>,
)
    requires
        forall|i: int|
            0 <= i < steps.len() ==> {
                &&& !forgets_order(
                    s.register_order_identity(id, strategy).run(steps.take(i)),
                    #[trigger] steps[i],
                    id.value,
                )
                &&& steps[i] matches OcmStep::RegisterOrderIdentity { id: other, strategy: new }
                    ==> other.value != id.value || new == strategy
            },
    ensures
        s.register_order_identity(id, strategy).run(steps).order_strategy_id(id) == Some(strategy),
    decreases steps.len(),
{
    let t = s.register_order_identity(id, strategy);
    if steps.len() > 0 {
        let before = steps.drop_last();
        assert forall|i: int| 0 <= i < before.len() implies {
            &&& !forgets_order(t.run(before.take(i)), #[trigger] before[i], id.value)
            &&& before[i] matches OcmStep::RegisterOrderIdentity { id: other, strategy: new }
                ==> other.value != id.value || new == strategy
        } by {
            assert(before[i] == steps[i]);
            assert(before.take(i) == steps.take(i));
        }
        law_recorded_strategy_stays_known(s, id, strategy, before);
        assert(steps.take(steps.len() - 1) == before);
        assert(!forgets_order(t.run(before), steps[steps.len() - 1], id.value));
        if let OcmStep::SyncFromOrders { orders } = steps.last() {
            law_sync_touches_references_and_finished_bets_only(t.run(before), orders);
        }
    }
}

/// Whether the call, in the state, concerns the reference: it registers an
/// order under it, or forgets one whose reference it is.
pub open spec fn touches_reference(s: OcmModel, step: OcmStep, rfo: Seq<char>) -> bool {
    match step {
        OcmStep::RegisterCustomerOrderRef { id } => rfo == id.customer_order_ref,
        OcmStep::RegisterCustomerOrderRefWithLegacy { id } => is_registered_under(rfo, id),
        OcmStep::RemoveCustomerOrderRefs { id } => is_reference_of(rfo, id),
        OcmStep::CleanupTerminalOrder { id } => is_reference_of(rfo, id) && !s.has_pending_update(
            id,
        ),
        OcmStep::SyncFromOrders { orders } => sync_touches_reference(orders, rfo),
        _ => false,
    }
}

/// Whether an open order among the cached ones is registered under the
/// reference.
pub open spec fn sync_touches_reference(orders: Seq<OrderSyncEntryView>, rfo: Seq<char>) -> bool {
    exists|i: int|
        #![trigger orders[i]]
        0 <= i < orders.len() && !orders[i].is_closed && is_registered_under(
            rfo,
            orders[i].client_order_id,
        )
}

/// A reference finds the same order, whatever is called that does not concern
/// the reference.
pub proof fn law_references_stay_found(s: OcmModel, rfo: Seq<char>, steps: Seq<OcmStep>)
    requires
        forall|i: int|
            0 <= i < steps.len() ==> !touches_reference(
                s.run(steps.take(i)),
                #[trigger] steps[i],
                rfo,
            ),
    ensures
        s.run(steps).resolve_client_order_id(Some(rfo)) == s.resolve_client_order_id(Some(rfo)),
    decreases steps.len(),
{
    if steps.len() > 0 {
        let before = steps.drop_last();
        assert forall|i: int| 0 <= i < before.len() implies !touches_reference(
            s.run(before.take(i)),
            #[trigger] before[i],
            rfo,
        ) by {
            assert(before[i] == steps[i]);
            assert(before.take(i) == steps.take(i));
        }
        law_references_stay_found(s, rfo, before);
        assert(steps.take(steps.len() - 1) == before);
        assert(!touches_reference(s.run(before), steps[steps.len() - 1], rfo));
        if let OcmStep::SyncFromOrders { orders } = steps.last() {
            lemma_sync_leaves_reference(s.run(before), rfo, orders);
        }
    }
}

proof fn lemma_sync_leaves_reference(
    s: OcmModel,
    rfo: Seq<char>,
    orders: Seq<OrderSyncEntryView>,
)
    requires
        !sync_touches_reference(orders, rfo),
    ensures
        s.sync_from_orders(orders).resolve_client_order_id(Some(rfo)) == s.resolve_client_order_id(
            Some(rfo),
        ),
    decreases orders.len(),
{
    if orders.len() > 0 {
        let before = orders.drop_last();
        if sync_touches_reference(before, rfo) {
            let i = choose|i: int|
                #![trigger before[i]]
                0 <= i < before.len() && !before[i].is_closed && is_registered_under(
                    rfo,
                    before[i].client_order_id,
                );
            assert(before[i] == orders[i]);
        }
        lemma_sync_leaves_reference(s, rfo, before);
        assert(orders.last() == orders[orders.len() - 1]);
    }
}

// Replaces.

/// While a replace of a bet is under way, cancels of the bet are suppressed,
/// and the replace is known with what it was registered with.
pub proof fn law_registered_replace_is_pending(
    s: OcmModel,
    id: ClientOrderIdView,
    bet_id: Seq<char>,
    instrument_id: InstrumentIdView,
    quantity: Quantity,
    filled_qty: Quantity,
)
    ensures
        ({
            let t = s.register_pending_replace(id, bet_id, instrument_id, quantity, filled_qty);
            &&& t.should_suppress_cancel(id, bet_id)
            &&& t.has_pending_update(id)
            &&& t.pending_replace_for_bet(id, bet_id) == Some(
                PendingReplaceView { instrument_id, quantity, filled_qty, reconcile_after: None },
            )
            &&& !t.is_pending_replace(id, None)
        }),
{
    let t = s.register_pending_replace(id, bet_id, instrument_id, quantity, filled_qty);
    assert(t.pending_update_keys.contains((id.value, bet_id)));
    assert(t.pending_replaces.contains_key((id.value, bet_id)));
}

/// A replace that succeeded is no longer under way, and its bet is replaced:
/// cancels of it stay suppressed. Completing it again yields nothing, and
/// changes nothing.
pub proof fn law_completed_replace_is_settled(
    s: OcmModel,
    id: ClientOrderIdView,
    bet_id: Seq<char>,
)
    requires
        s.pending_replace_for_bet(id, bet_id) is Some,
    ensures
        s.complete_pending_replace(id, bet_id).replaced_venue_order_ids.contains(bet_id),
        s.complete_pending_replace(id, bet_id).should_suppress_cancel(id, bet_id),
        s.complete_pending_replace(id, bet_id).pending_replace_for_bet(id, bet_id) is None,
        s.complete_pending_replace(id, bet_id).complete_pending_replace(id, bet_id)
            == s.complete_pending_replace(id, bet_id),
{
    assert(s.complete_pending_replace(id, bet_id).complete_pending_replace(id, bet_id)
        =~= s.complete_pending_replace(id, bet_id));
}

/// Giving a replace up undoes its registration, if none was under way for the
/// bet before: cancels of the bet are no longer suppressed on its account.
pub proof fn law_clearing_undoes_registered_replace(
    s: OcmModel,
    id: ClientOrderIdView,
    bet_id: Seq<char>,
    instrument_id: InstrumentIdView,
    quantity: Quantity,
    filled_qty: Quantity,
)
    requires
        !s.pending_update_keys.contains((id.value, bet_id)),
        s.pending_replace_for_bet(id, bet_id) is None,
    ensures
        s.register_pending_replace(
            id,
            bet_id,
            instrument_id,
            quantity,
            filled_qty,
        ).clear_pending_replace(id, bet_id) == s,
        s.should_suppress_cancel(id, bet_id) == s.replaced_venue_order_ids.contains(bet_id),
{
    assert(s.register_pending_replace(
        id,
        bet_id,
        instrument_id,
        quantity,
        filled_qty,
    ).clear_pending_replace(id, bet_id) =~= s);
}

/// A replacement bet settles something exactly if a replace that it can be the
/// outcome of is under way, and it was not replaced itself.
pub proof fn law_replacement_settles_what_is_pending(
    s: OcmModel,
    id: ClientOrderIdView,
    replacement_bet_id: Seq<char>,
    instrument_id: InstrumentIdView,
    r: Option<PendingReplaceView>,
)
    requires
        s.resolves_to(id, replacement_bet_id, instrument_id, r),
    ensures
        r is Some <==> {
            &&& !s.replaced_venue_order_ids.contains(replacement_bet_id)
            &&& exists|key: BetKeyView| #[trigger]
                s.resolvable(id, replacement_bet_id, instrument_id).contains(key)
        },
        r matches Some(pending) ==> pending.instrument_id == instrument_id,
{
}

/// Every replace that a replacement bet settles is no longer under way, and
/// its bet is replaced: cancels of it stay suppressed.
pub proof fn law_settled_bets_are_replaced(
    s: OcmModel,
    id: ClientOrderIdView,
    replacement_bet_id: Seq<char>,
    instrument_id: InstrumentIdView,
    bet_id: Seq<char>,
)
    requires
        !s.replaced_venue_order_ids.contains(replacement_bet_id),
        s.resolvable(id, replacement_bet_id, instrument_id).contains((id.value, bet_id)),
    ensures
        ({
            let t = s.resolve_pending_replace(id, replacement_bet_id, instrument_id);
            &&& t.pending_replace_for_bet(id, bet_id) is None
            &&& !t.pending_update_keys.contains((id.value, bet_id))
            &&& t.replaced_venue_order_ids.contains(bet_id)
            &&& t.should_suppress_cancel(id, bet_id)
        }),
{
}

/// A replacement bet leaves alone the replaces of other orders, of other
/// instruments, and of the replacement bet itself, and replaces no bet but
/// those that it settles.
pub proof fn law_replacement_leaves_the_rest(
    s: OcmModel,
    id: ClientOrderIdView,
    replacement_bet_id: Seq<char>,
    instrument_id: InstrumentIdView,
    key: BetKeyView,
)
    requires
        !s.resolvable(id, replacement_bet_id, instrument_id).contains(key),
    ensures
        ({
            let t = s.resolve_pending_replace(id, replacement_bet_id, instrument_id);
            &&& t.pending_update_keys.contains(key) == s.pending_update_keys.contains(key)
            &&& t.pending_replaces.contains_key(key) == s.pending_replaces.contains_key(key)
            &&& s.pending_replaces.contains_key(key) ==> t.pending_replaces[key]
                == s.pending_replaces[key]
            &&& key.0 == id.value ==> t.replaced_venue_order_ids.contains(key.1)
                == s.replaced_venue_order_ids.contains(key.1)
        }),
{
}

/// After a replacement bet, the same one settles nothing more; nor does
/// another one, on that instrument, unless a replace of the first is under
/// way.
pub proof fn law_replacement_settles_once(
    s: OcmModel,
    id: ClientOrderIdView,
    replacement_bet_id: Seq<char>,
    instrument_id: InstrumentIdView,
    newer_bet_id: Seq<char>,
    r: Option<PendingReplaceView>,
)
    requires
        !s.replaced_venue_order_ids.contains(replacement_bet_id),
        newer_bet_id == replacement_bet_id || s.pending_replace_for_bet(
            id,
            replacement_bet_id,
        ) is None,
        s.resolve_pending_replace(id, replacement_bet_id, instrument_id).resolves_to(
            id,
            newer_bet_id,
            instrument_id,
            r,
        ),
    ensures
        r is None,
{
    let t = s.resolve_pending_replace(id, replacement_bet_id, instrument_id);
    if r is Some {
        let key = choose|key: BetKeyView| #[trigger]
            t.resolvable(id, newer_bet_id, instrument_id).contains(key);
        assert(!s.resolvable(id, replacement_bet_id, instrument_id).contains(key));
        assert(key == (id.value, key.1));
    }
}

/// A replaced bet stays replaced: whatever is called, cancels of it are
/// suppressed.
pub proof fn law_replaced_bets_stay_suppressed(
    s: OcmModel,
    bet_id: Seq<char>,
    steps: Seq<OcmStep>,
    id: ClientOrderIdView,
)
    requires
        s.replaced_venue_order_ids.contains(bet_id),
    ensures
        s.run(steps).replaced_venue_order_ids.contains(bet_id),
        s.run(steps).should_suppress_cancel(id, bet_id),
    decreases steps.len(),
{
    if steps.len() > 0 {
        let t = s.run(steps.drop_last());
        law_replaced_bets_stay_suppressed(s, bet_id, steps.drop_last(), id);
        if let OcmStep::SyncFromOrders { orders } = steps.last() {
            law_sync_touches_references_and_finished_bets_only(t, orders);
        }
    }
}

/// A replaced bet never settles a later replace: whatever is called in
/// between, it yields nothing and changes nothing.
pub proof fn law_replaced_bets_settle_nothing(
    s: OcmModel,
    bet_id: Seq<char>,
    steps: Seq<OcmStep>,
    id: ClientOrderIdView,
    instrument_id: InstrumentIdView,
    r: Option<PendingReplaceView>,
)
    requires
        s.replaced_venue_order_ids.contains(bet_id),
        s.run(steps).resolves_to(id, bet_id, instrument_id, r),
    ensures
        r is None,
        s.run(steps).resolve_pending_replace(id, bet_id, instrument_id) == s.run(steps),
{
    law_replaced_bets_stay_suppressed(s, bet_id, steps, id);
}

/// A replace may be reconciled once it was marked as ambiguous, from the time
/// on that was given, and not before; registering it anew takes the mark back.
pub proof fn law_ambiguous_replaces_are_reconcilable_in_time(
    s: OcmModel,
    id: ClientOrderIdView,
    bet_id: Seq<char>,
    instrument_id: InstrumentIdView,
    quantity: Quantity,
    filled_qty: Quantity,
    reconcile_after: UnixNanos,
    ts_now: UnixNanos,
)
    ensures
        !s.register_pending_replace(
            id,
            bet_id,
            instrument_id,
            quantity,
            filled_qty,
        ).pending_replace_reconcilable(id, bet_id, ts_now),
        s.mark_pending_replace_ambiguous(
            id,
            bet_id,
            reconcile_after,
        ).pending_replace_reconcilable(id, bet_id, ts_now) <==> {
            &&& s.pending_replace_for_bet(id, bet_id) is Some
            &&& reconcile_after.nanos <= ts_now.nanos
        },
{
}

/// A replace that may be reconciled may be reconciled at any later time.
pub proof fn law_reconcilable_replaces_stay_so(
    s: OcmModel,
    id: ClientOrderIdView,
    bet_id: Seq<char>,
    earlier: UnixNanos,
    later: UnixNanos,
)
    requires
        earlier.nanos <= later.nanos,
        s.pending_replace_reconcilable(id, bet_id, earlier),
    ensures
        s.pending_replace_reconcilable(id, bet_id, later),
{
}

/// Marking a replace as ambiguous changes neither its terms nor any other
/// replace, and leaves it under way.
pub proof fn law_ambiguity_keeps_the_terms(
    s: OcmModel,
    id: ClientOrderIdView,
    bet_id: Seq<char>,
    reconcile_after: UnixNanos,
    key: BetKeyView,
)
    ensures
        ({
            let t = s.mark_pending_replace_ambiguous(id, bet_id, reconcile_after);
            &&& t.pending_update_keys == s.pending_update_keys
            &&& t.pending_replaces.contains_key(key) == s.pending_replaces.contains_key(key)
            &&& s.pending_replaces.contains_key(key) ==> {
                &&& t.pending_replaces[key].instrument_id == s.pending_replaces[key].instrument_id
                &&& t.pending_replaces[key].quantity == s.pending_replaces[key].quantity
                &&& t.pending_replaces[key].filled_qty == s.pending_replaces[key].filled_qty
                &&& key != (id.value, bet_id) ==> t.pending_replaces[key]
                    == s.pending_replaces[key]
            }
        }),
{
}

// Quantity updates.

/// Only a definitive reduction confirms a registered update by the stream: a
/// quantity below the original and not below the requested one.
pub proof fn law_only_reductions_confirm(
    s: OcmModel,
    id: ClientOrderIdView,
    bet_id: Seq<char>,
    original: Quantity,
    requested: Quantity,
    active_quantity: Quantity,
)
    ensures
        ({
            let t = s.register_pending_quantity_update(id, bet_id, original, requested);
            t.is_definitive_reduction(id, bet_id, active_quantity) <==> requested.raw
                <= active_quantity.raw < original.raw
        }),
{
}

/// A confirmed update is known with its quantity, and is not under way any
/// more: it is not confirmed again, by the stream or otherwise.
pub proof fn law_confirmed_updates_are_settled(
    s: OcmModel,
    id: ClientOrderIdView,
    bet_id: Seq<char>,
    quantity: Quantity,
    again: Quantity,
)
    requires
        s.pending_quantity_updates.contains_key((id.value, bet_id)),
    ensures
        ({
            let t = s.complete_pending_quantity_update(id, bet_id, quantity);
            &&& t.confirmed_quantity_update(id, bet_id) == Some(quantity)
            &&& s.is_definitive_reduction(id, bet_id, quantity)
                ==> s.resolve_pending_quantity_update(id, bet_id, quantity) == t
            &&& !t.is_definitive_reduction(id, bet_id, again)
            &&& t.resolve_pending_quantity_update(id, bet_id, again) == t
            &&& t.complete_pending_quantity_update(id, bet_id, again) == t
        }),
{
}

/// A cleared update is neither under way nor confirmed, and clearing it again
/// changes nothing. Clearing undoes the registration of an update, if nothing
/// was known of one before.
pub proof fn law_cleared_updates_are_forgotten(
    s: OcmModel,
    id: ClientOrderIdView,
    bet_id: Seq<char>,
    original: Quantity,
    requested: Quantity,
    active_quantity: Quantity,
)
    ensures
        ({
            let t = s.clear_pending_quantity_update(id, bet_id);
            &&& t.confirmed_quantity_update(id, bet_id) is None
            &&& !t.is_definitive_reduction(id, bet_id, active_quantity)
            &&& t.clear_pending_quantity_update(id, bet_id) == t
            &&& t.register_pending_quantity_update(
                id,
                bet_id,
                original,
                requested,
            ).clear_pending_quantity_update(id, bet_id) == t
        }),
{
    let t = s.clear_pending_quantity_update(id, bet_id);
    assert(t.clear_pending_quantity_update(id, bet_id) =~= t);
    assert(t.register_pending_quantity_update(
        id,
        bet_id,
        original,
        requested,
    ).clear_pending_quantity_update(id, bet_id) =~= t);
}

// Cleaning up.

/// A finished order is kept while a replace of one of its bets is under way.
pub proof fn law_pending_replaces_keep_the_order(
    s: OcmModel,
    id: ClientOrderIdView,
    bet_id: Seq<char>,
)
    requires
        s.consistent(),
        s.pending_replace_for_bet(id, bet_id) is Some,
    ensures
        s.cleanup_terminal_order(id) == s,
{
    assert(s.pending_update_keys.contains((id.value, bet_id)));
}

/// A finished order without a replace under way is forgotten.
pub proof fn law_finished_orders_are_forgotten(s: OcmModel, id: ClientOrderIdView)
    requires
        s.consistent(),
        s.is_pending_replace(id, None),
    ensures
        s.cleanup_terminal_order(id) == s.remove_customer_order_refs(id),
{
}

// Reconnecting.

/// Taking over cached orders changes what references find and which bets are
/// finished, and nothing else.
pub proof fn law_sync_touches_references_and_finished_bets_only(
    s: OcmModel,
    orders: Seq<OrderSyncEntryView>,
)
    ensures
        ({
            let t = s.sync_from_orders(orders);
            t == OcmModel {
                customer_order_refs: t.customer_order_refs,
                terminal_orders: t.terminal_orders,
                terminal_order_queue: t.terminal_order_queue,
                ..s
            }
        }),
    decreases orders.len(),
{
    if orders.len() > 0 {
        law_sync_touches_references_and_finished_bets_only(s, orders.drop_last());
    }
}

/// Cached orders may be taken over in parts.
pub proof fn law_sync_in_parts(
    s: OcmModel,
    first: Seq<OrderSyncEntryView>,
    second: Seq<OrderSyncEntryView>,
)
    ensures
        s.sync_from_orders(first + second) == s.sync_from_orders(first).sync_from_orders(second),
        s.sync_commands(first + second) == s.sync_commands(first) + s.sync_from_orders(
            first,
        ).sync_commands(second),
    decreases second.len(),
{
    if second.len() == 0 {
        assert(first + second == first);
        assert(s.sync_commands(first + second) =~= s.sync_commands(first) + s.sync_from_orders(
            first,
        ).sync_commands(second));
    } else {
        law_sync_in_parts(s, first, second.drop_last());
        assert((first + second).drop_last() == first + second.drop_last());
        assert(s.sync_commands(first + second) =~= s.sync_commands(first) + s.sync_from_orders(
            first,
        ).sync_commands(second));
    }
}

/// The bets of the closed orders, in order.
pub open spec fn closed_bets(orders: Seq<OrderSyncEntryView>) -> Seq<Seq<char>>
    decreases orders.len(),
{
    if orders.len() == 0 {
        seq![]
    } else if orders.last().is_closed {
        closed_bets(orders.drop_last()).push(orders.last().bet_id)
    } else {
        closed_bets(orders.drop_last())
    }
}

/// Taking over cached orders finishes the bets of the closed ones, as marking
/// them one after the other does.
pub proof fn law_sync_finishes_closed_orders(s: OcmModel, orders: Seq<OrderSyncEntryView>)
    ensures
        s.sync_from_orders(orders).terminal_orders == s.mark_terminal_orders(
            closed_bets(orders),
        ).terminal_orders,
        s.sync_from_orders(orders).terminal_order_queue == s.mark_terminal_orders(
            closed_bets(orders),
        ).terminal_order_queue,
    decreases orders.len(),
{
    if orders.len() > 0 {
        law_sync_finishes_closed_orders(s, orders.drop_last());
        if orders.last().is_closed {
            assert(closed_bets(orders).drop_last() == closed_bets(orders.drop_last()));
        }
    }
}

/// After cached orders are taken over, the current reference of each open one,
/// and its legacy reference where that is not the identifier itself, finds it
/// or one that was taken over after it.
pub proof fn law_sync_finds_open_orders(
    s: OcmModel,
    orders: Seq<OrderSyncEntryView>,
    i: int,
    rfo: Seq<char>,
) -> (j: int)
    requires
        0 <= i < orders.len(),
        !orders[i].is_closed,
        is_registered_under(rfo, orders[i].client_order_id),
    ensures
        i <= j < orders.len(),
        !orders[j].is_closed,
        is_registered_under(rfo, orders[j].client_order_id),
        s.sync_from_orders(orders).resolve_client_order_id(Some(rfo)) == Some(
            orders[j].client_order_id,
        ),
    decreases orders.len(),
{
    let last = orders.len() - 1;
    if !orders[last].is_closed && is_registered_under(rfo, orders[last].client_order_id) {
        last
    } else {
        law_sync_finds_open_orders(s, orders.drop_last(), i, rfo)
    }
}

/// The fill tracker is anchored to the fill of each cached order that has
/// one, and told of each of its published trades.
pub proof fn law_sync_anchors_every_order(
    s: OcmModel,
    orders: Seq<OrderSyncEntryView>,
    i: int,
    c: FillTrackerCommandView,
)
    requires
        0 <= i < orders.len(),
        anchor_commands(orders[i]).contains(c),
    ensures
        s.sync_commands(orders).contains(c),
    decreases orders.len(),
{
    let commands = s.sync_commands(orders.drop_last());
    let t = s.sync_from_orders(orders.drop_last());
    let last = t.sync_entry_commands(orders.last());
    if i == orders.len() - 1 {
        let k = choose|k: int|
            0 <= k < anchor_commands(orders[i]).len() && anchor_commands(orders[i])[k] == c;
        let at = commands.len() + last.len() - anchor_commands(orders[i]).len() + k;
        assert(s.sync_commands(orders)[at] == c);
    } else {
        law_sync_anchors_every_order(s, orders.drop_last(), i, c);
        let k = choose|k: int| 0 <= k < commands.len() && commands[k] == c;
        assert(s.sync_commands(orders)[k] == c);
    }
}

/// The fill tracker is told nothing but the anchors of the cached orders and
/// to forget bets.
pub proof fn law_sync_tells_anchors_only(
    s: OcmModel,
    orders: Seq<OrderSyncEntryView>,
    c: FillTrackerCommandView,
) -> (i: int)
    requires
        s.sync_commands(orders).contains(c),
        !(c is Prune),
    ensures
        0 <= i < orders.len(),
        anchor_commands(orders[i]).contains(c),
    decreases orders.len(),
{
    let k = choose|k: int|
        0 <= k < s.sync_commands(orders).len() && s.sync_commands(orders)[k] == c;
    let commands = s.sync_commands(orders.drop_last());
    let t = s.sync_from_orders(orders.drop_last());
    let last = t.sync_entry_commands(orders.last());
    if k < commands.len() {
        assert(commands[k] == c);
        law_sync_tells_anchors_only(s, orders.drop_last(), c)
    } else {
        let at = k - commands.len() - (last.len() - anchor_commands(orders.last()).len());
        assert(last[k - commands.len()] == c);
        assert(anchor_commands(orders.last())[at] == c);
        orders.len() - 1
    }
}

/// While the bets of the closed orders fit beside the finished ones, the fill
/// tracker forgets no bet, and the finished bets are the old ones and those of
/// the closed orders.
pub proof fn law_sync_that_fits_forgets_nothing(
    s: OcmModel,
    orders: Seq<OrderSyncEntryView>,
    bet_id: Seq<char>,
)
    requires
        s.terminal_order_queue.len() + closed_bets(orders).len()
            <= OcmState::TERMINAL_ORDER_RETENTION,
    ensures
        s.sync_from_orders(orders).terminal_order_queue.len() <= s.terminal_order_queue.len()
            + closed_bets(orders).len(),
        s.sync_from_orders(orders).terminal_orders == s.terminal_orders.union(
            closed_bets(orders).to_set(),
        ),
        !s.sync_commands(orders).contains(FillTrackerCommandView::Prune { bet_id }),
    decreases orders.len(),
{
    if orders.len() == 0 {
        assert(s.terminal_orders.union(closed_bets(orders).to_set()) =~= s.terminal_orders);
    } else {
        let before = orders.drop_last();
        let t = s.sync_from_orders(before);
        law_sync_that_fits_forgets_nothing(s, before, bet_id);
        if orders.last().is_closed {
            closed_bets(before).lemma_push_to_set_commute(orders.last().bet_id);
        }
        assert(s.sync_from_orders(orders).terminal_orders =~= s.terminal_orders.union(
            closed_bets(orders).to_set(),
        ));
        if s.sync_commands(orders).contains(FillTrackerCommandView::Prune { bet_id }) {
            lemma_last_order_prunes(s, orders, bet_id);
        }
    }
}

/// The commands of cached orders prune a bet if those before the last do, or
/// if the last one expires it.
proof fn lemma_last_order_prunes(s: OcmModel, orders: Seq<OrderSyncEntryView>, bet_id: Seq<char>)
    requires
        orders.len() > 0,
        s.sync_commands(orders).contains(FillTrackerCommandView::Prune { bet_id }),
        !s.sync_commands(orders.drop_last()).contains(FillTrackerCommandView::Prune { bet_id }),
    ensures
        orders.last().is_closed,
        s.sync_from_orders(orders.drop_last()).expired_by(orders.last().bet_id) == Some(bet_id),
{
    let commands = s.sync_commands(orders.drop_last());
    let c = FillTrackerCommandView::Prune { bet_id };
    let k = choose|k: int|
        0 <= k < s.sync_commands(orders).len() && s.sync_commands(orders)[k] == c;
    if k < commands.len() {
        assert(commands[k] == c);
    }
}

/// Bets that are known as finished take no room: while the finished bets and
/// those of the closed orders are together no more than are retained, the fill
/// tracker forgets none, and all of them are finished.
pub proof fn law_sync_of_known_bets_forgets_nothing(
    s: OcmModel,
    orders: Seq<OrderSyncEntryView>,
    bet_id: Seq<char>,
)
    requires
        s.consistent(),
        s.terminal_orders.union(closed_bets(orders).to_set()).len()
            <= OcmState::TERMINAL_ORDER_RETENTION,
    ensures
        s.sync_from_orders(orders).terminal_orders == s.terminal_orders.union(
            closed_bets(orders).to_set(),
        ),
        !s.sync_commands(orders).contains(FillTrackerCommandView::Prune { bet_id }),
    decreases orders.len(),
{
    let all = s.terminal_orders.union(closed_bets(orders).to_set());
    law_terminal_orders_are_bounded(s);
    vstd::seq_lib::seq_to_set_is_finite(closed_bets(orders));
    if orders.len() == 0 {
        assert(all =~= s.terminal_orders);
    } else {
        let before = orders.drop_last();
        let t = s.sync_from_orders(before);
        let known = s.terminal_orders.union(closed_bets(before).to_set());
        if orders.last().is_closed {
            closed_bets(before).lemma_push_to_set_commute(orders.last().bet_id);
        }
        vstd::set_lib::lemma_len_subset(known, all);
        law_sync_of_known_bets_forgets_nothing(s, before, bet_id);
        lemma_sync_keeps_consistent(s, before);
        t.terminal_order_queue.unique_seq_to_set();
        if orders.last().is_closed {
            let bet = orders.last().bet_id;
            if !t.terminal_orders.contains(bet) {
                assert(all =~= t.terminal_orders.insert(bet));
            }
            assert(t.expired_by(bet) is None);
        }
        assert(s.sync_from_orders(orders).terminal_orders =~= all);
        if s.sync_commands(orders).contains(FillTrackerCommandView::Prune { bet_id }) {
            lemma_last_order_prunes(s, orders, bet_id);
        }
    }
}

} // verus!
