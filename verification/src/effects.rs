//! What each operation does to what the state holds.
//!
//! The laws speak of single keys, bets and references: what is there after a
//! call, or is returned by it, given what was there before and the arguments of
//! the call.
use vstd::prelude::*;

use crate::collections::BetKeyView;
use crate::histories::step_commands;
use crate::laws::{law_reachable_states_are_consistent, law_sync_in_parts, OcmStep};
use crate::model::{bets_of, prune_command, OcmModel};
use crate::types::{
    ClientOrderIdView, FillTrackerCommandView, InstrumentIdView, OrderSyncEntryView,
    PendingReplaceView, Quantity, UnixNanos,
};

verus! {

/// The state that one starts from holds nothing.
pub proof fn law_first_state_holds_nothing(text: Seq<char>, key: BetKeyView)
    ensures
        ({
            let s = OcmModel::initial();
            &&& !s.customer_order_refs.contains_key(text)
            &&& !s.order_strategies.contains_key(text)
            &&& !s.accepted_orders.contains(text)
            &&& !s.stream_reported_client_orders.contains(text)
            &&& !s.terminal_orders.contains(text)
            &&& s.terminal_order_queue.len() == 0
            &&& !s.replaced_venue_order_ids.contains(text)
            &&& !s.pending_update_keys.contains(key)
            &&& !s.pending_replaces.contains_key(key)
            &&& !s.pending_quantity_updates.contains_key(key)
            &&& !s.confirmed_quantity_updates.contains_key(key)
        }),
{
}

// References, strategies and acceptance.

/// Registering an order maps its current reference to it, all three parts
/// of it, and leaves every other reference and everything else as it was.
pub proof fn law_registering_maps_the_current_reference(
    s: OcmModel,
    id: ClientOrderIdView,
    rfo: Seq<char>,
)
    ensures
        ({
            let t = s.register_customer_order_ref(id);
            &&& rfo == id.customer_order_ref ==> {
                &&& t.customer_order_refs.contains_key(rfo)
                &&& t.customer_order_refs[rfo] == id
            }
            &&& rfo != id.customer_order_ref ==> {
                &&& t.customer_order_refs.contains_key(rfo) == s.customer_order_refs.contains_key(
                    rfo,
                )
                &&& t.customer_order_refs[rfo] == s.customer_order_refs[rfo]
            }
            &&& s == OcmModel { customer_order_refs: s.customer_order_refs, ..t }
        }),
{
}

/// Registering an order with its legacy reference maps the current one to it
/// and, unless it is the identifier itself, the legacy one, and leaves every
/// other reference and everything else as it was.
pub proof fn law_registering_with_legacy_maps_both_references(
    s: OcmModel,
    id: ClientOrderIdView,
    rfo: Seq<char>,
)
    ensures
        ({
            let t = s.register_customer_order_ref_with_legacy(id);
            let legacy = rfo == id.legacy_customer_order_ref && rfo != id.value;
            &&& rfo == id.customer_order_ref || legacy ==> {
                &&& t.customer_order_refs.contains_key(rfo)
                &&& t.customer_order_refs[rfo] == id
            }
            &&& rfo != id.customer_order_ref && !legacy ==> {
                &&& t.customer_order_refs.contains_key(rfo) == s.customer_order_refs.contains_key(
                    rfo,
                )
                &&& t.customer_order_refs[rfo] == s.customer_order_refs[rfo]
            }
            &&& s == OcmModel { customer_order_refs: s.customer_order_refs, ..t }
        }),
{
}

/// A reference finds the order that it is mapped to, and nothing if it is
/// mapped to none.
pub proof fn law_references_find_what_they_are_mapped_to(s: OcmModel, rfo: Seq<char>)
    ensures
        s.customer_order_refs.contains_key(rfo) <==> s.resolve_client_order_id(Some(rfo)) is Some,
        s.resolve_client_order_id(Some(rfo)) matches Some(id) ==> id == s.customer_order_refs[rfo],
        s.resolve_client_order_id(None) is None,
{
}

/// Recording a strategy maps the order's identifier to it, and leaves every
/// other order and everything else as it was.
pub proof fn law_recording_maps_the_order_to_its_strategy(
    s: OcmModel,
    id: ClientOrderIdView,
    strategy: Seq<char>,
    value: Seq<char>,
)
    ensures
        ({
            let t = s.register_order_identity(id, strategy);
            &&& value == id.value ==> {
                &&& t.order_strategies.contains_key(value)
                &&& t.order_strategies[value] == strategy
            }
            &&& value != id.value ==> {
                &&& t.order_strategies.contains_key(value) == s.order_strategies.contains_key(value)
                &&& t.order_strategies[value] == s.order_strategies[value]
            }
            &&& s == OcmModel { order_strategies: s.order_strategies, ..t }
        }),
{
}

/// The strategy of an order is the one that its identifier is mapped to.
pub proof fn law_strategies_are_known_by_identifier(s: OcmModel, id: ClientOrderIdView)
    ensures
        s.order_strategies.contains_key(id.value) <==> s.order_strategy_id(id) is Some,
        s.order_strategy_id(id) matches Some(strategy) ==> strategy
            == s.order_strategies[id.value],
{
}

/// Marking an order as accepted adds its identifier to the accepted ones, and
/// leaves everything else as it was.
pub proof fn law_marking_accepts_the_order_only(
    s: OcmModel,
    id: ClientOrderIdView,
    value: Seq<char>,
)
    ensures
        s.mark_accepted(id).accepted_orders.contains(value) <==> value == id.value
            || s.accepted_orders.contains(value),
        s == (OcmModel { accepted_orders: s.accepted_orders, ..s.mark_accepted(id) }),
{
}

/// Removing an order takes both of its references out, its strategy and its
/// acceptance, and leaves everything else as it was.
pub proof fn law_removal_takes_out_the_order_only(
    s: OcmModel,
    id: ClientOrderIdView,
    rfo: Seq<char>,
    value: Seq<char>,
)
    ensures
        ({
            let t = s.remove_customer_order_refs(id);
            &&& t.customer_order_refs.contains_key(rfo) <==> {
                &&& s.customer_order_refs.contains_key(rfo)
                &&& rfo != id.customer_order_ref
                &&& rfo != id.legacy_customer_order_ref
            }
            &&& t.customer_order_refs.contains_key(rfo) ==> t.customer_order_refs[rfo]
                == s.customer_order_refs[rfo]
            &&& t.order_strategies.contains_key(value) <==> value != id.value
                && s.order_strategies.contains_key(value)
            &&& t.order_strategies.contains_key(value) ==> t.order_strategies[value]
                == s.order_strategies[value]
            &&& t.accepted_orders.contains(value) <==> value != id.value
                && s.accepted_orders.contains(value)
            &&& s == OcmModel {
                customer_order_refs: s.customer_order_refs,
                order_strategies: s.order_strategies,
                accepted_orders: s.accepted_orders,
                ..t
            }
        }),
{
}

/// Cleaning a finished order up changes nothing while an update of one of its
/// bets is pending.
pub proof fn law_pending_updates_stop_the_cleanup(
    s: OcmModel,
    id: ClientOrderIdView,
    bet_id: Seq<char>,
)
    requires
        s.pending_update_keys.contains((id.value, bet_id)),
    ensures
        s.has_pending_update(id),
        s.cleanup_terminal_order(id) == s,
{
}

/// Cleaning a finished order up takes the order out as removing it does, if no
/// update of its bets is pending, whatever is pending of other orders.
pub proof fn law_cleanup_takes_out_the_order_only(
    s: OcmModel,
    id: ClientOrderIdView,
    rfo: Seq<char>,
    value: Seq<char>,
)
    requires
        forall|bet_id: Seq<char>| !#[trigger] s.pending_update_keys.contains((id.value, bet_id)),
    ensures
        !s.has_pending_update(id),
        ({
            let t = s.cleanup_terminal_order(id);
            &&& t.customer_order_refs.contains_key(rfo) <==> {
                &&& s.customer_order_refs.contains_key(rfo)
                &&& rfo != id.customer_order_ref
                &&& rfo != id.legacy_customer_order_ref
            }
            &&& t.customer_order_refs.contains_key(rfo) ==> t.customer_order_refs[rfo]
                == s.customer_order_refs[rfo]
            &&& t.order_strategies.contains_key(value) <==> value != id.value
                && s.order_strategies.contains_key(value)
            &&& t.order_strategies.contains_key(value) ==> t.order_strategies[value]
                == s.order_strategies[value]
            &&& t.accepted_orders.contains(value) <==> value != id.value
                && s.accepted_orders.contains(value)
            &&& s == OcmModel {
                customer_order_refs: s.customer_order_refs,
                order_strategies: s.order_strategies,
                accepted_orders: s.accepted_orders,
                ..t
            }
        }),
{
}

// Replaces.

/// Cancels of a bet are suppressed if the bet was replaced, whichever order
/// they name, or if an update of that order's bet is pending.
pub proof fn law_cancels_are_suppressed_by_bet_or_key(
    s: OcmModel,
    id: ClientOrderIdView,
    bet_id: Seq<char>,
)
    ensures
        s.replaced_venue_order_ids.contains(bet_id) ==> s.should_suppress_cancel(id, bet_id),
        s.pending_update_keys.contains((id.value, bet_id)) ==> s.should_suppress_cancel(id, bet_id),
        s.should_suppress_cancel(id, bet_id) && !s.replaced_venue_order_ids.contains(bet_id)
            ==> s.pending_update_keys.contains((id.value, bet_id)),
{
}

/// Registering a replace makes its key pending, with the terms that were given
/// and no time to reconcile it, and leaves every other key and everything else
/// as it was.
pub proof fn law_registering_holds_the_terms(
    s: OcmModel,
    id: ClientOrderIdView,
    bet_id: Seq<char>,
    instrument_id: InstrumentIdView,
    quantity: Quantity,
    filled_qty: Quantity,
    key: BetKeyView,
)
    ensures
        ({
            let t = s.register_pending_replace(id, bet_id, instrument_id, quantity, filled_qty);
            &&& t.pending_update_keys.contains(key) <==> key == (id.value, bet_id)
                || s.pending_update_keys.contains(key)
            &&& t.pending_replaces.contains_key(key) <==> key == (id.value, bet_id)
                || s.pending_replaces.contains_key(key)
            &&& key == (id.value, bet_id) ==> {
                &&& t.pending_replaces[key].instrument_id == instrument_id
                &&& t.pending_replaces[key].quantity == quantity
                &&& t.pending_replaces[key].filled_qty == filled_qty
                &&& t.pending_replaces[key].reconcile_after is None
            }
            &&& key != (id.value, bet_id) ==> t.pending_replaces[key] == s.pending_replaces[key]
            &&& s == OcmModel {
                pending_update_keys: s.pending_update_keys,
                pending_replaces: s.pending_replaces,
                ..t
            }
        }),
{
}

/// The replace that is looked up for a bet is the one that its key is mapped
/// to, with all of its terms.
pub proof fn law_replaces_are_known_by_key(s: OcmModel, id: ClientOrderIdView, bet_id: Seq<char>)
    ensures
        s.pending_replaces.contains_key((id.value, bet_id)) <==> s.pending_replace_for_bet(
            id,
            bet_id,
        ) is Some,
        s.pending_replace_for_bet(id, bet_id) matches Some(pending) ==> {
            let held = s.pending_replaces[(id.value, bet_id)];
            &&& pending.instrument_id == held.instrument_id
            &&& pending.quantity == held.quantity
            &&& pending.filled_qty == held.filled_qty
            &&& pending.reconcile_after == held.reconcile_after
        },
{
}

/// Marking a replace as ambiguous sets from when on it may be reconciled, and
/// leaves its terms, every other replace and everything else as it was. Where
/// no replace is under way, nothing changes.
pub proof fn law_ambiguity_sets_the_time_only(
    s: OcmModel,
    id: ClientOrderIdView,
    bet_id: Seq<char>,
    reconcile_after: UnixNanos,
    key: BetKeyView,
)
    ensures
        ({
            let t = s.mark_pending_replace_ambiguous(id, bet_id, reconcile_after);
            &&& t.pending_replaces.contains_key(key) == s.pending_replaces.contains_key(key)
            &&& s.pending_replaces.contains_key(key) && key == (id.value, bet_id) ==> {
                &&& t.pending_replaces[key].instrument_id == s.pending_replaces[key].instrument_id
                &&& t.pending_replaces[key].quantity == s.pending_replaces[key].quantity
                &&& t.pending_replaces[key].filled_qty == s.pending_replaces[key].filled_qty
                &&& t.pending_replaces[key].reconcile_after == Some(reconcile_after)
            }
            &&& key != (id.value, bet_id) ==> t.pending_replaces[key] == s.pending_replaces[key]
            &&& s == OcmModel { pending_replaces: s.pending_replaces, ..t }
            &&& !s.pending_replaces.contains_key((id.value, bet_id)) ==> t == s
        }),
{
}

/// A replace may be reconciled from the time on that is held for it, that time
/// included, and not at all if none is held or no replace is under way.
pub proof fn law_reconciling_waits_for_the_held_time(
    s: OcmModel,
    id: ClientOrderIdView,
    bet_id: Seq<char>,
    ts_now: UnixNanos,
)
    ensures
        ({
            let key = (id.value, bet_id);
            let now = s.pending_replace_reconcilable(id, bet_id, ts_now);
            &&& !s.pending_replaces.contains_key(key) ==> !now
            &&& s.pending_replaces.contains_key(key) ==> {
                &&& s.pending_replaces[key].reconcile_after is None ==> !now
                &&& s.pending_replaces[key].reconcile_after matches Some(time)
                    ==> (now <==> time.nanos <= ts_now.nanos)
            }
        }),
{
}

/// A replacement bet can be the outcome of a replace exactly if that one is of
/// the same order, of another bet and on the same instrument, whatever its
/// quantities are and whether it is ambiguous or not.
pub proof fn law_order_bet_and_instrument_decide(
    s: OcmModel,
    id: ClientOrderIdView,
    replacement_bet_id: Seq<char>,
    instrument_id: InstrumentIdView,
    value: Seq<char>,
    bet_id: Seq<char>,
)
    ensures
        ({
            let held = s.pending_replaces[(value, bet_id)];
            let outcome = {
                &&& s.pending_replaces.contains_key((value, bet_id))
                &&& value == id.value
                &&& bet_id != replacement_bet_id
                &&& held.instrument_id.symbol == instrument_id.symbol
                &&& held.instrument_id.venue == instrument_id.venue
            };
            &&& s.can_replace(id, replacement_bet_id, instrument_id, (value, bet_id)) <==> outcome
            &&& s.resolvable(id, replacement_bet_id, instrument_id).contains((value, bet_id)) <==> {
                &&& outcome
                &&& s.pending_update_keys.contains((value, bet_id))
            }
        }),
{
}

/// Where updates are pending for exactly the replaces under way, a replacement
/// bet that was not replaced itself settles every replace of its order, of
/// another bet, on its instrument: the replace is no longer under way, its
/// update no longer pending, and its bet replaced, whatever its quantities are
/// and whether it is ambiguous or not.
pub proof fn law_replacement_settles_every_replace_of_its_order(
    s: OcmModel,
    id: ClientOrderIdView,
    replacement_bet_id: Seq<char>,
    instrument_id: InstrumentIdView,
    bet_id: Seq<char>,
    quantity: Quantity,
    filled_qty: Quantity,
    reconcile_after: Option<UnixNanos>,
)
    requires
        s.pending_update_keys == s.pending_replaces.dom(),
        !s.replaced_venue_order_ids.contains(replacement_bet_id),
        bet_id != replacement_bet_id,
        s.pending_replaces.contains_key((id.value, bet_id)),
        s.pending_replaces[(id.value, bet_id)] == (PendingReplaceView {
            instrument_id,
            quantity,
            filled_qty,
            reconcile_after,
        }),
    ensures
        ({
            let t = s.resolve_pending_replace(id, replacement_bet_id, instrument_id);
            &&& !t.pending_replaces.contains_key((id.value, bet_id))
            &&& !t.pending_update_keys.contains((id.value, bet_id))
            &&& t.replaced_venue_order_ids.contains(bet_id)
        }),
        !s.resolves_to(id, replacement_bet_id, instrument_id, None),
{
    assert(s.resolvable(id, replacement_bet_id, instrument_id).contains((id.value, bet_id)));
}

/// In every state that calls lead to, a replacement bet that was not replaced
/// itself settles every replace under way of its order, of another bet, on its
/// instrument.
pub proof fn law_replacement_settles_in_every_reachable_state(
    steps: Seq<OcmStep>,
    id: ClientOrderIdView,
    replacement_bet_id: Seq<char>,
    bet_id: Seq<char>,
)
    requires
        ({
            let s = OcmModel::initial().run(steps);
            &&& !s.replaced_venue_order_ids.contains(replacement_bet_id)
            &&& bet_id != replacement_bet_id
            &&& s.pending_replaces.contains_key((id.value, bet_id))
        }),
    ensures
        ({
            let s = OcmModel::initial().run(steps);
            let held = s.pending_replaces[(id.value, bet_id)];
            let t = s.resolve_pending_replace(id, replacement_bet_id, held.instrument_id);
            &&& !t.pending_replaces.contains_key((id.value, bet_id))
            &&& !t.pending_update_keys.contains((id.value, bet_id))
            &&& t.replaced_venue_order_ids.contains(bet_id)
        }),
{
    let s = OcmModel::initial().run(steps);
    let held = s.pending_replaces[(id.value, bet_id)];
    law_reachable_states_are_consistent(steps);
    law_replacement_settles_every_replace_of_its_order(
        s,
        id,
        replacement_bet_id,
        held.instrument_id,
        bet_id,
        held.quantity,
        held.filled_qty,
        held.reconcile_after,
    );
}

/// A replacement bet takes out the pending keys of its order, of another bet,
/// whose replace is on its instrument, replaces the bets of these, and leaves
/// everything else as it was. A bet that was itself replaced changes nothing.
pub proof fn law_replacement_settles_its_keys_only(
    s: OcmModel,
    id: ClientOrderIdView,
    replacement_bet_id: Seq<char>,
    instrument_id: InstrumentIdView,
    value: Seq<char>,
    bet_id: Seq<char>,
)
    ensures
        ({
            let t = s.resolve_pending_replace(id, replacement_bet_id, instrument_id);
            let key = (value, bet_id);
            let settled = {
                &&& value == id.value
                &&& bet_id != replacement_bet_id
                &&& s.pending_update_keys.contains(key)
                &&& s.pending_replaces.contains_key(key)
                &&& s.pending_replaces[key].instrument_id.symbol == instrument_id.symbol
                &&& s.pending_replaces[key].instrument_id.venue == instrument_id.venue
            };
            &&& s.replaced_venue_order_ids.contains(replacement_bet_id) ==> t == s
            &&& !s.replaced_venue_order_ids.contains(replacement_bet_id) ==> {
                &&& t.pending_update_keys.contains(key) <==> s.pending_update_keys.contains(key)
                    && !settled
                &&& t.pending_replaces.contains_key(key) <==> s.pending_replaces.contains_key(key)
                    && !settled
                &&& t.pending_replaces.contains_key(key) ==> t.pending_replaces[key]
                    == s.pending_replaces[key]
                &&& value == id.value ==> (t.replaced_venue_order_ids.contains(bet_id)
                    <==> s.replaced_venue_order_ids.contains(bet_id) || settled)
            }
            &&& s == OcmModel {
                pending_update_keys: s.pending_update_keys,
                pending_replaces: s.pending_replaces,
                replaced_venue_order_ids: s.replaced_venue_order_ids,
                ..t
            }
        }),
{
    let keys = s.resolvable(id, replacement_bet_id, instrument_id);
    if bets_of(keys).contains(bet_id) {
        let owner = choose|owner: Seq<char>| #[trigger] keys.contains((owner, bet_id));
        assert(owner == id.value);
    }
    if keys.contains((id.value, bet_id)) {
        assert(bets_of(keys).contains(bet_id));
    }
}

/// The replace that a replacement bet yields was under way for a pending key of
/// its order, of another bet, on its instrument: it is returned as it was held,
/// with all of its terms.
pub proof fn law_replacement_yields_a_held_replace(
    s: OcmModel,
    id: ClientOrderIdView,
    replacement_bet_id: Seq<char>,
    instrument_id: InstrumentIdView,
    pending: PendingReplaceView,
) -> (bet_id: Seq<char>)
    requires
        s.resolves_to(id, replacement_bet_id, instrument_id, Some(pending)),
    ensures
        !s.replaced_venue_order_ids.contains(replacement_bet_id),
        bet_id != replacement_bet_id,
        s.pending_update_keys.contains((id.value, bet_id)),
        s.pending_replaces.contains_key((id.value, bet_id)),
        pending.instrument_id == instrument_id,
        pending.instrument_id == s.pending_replaces[(id.value, bet_id)].instrument_id,
        pending.quantity == s.pending_replaces[(id.value, bet_id)].quantity,
        pending.filled_qty == s.pending_replaces[(id.value, bet_id)].filled_qty,
        pending.reconcile_after == s.pending_replaces[(id.value, bet_id)].reconcile_after,
{
    let keys = s.resolvable(id, replacement_bet_id, instrument_id);
    let key = choose|key: BetKeyView| #[trigger]
        keys.contains(key) && s.pending_replaces[key] == pending;
    assert(key == (id.value, key.1));
    key.1
}

/// A replacement bet may yield every held replace that it settles, and none
/// only if it was replaced itself or no such replace is held.
pub proof fn law_replacement_may_yield_what_it_settles(
    s: OcmModel,
    id: ClientOrderIdView,
    replacement_bet_id: Seq<char>,
    instrument_id: InstrumentIdView,
    bet_id: Seq<char>,
)
    requires
        bet_id != replacement_bet_id,
        s.pending_update_keys.contains((id.value, bet_id)),
        s.pending_replaces.contains_key((id.value, bet_id)),
        s.pending_replaces[(id.value, bet_id)].instrument_id == instrument_id,
    ensures
        !s.replaced_venue_order_ids.contains(replacement_bet_id) ==> {
            &&& s.resolves_to(
                id,
                replacement_bet_id,
                instrument_id,
                Some(s.pending_replaces[(id.value, bet_id)]),
            )
            &&& !s.resolves_to(id, replacement_bet_id, instrument_id, None)
        },
        s.replaced_venue_order_ids.contains(replacement_bet_id) ==> s.resolves_to(
            id,
            replacement_bet_id,
            instrument_id,
            None,
        ),
{
    assert(s.resolvable(id, replacement_bet_id, instrument_id).contains((id.value, bet_id)));
}

/// Ending the replaces of keys takes exactly these out, replaces their bets,
/// and leaves everything else as it was.
pub proof fn law_settling_takes_out_the_keys_only(
    s: OcmModel,
    keys: Set<BetKeyView>,
    value: Seq<char>,
    bet_id: Seq<char>,
)
    ensures
        ({
            let t = s.replace_keys(keys);
            let key = (value, bet_id);
            &&& t.pending_update_keys.contains(key) <==> s.pending_update_keys.contains(key)
                && !keys.contains(key)
            &&& t.pending_replaces.contains_key(key) <==> s.pending_replaces.contains_key(key)
                && !keys.contains(key)
            &&& t.pending_replaces.contains_key(key) ==> t.pending_replaces[key]
                == s.pending_replaces[key]
            &&& keys.contains(key) ==> t.replaced_venue_order_ids.contains(bet_id)
            &&& s.replaced_venue_order_ids.contains(bet_id) ==> t.replaced_venue_order_ids.contains(
                bet_id,
            )
            &&& t.replaced_venue_order_ids.contains(bet_id)
                ==> s.replaced_venue_order_ids.contains(bet_id) || exists|owner: Seq<char>| #[trigger]
                keys.contains((owner, bet_id))
            &&& s == OcmModel {
                pending_update_keys: s.pending_update_keys,
                pending_replaces: s.pending_replaces,
                replaced_venue_order_ids: s.replaced_venue_order_ids,
                ..t
            }
        }),
{
    if keys.contains((value, bet_id)) {
        assert(bets_of(keys).contains(bet_id));
    }
}

/// Of a list of keys, the replace is yielded that is held for the first key
/// which has one, with all of its terms.
pub proof fn law_settling_yields_the_first_held_replace(
    s: OcmModel,
    keys: Seq<BetKeyView>,
    i: int,
)
    requires
        0 <= i < keys.len(),
        s.pending_replaces.contains_key(keys[i]),
        forall|j: int| 0 <= j < i ==> !s.pending_replaces.contains_key(#[trigger] keys[j]),
    ensures
        s.first_replace(keys) matches Some(pending) && {
            &&& pending.instrument_id == s.pending_replaces[keys[i]].instrument_id
            &&& pending.quantity == s.pending_replaces[keys[i]].quantity
            &&& pending.filled_qty == s.pending_replaces[keys[i]].filled_qty
            &&& pending.reconcile_after == s.pending_replaces[keys[i]].reconcile_after
        },
    decreases keys.len(),
{
    if i > 0 {
        let rest = keys.drop_first();
        assert(!s.pending_replaces.contains_key(keys[0]));
        assert(rest[i - 1] == keys[i]);
        assert forall|j: int| 0 <= j < i - 1 implies !s.pending_replaces.contains_key(
            #[trigger] rest[j],
        ) by {
            assert(rest[j] == keys[j + 1]);
        }
        law_settling_yields_the_first_held_replace(s, rest, i - 1);
    }
}

/// Of a list of keys that no replace is held for, none is yielded.
pub proof fn law_settling_yields_nothing_that_is_not_held(s: OcmModel, keys: Seq<BetKeyView>)
    requires
        forall|j: int|
            0 <= j < keys.len() ==> !s.pending_replaces.contains_key(#[trigger] keys[j]),
    ensures
        s.first_replace(keys) is None,
    decreases keys.len(),
{
    if keys.len() > 0 {
        let rest = keys.drop_first();
        assert(!s.pending_replaces.contains_key(keys[0]));
        assert forall|j: int| 0 <= j < rest.len() implies !s.pending_replaces.contains_key(
            #[trigger] rest[j],
        ) by {
            assert(rest[j] == keys[j + 1]);
        }
        law_settling_yields_nothing_that_is_not_held(s, rest);
    }
}

/// Completing a replace takes its key out and, if one was under way, replaces
/// its bet, and leaves everything else as it was.
pub proof fn law_completing_takes_out_the_key_only(
    s: OcmModel,
    id: ClientOrderIdView,
    old_bet_id: Seq<char>,
    key: BetKeyView,
    bet_id: Seq<char>,
)
    ensures
        ({
            let t = s.complete_pending_replace(id, old_bet_id);
            &&& t.pending_update_keys.contains(key) <==> key != (id.value, old_bet_id)
                && s.pending_update_keys.contains(key)
            &&& t.pending_replaces.contains_key(key) <==> key != (id.value, old_bet_id)
                && s.pending_replaces.contains_key(key)
            &&& t.pending_replaces.contains_key(key) ==> t.pending_replaces[key]
                == s.pending_replaces[key]
            &&& t.replaced_venue_order_ids.contains(bet_id) <==> {
                ||| s.replaced_venue_order_ids.contains(bet_id)
                ||| bet_id == old_bet_id && s.pending_replaces.contains_key((id.value, bet_id))
            }
            &&& s == OcmModel {
                pending_update_keys: s.pending_update_keys,
                pending_replaces: s.pending_replaces,
                replaced_venue_order_ids: s.replaced_venue_order_ids,
                ..t
            }
        }),
{
}

/// Giving a replace up takes its key out, and leaves everything else as it was:
/// no bet is replaced.
pub proof fn law_clearing_takes_out_the_key_only(
    s: OcmModel,
    id: ClientOrderIdView,
    old_bet_id: Seq<char>,
    key: BetKeyView,
)
    ensures
        ({
            let t = s.clear_pending_replace(id, old_bet_id);
            &&& t.pending_update_keys.contains(key) <==> key != (id.value, old_bet_id)
                && s.pending_update_keys.contains(key)
            &&& t.pending_replaces.contains_key(key) <==> key != (id.value, old_bet_id)
                && s.pending_replaces.contains_key(key)
            &&& t.pending_replaces.contains_key(key) ==> t.pending_replaces[key]
                == s.pending_replaces[key]
            &&& s == OcmModel {
                pending_update_keys: s.pending_update_keys,
                pending_replaces: s.pending_replaces,
                ..t
            }
        }),
{
}

/// The replace that is looked up for an order is held for the order and the bet
/// that is returned with it, with all of its terms; none is found only if none
/// is held for any bet of the order.
pub proof fn law_order_lookup_finds_a_held_replace(
    s: OcmModel,
    id: ClientOrderIdView,
    bet_id: Seq<char>,
    pending: PendingReplaceView,
)
    ensures
        s.is_pending_replace(id, Some((bet_id, pending))) <==> {
            &&& s.pending_replaces.contains_key((id.value, bet_id))
            &&& pending.instrument_id == s.pending_replaces[(id.value, bet_id)].instrument_id
            &&& pending.quantity == s.pending_replaces[(id.value, bet_id)].quantity
            &&& pending.filled_qty == s.pending_replaces[(id.value, bet_id)].filled_qty
            &&& pending.reconcile_after == s.pending_replaces[(id.value, bet_id)].reconcile_after
        },
        s.pending_replaces.contains_key((id.value, bet_id)) ==> !s.is_pending_replace(id, None),
{
}

/// Of a walk over keys, the order's first key with a held replace is found, its
/// bet and the replace with all of its terms.
pub proof fn law_walk_finds_the_first_held_replace(
    s: OcmModel,
    id: ClientOrderIdView,
    walk: Seq<BetKeyView>,
    i: int,
)
    requires
        0 <= i < walk.len(),
        walk[i].0 == id.value,
        s.pending_replaces.contains_key(walk[i]),
        forall|j: int|
            0 <= j < i ==> (#[trigger] walk[j]).0 != id.value || !s.pending_replaces.contains_key(
                walk[j],
            ),
    ensures
        s.first_replace_of_order(id, walk) matches Some((bet_id, pending)) && {
            &&& bet_id == walk[i].1
            &&& pending.instrument_id == s.pending_replaces[walk[i]].instrument_id
            &&& pending.quantity == s.pending_replaces[walk[i]].quantity
            &&& pending.filled_qty == s.pending_replaces[walk[i]].filled_qty
            &&& pending.reconcile_after == s.pending_replaces[walk[i]].reconcile_after
        },
    decreases walk.len(),
{
    if i > 0 {
        let rest = walk.drop_first();
        assert(walk[0].0 != id.value || !s.pending_replaces.contains_key(walk[0]));
        assert(rest[i - 1] == walk[i]);
        assert forall|j: int| 0 <= j < i - 1 implies (#[trigger] rest[j]).0 != id.value
            || !s.pending_replaces.contains_key(rest[j]) by {
            assert(rest[j] == walk[j + 1]);
        }
        law_walk_finds_the_first_held_replace(s, id, rest, i - 1);
    }
}

/// Of a walk over keys, none of which is the order's with a held replace,
/// nothing is found.
pub proof fn law_walk_finds_nothing_that_is_not_held(
    s: OcmModel,
    id: ClientOrderIdView,
    walk: Seq<BetKeyView>,
)
    requires
        forall|j: int|
            0 <= j < walk.len() ==> (#[trigger] walk[j]).0 != id.value
                || !s.pending_replaces.contains_key(walk[j]),
    ensures
        s.first_replace_of_order(id, walk) is None,
    decreases walk.len(),
{
    if walk.len() > 0 {
        let rest = walk.drop_first();
        assert(walk[0].0 != id.value || !s.pending_replaces.contains_key(walk[0]));
        assert forall|j: int| 0 <= j < rest.len() implies (#[trigger] rest[j]).0 != id.value
            || !s.pending_replaces.contains_key(rest[j]) by {
            assert(rest[j] == walk[j + 1]);
        }
        law_walk_finds_nothing_that_is_not_held(s, id, rest);
    }
}

// Quantity updates.

/// Registering a quantity update holds both quantities for its key, and leaves
/// every other key and everything else as it was.
pub proof fn law_registering_holds_both_quantities(
    s: OcmModel,
    id: ClientOrderIdView,
    bet_id: Seq<char>,
    original: Quantity,
    requested: Quantity,
    key: BetKeyView,
)
    ensures
        ({
            let t = s.register_pending_quantity_update(id, bet_id, original, requested);
            &&& t.pending_quantity_updates.contains_key(key) <==> key == (id.value, bet_id)
                || s.pending_quantity_updates.contains_key(key)
            &&& key == (id.value, bet_id) ==> {
                &&& t.pending_quantity_updates[key].original == original
                &&& t.pending_quantity_updates[key].requested == requested
            }
            &&& key != (id.value, bet_id) ==> t.pending_quantity_updates[key]
                == s.pending_quantity_updates[key]
            &&& s == OcmModel { pending_quantity_updates: s.pending_quantity_updates, ..t }
        }),
{
}

/// The stream confirms the update of a bet exactly if one is held, with a
/// quantity that is not below the requested one and below the original one: the
/// update is then no longer held, and the quantity is held as confirmed. Else
/// nothing changes.
pub proof fn law_stream_confirms_between_requested_and_original(
    s: OcmModel,
    id: ClientOrderIdView,
    bet_id: Seq<char>,
    active_quantity: Quantity,
    key: BetKeyView,
)
    ensures
        ({
            let t = s.resolve_pending_quantity_update(id, bet_id, active_quantity);
            let held = s.pending_quantity_updates[(id.value, bet_id)];
            let confirmed = {
                &&& s.pending_quantity_updates.contains_key((id.value, bet_id))
                &&& held.requested.raw <= active_quantity.raw < held.original.raw
            };
            &&& s.is_definitive_reduction(id, bet_id, active_quantity) <==> confirmed
            &&& !confirmed ==> t == s
            &&& confirmed ==> {
                &&& t.pending_quantity_updates.contains_key(key) <==> key != (id.value, bet_id)
                    && s.pending_quantity_updates.contains_key(key)
                &&& t.pending_quantity_updates.contains_key(key) ==> t.pending_quantity_updates[key]
                    == s.pending_quantity_updates[key]
                &&& t.confirmed_quantity_updates.contains_key(key) <==> key == (id.value, bet_id)
                    || s.confirmed_quantity_updates.contains_key(key)
                &&& key == (id.value, bet_id) ==> t.confirmed_quantity_updates[key]
                    == active_quantity
                &&& key != (id.value, bet_id) ==> t.confirmed_quantity_updates[key]
                    == s.confirmed_quantity_updates[key]
            }
            &&& s == OcmModel {
                pending_quantity_updates: s.pending_quantity_updates,
                confirmed_quantity_updates: s.confirmed_quantity_updates,
                ..t
            }
        }),
{
}

/// Completing the update of a bet confirms any quantity, if an update is held:
/// it is then no longer held, and the quantity is held as confirmed. Else
/// nothing changes.
pub proof fn law_completing_confirms_any_quantity(
    s: OcmModel,
    id: ClientOrderIdView,
    bet_id: Seq<char>,
    quantity: Quantity,
    key: BetKeyView,
)
    ensures
        ({
            let t = s.complete_pending_quantity_update(id, bet_id, quantity);
            let confirmed = s.pending_quantity_updates.contains_key((id.value, bet_id));
            &&& !confirmed ==> t == s
            &&& confirmed ==> {
                &&& t.pending_quantity_updates.contains_key(key) <==> key != (id.value, bet_id)
                    && s.pending_quantity_updates.contains_key(key)
                &&& t.pending_quantity_updates.contains_key(key) ==> t.pending_quantity_updates[key]
                    == s.pending_quantity_updates[key]
                &&& t.confirmed_quantity_updates.contains_key(key) <==> key == (id.value, bet_id)
                    || s.confirmed_quantity_updates.contains_key(key)
                &&& key == (id.value, bet_id) ==> t.confirmed_quantity_updates[key] == quantity
                &&& key != (id.value, bet_id) ==> t.confirmed_quantity_updates[key]
                    == s.confirmed_quantity_updates[key]
            }
            &&& s == OcmModel {
                pending_quantity_updates: s.pending_quantity_updates,
                confirmed_quantity_updates: s.confirmed_quantity_updates,
                ..t
            }
        }),
{
}

/// The confirmed quantity of a bet is the one that is held for its key.
pub proof fn law_confirmed_quantities_are_known_by_key(
    s: OcmModel,
    id: ClientOrderIdView,
    bet_id: Seq<char>,
)
    ensures
        s.confirmed_quantity_updates.contains_key((id.value, bet_id))
            <==> s.confirmed_quantity_update(id, bet_id) is Some,
        s.confirmed_quantity_update(id, bet_id) matches Some(quantity) ==> quantity
            == s.confirmed_quantity_updates[(id.value, bet_id)],
{
}

/// Clearing the update of a bet takes its key out, whether it is pending or
/// confirmed, and leaves every other key and everything else as it was.
pub proof fn law_clearing_takes_out_the_update_only(
    s: OcmModel,
    id: ClientOrderIdView,
    bet_id: Seq<char>,
    key: BetKeyView,
)
    ensures
        ({
            let t = s.clear_pending_quantity_update(id, bet_id);
            &&& t.pending_quantity_updates.contains_key(key) <==> key != (id.value, bet_id)
                && s.pending_quantity_updates.contains_key(key)
            &&& t.pending_quantity_updates.contains_key(key) ==> t.pending_quantity_updates[key]
                == s.pending_quantity_updates[key]
            &&& t.confirmed_quantity_updates.contains_key(key) <==> key != (id.value, bet_id)
                && s.confirmed_quantity_updates.contains_key(key)
            &&& t.confirmed_quantity_updates.contains_key(key) ==> t.confirmed_quantity_updates[key]
                == s.confirmed_quantity_updates[key]
            &&& s == OcmModel {
                pending_quantity_updates: s.pending_quantity_updates,
                confirmed_quantity_updates: s.confirmed_quantity_updates,
                ..t
            }
        }),
{
}

// Finished bets.

/// Marking a bet that is known as finished changes nothing, and tells the fill
/// tracker nothing.
pub proof fn law_known_bets_are_not_marked_again(s: OcmModel, bet_id: Seq<char>)
    requires
        s.terminal_orders.contains(bet_id),
    ensures
        s.mark_terminal_order(bet_id) == s,
        prune_command(s.expired_by(bet_id)) is None,
{
}

/// While fewer than ten thousand bets are queued, marking a new one adds it as
/// the newest, forgets none, and tells the fill tracker nothing.
pub proof fn law_new_bets_join_the_queue(s: OcmModel, bet_id: Seq<char>, other: Seq<char>, i: int)
    requires
        !s.terminal_orders.contains(bet_id),
        s.terminal_order_queue.len() < 10_000,
    ensures
        ({
            let t = s.mark_terminal_order(bet_id);
            &&& t.terminal_orders.contains(other) <==> other == bet_id || s.terminal_orders.contains(
                other,
            )
            &&& t.terminal_order_queue.len() == s.terminal_order_queue.len() + 1
            &&& t.terminal_order_queue.last() == bet_id
            &&& 0 <= i < s.terminal_order_queue.len() ==> t.terminal_order_queue[i]
                == s.terminal_order_queue[i]
            &&& s == OcmModel {
                terminal_orders: s.terminal_orders,
                terminal_order_queue: s.terminal_order_queue,
                ..t
            }
        }),
        prune_command(s.expired_by(bet_id)) is None,
{
}

/// Once ten thousand bets are queued, marking a new one adds it as the newest,
/// forgets the oldest, whichever that is, and tells the fill tracker to forget
/// that one.
pub proof fn law_new_bets_push_the_oldest_out(
    s: OcmModel,
    bet_id: Seq<char>,
    other: Seq<char>,
    i: int,
)
    requires
        !s.terminal_orders.contains(bet_id),
        s.terminal_order_queue.len() >= 10_000,
    ensures
        ({
            let t = s.mark_terminal_order(bet_id);
            let oldest = s.terminal_order_queue[0];
            &&& t.terminal_orders.contains(other) <==> {
                &&& other == bet_id || s.terminal_orders.contains(other)
                &&& other != oldest
            }
            &&& t.terminal_order_queue.len() == s.terminal_order_queue.len()
            &&& t.terminal_order_queue.last() == bet_id
            &&& 0 < i < s.terminal_order_queue.len() ==> t.terminal_order_queue[i - 1]
                == s.terminal_order_queue[i]
            &&& s == OcmModel {
                terminal_orders: s.terminal_orders,
                terminal_order_queue: s.terminal_order_queue,
                ..t
            }
            &&& prune_command(s.expired_by(bet_id)) == Some(
                FillTrackerCommandView::Prune { bet_id: oldest },
            )
        }),
{
}

/// The command that goes with an expired bet names that bet, whatever its
/// identifier is; without an expired bet there is none.
pub proof fn law_expired_bets_are_pruned_by_name(expired: Seq<char>)
    ensures
        prune_command(Some(expired)) == Some(FillTrackerCommandView::Prune { bet_id: expired }),
        prune_command(None) is None,
{
}

/// Marking a bet drops a finished one exactly if the fill tracker is told to
/// forget that one.
pub proof fn law_dropped_bets_are_the_pruned_ones(
    s: OcmModel,
    bet_id: Seq<char>,
    other: Seq<char>,
)
    requires
        s.consistent(),
        s.terminal_orders.contains(other),
    ensures
        !s.mark_terminal_order(bet_id).terminal_orders.contains(other) <==> prune_command(
            s.expired_by(bet_id),
        ) == Some(FillTrackerCommandView::Prune { bet_id: other }),
{
}

/// What marking a bet tells the fill tracker is what a history counts for it.
pub proof fn law_marks_tell_what_histories_count(s: OcmModel, bet_id: Seq<char>)
    ensures
        step_commands(s, OcmStep::MarkTerminalOrder { bet_id }) == (match prune_command(
            s.expired_by(bet_id),
        ) {
            Some(command) => seq![command],
            None => seq![],
        }),
{
}

// Reconnecting.

/// Taking over no cached order changes nothing. Taking over one that is closed
/// finishes its bet, as marking it does; taking over one that is open registers
/// it with both references.
pub proof fn law_sync_of_one_order(s: OcmModel, entry: OrderSyncEntryView)
    ensures
        s.sync_from_orders(seq![]) == s,
        entry.is_closed ==> s.sync_from_orders(seq![entry]) == s.mark_terminal_order(entry.bet_id),
        !entry.is_closed ==> s.sync_from_orders(seq![entry])
            == s.register_customer_order_ref_with_legacy(entry.client_order_id),
{
    assert(seq![entry].drop_last() == Seq::<OrderSyncEntryView>::empty());
}

/// What one cached order tells the fill tracker, in this order: to forget the
/// bet that its own pushes out, if it is closed; its fill, if it has one; and
/// its published trades, if it has any. The last two do not depend on whether
/// it is closed. No cached order tells nothing.
pub proof fn law_sync_commands_of_one_order(s: OcmModel, entry: OrderSyncEntryView)
    ensures
        s.sync_commands(seq![]).len() == 0,
        ({
            let commands = s.sync_commands(seq![entry]);
            let pushes_out = {
                &&& entry.is_closed
                &&& !s.terminal_orders.contains(entry.bet_id)
                &&& s.terminal_order_queue.len() >= 10_000
            };
            let pruned: int = if pushes_out {
                1
            } else {
                0
            };
            let synced: int = if entry.filled_qty.mantissa() > 0 {
                1
            } else {
                0
            };
            let seeded: int = if entry.trade_ids.len() > 0 {
                1
            } else {
                0
            };
            &&& commands.len() == pruned + synced + seeded
            &&& pushes_out ==> commands[0] == FillTrackerCommandView::Prune {
                bet_id: s.terminal_order_queue[0],
            }
            &&& entry.filled_qty.mantissa() > 0 ==> commands[pruned]
                == FillTrackerCommandView::SyncOrder {
                bet_id: entry.bet_id,
                filled_qty: entry.filled_qty,
                avg_px: entry.avg_px,
            }
            &&& entry.trade_ids.len() > 0 ==> commands.last()
                == FillTrackerCommandView::SeedPublishedTradeIds { trade_ids: entry.trade_ids }
        }),
{
    assert(seq![entry].drop_last() == Seq::<OrderSyncEntryView>::empty());
    let none = Seq::<OrderSyncEntryView>::empty();
    assert(s.sync_commands(none) + s.sync_from_orders(none).sync_entry_commands(entry)
        == s.sync_entry_commands(entry));
}

/// What comes before and after an order among the cached ones, and the order
/// itself, tell the fill tracker their part each.
proof fn lemma_sync_commands_around(s: OcmModel, orders: Seq<OrderSyncEntryView>, i: int)
    requires
        0 <= i < orders.len(),
    ensures
        ({
            let before = orders.take(i);
            let after = orders.skip(i + 1);
            let t = s.sync_from_orders(before);
            s.sync_commands(orders) == s.sync_commands(before) + t.sync_commands(seq![orders[i]])
                + t.sync_from_orders(seq![orders[i]]).sync_commands(after)
        }),
{
    let before = orders.take(i);
    let after = orders.skip(i + 1);
    assert(before + seq![orders[i]] + after == orders);
    law_sync_in_parts(s, before + seq![orders[i]], after);
    law_sync_in_parts(s, before, seq![orders[i]]);
}

/// Each cached order that has a fill, open or closed, anchors the fill tracker:
/// its bet, its filled quantity and its average price are told.
pub proof fn law_every_fill_is_anchored(s: OcmModel, orders: Seq<OrderSyncEntryView>, i: int)
    requires
        0 <= i < orders.len(),
        orders[i].filled_qty.mantissa() > 0,
    ensures
        s.sync_commands(orders).contains(
            FillTrackerCommandView::SyncOrder {
                bet_id: orders[i].bet_id,
                filled_qty: orders[i].filled_qty,
                avg_px: orders[i].avg_px,
            },
        ),
{
    let t = s.sync_from_orders(orders.take(i));
    let c = FillTrackerCommandView::SyncOrder {
        bet_id: orders[i].bet_id,
        filled_qty: orders[i].filled_qty,
        avg_px: orders[i].avg_px,
    };
    let own = t.sync_commands(seq![orders[i]]);
    lemma_sync_commands_around(s, orders, i);
    law_sync_commands_of_one_order(t, orders[i]);
    let at: int = if own[0] == c {
        0
    } else {
        1
    };
    assert(own[at] == c);
    assert(s.sync_commands(orders)[s.sync_commands(orders.take(i)).len() + at] == c);
}

/// Each cached order that has published trades, open or closed, seeds them all.
pub proof fn law_every_published_trade_is_seeded(
    s: OcmModel,
    orders: Seq<OrderSyncEntryView>,
    i: int,
)
    requires
        0 <= i < orders.len(),
        orders[i].trade_ids.len() > 0,
    ensures
        s.sync_commands(orders).contains(
            FillTrackerCommandView::SeedPublishedTradeIds { trade_ids: orders[i].trade_ids },
        ),
{
    let t = s.sync_from_orders(orders.take(i));
    let c = FillTrackerCommandView::SeedPublishedTradeIds { trade_ids: orders[i].trade_ids };
    let own = t.sync_commands(seq![orders[i]]);
    lemma_sync_commands_around(s, orders, i);
    law_sync_commands_of_one_order(t, orders[i]);
    let at = s.sync_commands(orders.take(i)).len() + own.len() - 1;
    assert(s.sync_commands(orders)[at] == c);
}

/// A fill that the fill tracker is told of is that of a cached order which has
/// one, and trades that are seeded are those of a cached order which has any.
pub proof fn law_only_cached_orders_are_told(
    s: OcmModel,
    orders: Seq<OrderSyncEntryView>,
    c: FillTrackerCommandView,
) -> (i: int)
    requires
        s.sync_commands(orders).contains(c),
        !(c is Prune),
    ensures
        0 <= i < orders.len(),
        c matches FillTrackerCommandView::SyncOrder { bet_id, filled_qty, avg_px } ==> {
            &&& filled_qty.mantissa() > 0
            &&& bet_id == orders[i].bet_id
            &&& filled_qty == orders[i].filled_qty
            &&& avg_px == orders[i].avg_px
        },
        c matches FillTrackerCommandView::SeedPublishedTradeIds { trade_ids } ==> {
            &&& trade_ids.len() > 0
            &&& trade_ids == orders[i].trade_ids
        },
    decreases orders.len(),
{
    let before = orders.drop_last();
    let last = orders.len() - 1;
    let t = s.sync_from_orders(before);
    let commands = s.sync_commands(orders);
    let k = choose|k: int| 0 <= k < commands.len() && commands[k] == c;
    assert(orders.take(last) == before);
    lemma_sync_commands_around(s, orders, last);
    assert(orders.skip(last + 1) == Seq::<OrderSyncEntryView>::empty());
    if k < s.sync_commands(before).len() {
        assert(s.sync_commands(before)[k] == c);
        law_only_cached_orders_are_told(s, before, c)
    } else {
        law_sync_commands_of_one_order(t, orders[last]);
        assert(t.sync_commands(seq![orders[last]])[k - s.sync_commands(before).len()] == c);
        last
    }
}

} // verus!
