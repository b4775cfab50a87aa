//! What a history of calls leads to.
//!
//! Each part of a state is what the last calls that concern it have left. The
//! laws say so part by part, for every history.
use vstd::prelude::*;

use crate::collections::BetKeyView;
use crate::laws::{
    closed_bets, forgets_order, is_reference_of, is_registered_under, latest,
    law_old_terminal_orders_expire, law_queue_holds_the_latest, law_reachable_states_are_consistent,
    law_recent_terminal_orders_are_retained, law_sync_finishes_closed_orders,
    law_sync_touches_references_and_finished_bets_only, OcmStep,
};
use crate::model::OcmModel;
use crate::state::OcmState;
use crate::types::{
    ClientOrderIdView, FillTrackerCommandView, OrderSyncEntryView, PendingQuantityUpdate,
    PendingReplaceView, Quantity, UnixNanos,
};

verus! {

// Finished bets.

/// The bets that a history finishes: those that are marked, and those of the
/// closed orders that are taken over, in order.
pub open spec fn finished_by(steps: Seq<OcmStep>) -> Seq<Seq<char>>
    decreases steps.len(),
{
    if steps.len() == 0 {
        seq![]
    } else {
        finished_by(steps.drop_last()) + match steps.last() {
            OcmStep::MarkTerminalOrder { bet_id } => seq![bet_id],
            OcmStep::SyncFromOrders { orders } => closed_bets(orders),
            _ => seq![],
        }
    }
}

/// A history leaves the finished bets that marking its bets one after the other
/// leaves, whatever else it holds.
pub proof fn law_history_finishes_its_bets(s: OcmModel, steps: Seq<OcmStep>)
    ensures
        s.run(steps).terminal_orders == s.mark_terminal_orders(finished_by(steps)).terminal_orders,
        s.run(steps).terminal_order_queue == s.mark_terminal_orders(
            finished_by(steps),
        ).terminal_order_queue,
    decreases steps.len(),
{
    if steps.len() > 0 {
        let before = steps.drop_last();
        let t = s.run(before);
        let u = s.mark_terminal_orders(finished_by(before));
        law_history_finishes_its_bets(s, before);
        match steps.last() {
            OcmStep::MarkTerminalOrder { bet_id } => {
                lemma_marks_in_parts(s, finished_by(before), seq![bet_id]);
                lemma_marks_depend_on_finished_bets(t, u, seq![bet_id]);
                assert(seq![bet_id].drop_last() == Seq::<Seq<char>>::empty());
                assert(t.mark_terminal_orders(seq![bet_id]) == t.mark_terminal_orders(
                    seq![bet_id].drop_last(),
                ).mark_terminal_order(bet_id));
            },
            OcmStep::SyncFromOrders { orders } => {
                law_sync_finishes_closed_orders(t, orders);
                lemma_marks_in_parts(s, finished_by(before), closed_bets(orders));
                lemma_marks_depend_on_finished_bets(t, u, closed_bets(orders));
            },
            _ => {
                assert(finished_by(steps) == finished_by(before));
            },
        }
    }
}

/// Bets may be marked in parts.
proof fn lemma_marks_in_parts(s: OcmModel, first: Seq<Seq<char>>, second: Seq<Seq<char>>)
    ensures
        s.mark_terminal_orders(first + second) == s.mark_terminal_orders(
            first,
        ).mark_terminal_orders(second),
    decreases second.len(),
{
    if second.len() == 0 {
        assert(first + second == first);
    } else {
        lemma_marks_in_parts(s, first, second.drop_last());
        assert((first + second).drop_last() == first + second.drop_last());
    }
}

/// What marking does to the finished bets depends on the finished bets only.
proof fn lemma_marks_depend_on_finished_bets(s: OcmModel, t: OcmModel, bet_ids: Seq<Seq<char>>)
    requires
        s.terminal_orders == t.terminal_orders,
        s.terminal_order_queue == t.terminal_order_queue,
    ensures
        s.mark_terminal_orders(bet_ids).terminal_orders == t.mark_terminal_orders(
            bet_ids,
        ).terminal_orders,
        s.mark_terminal_orders(bet_ids).terminal_order_queue == t.mark_terminal_orders(
            bet_ids,
        ).terminal_order_queue,
    decreases bet_ids.len(),
{
    if bet_ids.len() > 0 {
        lemma_marks_depend_on_finished_bets(s, t, bet_ids.drop_last());
    }
}

/// A new finished bet is retained through a history that finishes fewer other
/// bets than the bound, however often.
pub proof fn law_recent_bets_are_retained_in_histories(
    s: OcmModel,
    bet_id: Seq<char>,
    steps: Seq<OcmStep>,
)
    requires
        s.consistent(),
        !s.terminal_orders.contains(bet_id),
        finished_by(steps).to_set().remove(bet_id).len() < OcmState::TERMINAL_ORDER_RETENTION,
    ensures
        s.mark_terminal_order(bet_id).run(steps).terminal_orders.contains(bet_id),
{
    law_history_finishes_its_bets(s.mark_terminal_order(bet_id), steps);
    law_recent_terminal_orders_are_retained(s, bet_id, finished_by(steps));
}

/// The queue after a history that finishes new bets, each once, holds the
/// latest of the old ones and the new ones.
pub proof fn law_queue_holds_the_latest_of_histories(s: OcmModel, steps: Seq<OcmStep>)
    requires
        s.consistent(),
        finished_by(steps).no_duplicates(),
        forall|i: int|
            0 <= i < finished_by(steps).len() ==> !s.terminal_orders.contains(
                #[trigger] finished_by(steps)[i],
            ),
    ensures
        s.run(steps).terminal_order_queue == latest(s.terminal_order_queue + finished_by(steps)),
{
    law_history_finishes_its_bets(s, steps);
    law_queue_holds_the_latest(s, finished_by(steps));
}

/// A history that finishes as many new bets as are retained, but not an old
/// one again, pushes the old one out: it is no longer known as finished, and
/// the fill tracker is told to forget it.
pub proof fn law_old_bets_expire_in_histories(
    s: OcmModel,
    bet_id: Seq<char>,
    steps: Seq<OcmStep>,
)
    requires
        s.consistent(),
        s.terminal_orders.contains(bet_id),
        !finished_by(steps).contains(bet_id),
        finished_by(steps).to_set().difference(s.terminal_orders).len()
            >= OcmState::TERMINAL_ORDER_RETENTION,
    ensures
        !s.run(steps).terminal_orders.contains(bet_id),
        run_commands(s, steps).contains(FillTrackerCommandView::Prune { bet_id }),
{
    law_history_finishes_its_bets(s, steps);
    law_old_terminal_orders_expire(s, bet_id, finished_by(steps));
    law_forgotten_bets_are_pruned(s, bet_id, steps);
}

// Commands.

/// What a call tells the fill tracker.
pub open spec fn step_commands(s: OcmModel, step: OcmStep) -> Seq<FillTrackerCommandView> {
    match step {
        OcmStep::MarkTerminalOrder { bet_id } => match s.expired_by(bet_id) {
            Some(expired) => seq![FillTrackerCommandView::Prune { bet_id: expired }],
            None => seq![],
        },
        OcmStep::SyncFromOrders { orders } => s.sync_commands(orders),
        _ => seq![],
    }
}

/// What a history tells the fill tracker, in order.
pub open spec fn run_commands(s: OcmModel, steps: Seq<OcmStep>) -> Seq<FillTrackerCommandView>
    decreases steps.len(),
{
    if steps.len() == 0 {
        seq![]
    } else {
        run_commands(s, steps.drop_last()) + step_commands(
            s.run(steps.drop_last()),
            steps.last(),
        )
    }
}

/// The fill tracker is told to forget every bet that a history forgets as
/// finished.
pub proof fn law_forgotten_bets_are_pruned(s: OcmModel, bet_id: Seq<char>, steps: Seq<OcmStep>)
    requires
        s.terminal_orders.contains(bet_id),
        !s.run(steps).terminal_orders.contains(bet_id),
    ensures
        run_commands(s, steps).contains(FillTrackerCommandView::Prune { bet_id }),
    decreases steps.len(),
{
    let before = steps.drop_last();
    let t = s.run(before);
    let c = FillTrackerCommandView::Prune { bet_id };
    if t.terminal_orders.contains(bet_id) {
        let last = step_commands(t, steps.last());
        if let OcmStep::SyncFromOrders { orders } = steps.last() {
            lemma_sync_prunes_forgotten_bets(t, bet_id, orders);
        } else {
            assert(last[0] == c);
        }
        let k = choose|k: int| 0 <= k < last.len() && last[k] == c;
        assert(run_commands(s, steps)[run_commands(s, before).len() + k] == c);
    } else {
        law_forgotten_bets_are_pruned(s, bet_id, before);
        let k = choose|k: int|
            0 <= k < run_commands(s, before).len() && run_commands(s, before)[k] == c;
        assert(run_commands(s, steps)[k] == c);
    }
}

proof fn lemma_sync_prunes_forgotten_bets(
    s: OcmModel,
    bet_id: Seq<char>,
    orders: Seq<OrderSyncEntryView>,
)
    requires
        s.terminal_orders.contains(bet_id),
        !s.sync_from_orders(orders).terminal_orders.contains(bet_id),
    ensures
        s.sync_commands(orders).contains(FillTrackerCommandView::Prune { bet_id }),
    decreases orders.len(),
{
    let before = orders.drop_last();
    let t = s.sync_from_orders(before);
    let c = FillTrackerCommandView::Prune { bet_id };
    if t.terminal_orders.contains(bet_id) {
        assert(t.sync_entry_commands(orders.last())[0] == c);
        assert(s.sync_commands(orders)[s.sync_commands(before).len() as int] == c);
    } else {
        lemma_sync_prunes_forgotten_bets(s, bet_id, before);
        let k = choose|k: int|
            0 <= k < s.sync_commands(before).len() && s.sync_commands(before)[k] == c;
        assert(s.sync_commands(orders)[k] == c);
    }
}

/// The fill tracker is told to forget no bets but those that were queued as
/// finished before, or that the history finished.
pub proof fn law_only_finished_bets_are_pruned(s: OcmModel, bet_id: Seq<char>, steps: Seq<OcmStep>)
    requires
        run_commands(s, steps).contains(FillTrackerCommandView::Prune { bet_id }),
    ensures
        s.terminal_order_queue.contains(bet_id) || finished_by(steps).contains(bet_id),
    decreases steps.len(),
{
    let before = steps.drop_last();
    let t = s.run(before);
    let c = FillTrackerCommandView::Prune { bet_id };
    let commands = run_commands(s, before);
    let last = step_commands(t, steps.last());
    let k = choose|k: int| 0 <= k < run_commands(s, steps).len() && run_commands(s, steps)[k] == c;
    if k < commands.len() {
        assert(commands[k] == c);
        law_only_finished_bets_are_pruned(s, bet_id, before);
        if finished_by(before).contains(bet_id) {
            let i = choose|i: int|
                0 <= i < finished_by(before).len() && finished_by(before)[i] == bet_id;
            assert(finished_by(steps)[i] == bet_id);
        }
    } else {
        assert(last[k - commands.len()] == c);
        let added = finished_by(steps).skip(finished_by(before).len() as int);
        match steps.last() {
            OcmStep::SyncFromOrders { orders } => {
                assert(added == closed_bets(orders));
                lemma_sync_prunes_finished_bets(t, bet_id, orders);
            },
            OcmStep::MarkTerminalOrder { bet_id: marked } => {
                let queue = t.terminal_order_queue.push(marked);
                assert(queue[0] == bet_id);
                assert(added == seq![marked]);
                if t.terminal_order_queue.len() > 0 {
                    assert(t.terminal_order_queue[0] == bet_id);
                } else {
                    assert(added[0] == bet_id);
                }
            },
            _ => {},
        }
        if added.contains(bet_id) {
            let i = choose|i: int| 0 <= i < added.len() && added[i] == bet_id;
            assert(finished_by(steps)[finished_by(before).len() + i] == bet_id);
        } else {
            law_history_finishes_its_bets(s, before);
            lemma_queue_of_marked_bets(s, bet_id, finished_by(before));
            if finished_by(before).contains(bet_id) {
                let i = choose|i: int|
                    0 <= i < finished_by(before).len() && finished_by(before)[i] == bet_id;
                assert(finished_by(steps)[i] == bet_id);
            }
        }
    }
}

/// The queue holds no bets but old ones and marked ones.
proof fn lemma_queue_of_marked_bets(s: OcmModel, bet_id: Seq<char>, marked: Seq<Seq<char>>)
    requires
        s.mark_terminal_orders(marked).terminal_order_queue.contains(bet_id),
    ensures
        s.terminal_order_queue.contains(bet_id) || marked.contains(bet_id),
    decreases marked.len(),
{
    if marked.len() > 0 {
        let before = marked.drop_last();
        let t = s.mark_terminal_orders(before);
        let u = s.mark_terminal_orders(marked);
        let i = choose|i: int|
            0 <= i < u.terminal_order_queue.len() && u.terminal_order_queue[i] == bet_id;
        if bet_id == marked.last() {
            assert(marked[marked.len() - 1] == bet_id);
        } else {
            if t.expired_by(marked.last()) is Some {
                assert(t.terminal_order_queue[i + 1] == bet_id);
            } else {
                assert(t.terminal_order_queue[i] == bet_id);
            }
            lemma_queue_of_marked_bets(s, bet_id, before);
            if before.contains(bet_id) {
                let j = choose|j: int| 0 <= j < before.len() && before[j] == bet_id;
                assert(marked[j] == bet_id);
            }
        }
    }
}

proof fn lemma_sync_prunes_finished_bets(
    s: OcmModel,
    bet_id: Seq<char>,
    orders: Seq<OrderSyncEntryView>,
)
    requires
        s.sync_commands(orders).contains(FillTrackerCommandView::Prune { bet_id }),
    ensures
        s.terminal_order_queue.contains(bet_id) || closed_bets(orders).contains(bet_id),
    decreases orders.len(),
{
    let before = orders.drop_last();
    let t = s.sync_from_orders(before);
    let c = FillTrackerCommandView::Prune { bet_id };
    let commands = s.sync_commands(before);
    let closed = closed_bets(before);
    let k = choose|k: int|
        0 <= k < s.sync_commands(orders).len() && s.sync_commands(orders)[k] == c;
    if k < commands.len() {
        assert(commands[k] == c);
        lemma_sync_prunes_finished_bets(s, bet_id, before);
    } else {
        let entry = orders.last();
        assert(t.sync_entry_commands(entry)[k - commands.len()] == c);
        let queue = t.terminal_order_queue.push(entry.bet_id);
        assert(queue[0] == bet_id);
        if bet_id == entry.bet_id {
            assert(closed_bets(orders)[closed.len() as int] == bet_id);
        } else {
            assert(t.terminal_order_queue[0] == bet_id);
            law_sync_finishes_closed_orders(s, before);
            lemma_queue_of_marked_bets(s, bet_id, closed);
        }
    }
    if closed.contains(bet_id) {
        let i = choose|i: int| 0 <= i < closed.len() && closed[i] == bet_id;
        assert(closed_bets(orders)[i] == bet_id);
    }
}

// Strategies and acceptance.

/// The strategy that a history leaves recorded for the order: that of the last
/// record, unless the order was forgotten since.
pub open spec fn strategy_after(s: OcmModel, value: Seq<char>, steps: Seq<OcmStep>) -> Option<
    Seq<char>,
>
    decreases steps.len(),
{
    if steps.len() == 0 {
        if s.order_strategies.contains_key(value) {
            Some(s.order_strategies[value])
        } else {
            None
        }
    } else {
        let before = steps.drop_last();
        match steps.last() {
            OcmStep::RegisterOrderIdentity { id, strategy } if id.value == value => Some(strategy),
            step => if forgets_order(s.run(before), step, value) {
                None
            } else {
                strategy_after(s, value, before)
            },
        }
    }
}

/// The strategy of an order is the one that was recorded last, unless the order
/// was forgotten since.
pub proof fn law_strategy_is_the_last_recorded(
    s: OcmModel,
    id: ClientOrderIdView,
    steps: Seq<OcmStep>,
)
    ensures
        s.run(steps).order_strategy_id(id) == strategy_after(s, id.value, steps),
    decreases steps.len(),
{
    if steps.len() > 0 {
        law_strategy_is_the_last_recorded(s, id, steps.drop_last());
        lemma_step_of_sync(s.run(steps.drop_last()), steps.last());
    }
}

/// Taking over cached orders is the only call whose effect is recursive; it
/// changes references and finished bets only.
proof fn lemma_step_of_sync(s: OcmModel, step: OcmStep)
    ensures
        step matches OcmStep::SyncFromOrders { orders } ==> s.step(step) == (OcmModel {
            customer_order_refs: s.step(step).customer_order_refs,
            terminal_orders: s.step(step).terminal_orders,
            terminal_order_queue: s.step(step).terminal_order_queue,
            ..s
        }),
{
    if let OcmStep::SyncFromOrders { orders } = step {
        law_sync_touches_references_and_finished_bets_only(s, orders);
    }
}

/// Whether the call records a strategy for the order.
pub open spec fn records_strategy(step: OcmStep, value: Seq<char>) -> bool {
    step matches OcmStep::RegisterOrderIdentity { id, strategy } && id.value == value
}

/// A strategy that is unknown stays unknown until one is recorded, whatever
/// else is called.
pub proof fn law_unrecorded_strategy_is_unknown(
    s: OcmModel,
    id: ClientOrderIdView,
    steps: Seq<OcmStep>,
)
    requires
        s.order_strategy_id(id) is None,
        forall|i: int| 0 <= i < steps.len() ==> !records_strategy(#[trigger] steps[i], id.value),
    ensures
        s.run(steps).order_strategy_id(id) is None,
    decreases steps.len(),
{
    if steps.len() > 0 {
        let before = steps.drop_last();
        assert forall|i: int| 0 <= i < before.len() implies !records_strategy(
            #[trigger] before[i],
            id.value,
        ) by {
            assert(before[i] == steps[i]);
        }
        law_unrecorded_strategy_is_unknown(s, id, before);
        assert(!records_strategy(steps[steps.len() - 1], id.value));
        lemma_step_of_sync(s.run(before), steps.last());
    }
}

/// From a call that forgets an order on, its strategy is unknown until one is
/// recorded anew.
pub proof fn law_forgotten_strategy_is_unknown(
    s: OcmModel,
    step: OcmStep,
    id: ClientOrderIdView,
    steps: Seq<OcmStep>,
)
    requires
        forgets_order(s, step, id.value),
        forall|i: int| 0 <= i < steps.len() ==> !records_strategy(#[trigger] steps[i], id.value),
    ensures
        s.step(step).run(steps).order_strategy_id(id) is None,
{
    law_unrecorded_strategy_is_unknown(s.step(step), id, steps);
}

/// Whether a history leaves the order accepted: it was marked, and not
/// forgotten since.
pub open spec fn accepted_after(s: OcmModel, value: Seq<char>, steps: Seq<OcmStep>) -> bool
    decreases steps.len(),
{
    if steps.len() == 0 {
        s.accepted_orders.contains(value)
    } else {
        let before = steps.drop_last();
        match steps.last() {
            OcmStep::MarkAccepted { id } if id.value == value => true,
            step => accepted_after(s, value, before) && !forgets_order(s.run(before), step, value),
        }
    }
}

/// An order is accepted if it was marked, and not forgotten since; else its
/// acceptance may be emitted.
pub proof fn law_accepted_orders_are_those_marked(
    s: OcmModel,
    value: Seq<char>,
    steps: Seq<OcmStep>,
)
    ensures
        s.run(steps).accepted_orders.contains(value) == accepted_after(s, value, steps),
    decreases steps.len(),
{
    if steps.len() > 0 {
        law_accepted_orders_are_those_marked(s, value, steps.drop_last());
        lemma_step_of_sync(s.run(steps.drop_last()), steps.last());
    }
}

// References.

/// The last open order among the cached ones that is registered under the
/// reference.
pub open spec fn last_open_under(orders: Seq<OrderSyncEntryView>, rfo: Seq<char>) -> Option<
    ClientOrderIdView,
>
    decreases orders.len(),
{
    if orders.len() == 0 {
        None
    } else if !orders.last().is_closed && is_registered_under(rfo, orders.last().client_order_id) {
        Some(orders.last().client_order_id)
    } else {
        last_open_under(orders.drop_last(), rfo)
    }
}

/// The order that a history leaves the reference to find: the last one that
/// was registered under it, unless one whose reference it is was forgotten
/// since.
pub open spec fn found_after(s: OcmModel, rfo: Seq<char>, steps: Seq<OcmStep>) -> Option<
    ClientOrderIdView,
>
    decreases steps.len(),
{
    if steps.len() == 0 {
        s.resolve_client_order_id(Some(rfo))
    } else {
        let before = steps.drop_last();
        match steps.last() {
            OcmStep::RegisterCustomerOrderRef { id } if rfo == id.customer_order_ref => Some(id),
            OcmStep::RegisterCustomerOrderRefWithLegacy { id } if is_registered_under(rfo, id) =>
                Some(id),
            OcmStep::RemoveCustomerOrderRefs { id } if is_reference_of(rfo, id) => None,
            OcmStep::CleanupTerminalOrder { id } if is_reference_of(rfo, id) && !s.run(
                before,
            ).has_pending_update(id) => None,
            OcmStep::SyncFromOrders { orders } if last_open_under(orders, rfo) is Some =>
                last_open_under(orders, rfo),
            _ => found_after(s, rfo, before),
        }
    }
}

/// A reference finds the last order that was registered under it, unless one
/// whose reference it is was forgotten since.
pub proof fn law_references_find_the_last_registered(
    s: OcmModel,
    rfo: Seq<char>,
    steps: Seq<OcmStep>,
)
    ensures
        s.run(steps).resolve_client_order_id(Some(rfo)) == found_after(s, rfo, steps),
    decreases steps.len(),
{
    if steps.len() > 0 {
        let before = steps.drop_last();
        law_references_find_the_last_registered(s, rfo, before);
        if let OcmStep::SyncFromOrders { orders } = steps.last() {
            lemma_sync_finds_the_last_open(s.run(before), rfo, orders);
        }
    }
}

proof fn lemma_sync_finds_the_last_open(
    s: OcmModel,
    rfo: Seq<char>,
    orders: Seq<OrderSyncEntryView>,
)
    ensures
        s.sync_from_orders(orders).resolve_client_order_id(Some(rfo)) == (match last_open_under(
            orders,
            rfo,
        ) {
            Some(id) => Some(id),
            None => s.resolve_client_order_id(Some(rfo)),
        }),
    decreases orders.len(),
{
    if orders.len() > 0 {
        lemma_sync_finds_the_last_open(s, rfo, orders.drop_last());
    }
}

// Replaces.

/// Whether the call, in the state, ends the replace of the key: it completes,
/// clears or settles it, or reports a replacement bet that settles it.
pub open spec fn ends_replace(s: OcmModel, step: OcmStep, key: BetKeyView) -> bool {
    match step {
        OcmStep::CompletePendingReplace { id, bet_id } => key == (id.value, bet_id),
        OcmStep::ClearPendingReplace { id, bet_id } => key == (id.value, bet_id),
        OcmStep::SettleReplaces { keys } => keys.contains(key),
        OcmStep::ResolvePendingReplace { id, replacement_bet_id, instrument_id } => {
            &&& !s.replaced_venue_order_ids.contains(replacement_bet_id)
            &&& s.resolvable(id, replacement_bet_id, instrument_id).contains(key)
        },
        _ => false,
    }
}

/// The replace of the key that a history leaves under way: the one that was
/// registered last, with the last ambiguity mark since, unless it has ended.
pub open spec fn replace_after(s: OcmModel, key: BetKeyView, steps: Seq<OcmStep>) -> Option<
    PendingReplaceView,
>
    decreases steps.len(),
{
    if steps.len() == 0 {
        if s.pending_replaces.contains_key(key) {
            Some(s.pending_replaces[key])
        } else {
            None
        }
    } else {
        let before = steps.drop_last();
        let earlier = replace_after(s, key, before);
        match steps.last() {
            OcmStep::RegisterPendingReplace {
                id,
                bet_id,
                instrument_id,
                quantity,
                filled_qty,
            } if key == (id.value, bet_id) => Some(
                PendingReplaceView { instrument_id, quantity, filled_qty, reconcile_after: None },
            ),
            OcmStep::MarkPendingReplaceAmbiguous { id, bet_id, reconcile_after } if key == (
                id.value,
                bet_id,
            ) => match earlier {
                Some(pending) => Some(
                    PendingReplaceView { reconcile_after: Some(reconcile_after), ..pending },
                ),
                None => None,
            },
            step => if ends_replace(s.run(before), step, key) {
                None
            } else {
                earlier
            },
        }
    }
}

/// The replace under way for a bet is the one that was registered last, with
/// the last ambiguity mark since, unless it has ended.
pub proof fn law_pending_replace_is_the_last_registered(
    s: OcmModel,
    id: ClientOrderIdView,
    bet_id: Seq<char>,
    steps: Seq<OcmStep>,
)
    ensures
        s.run(steps).pending_replace_for_bet(id, bet_id) == replace_after(
            s,
            (id.value, bet_id),
            steps,
        ),
    decreases steps.len(),
{
    if steps.len() > 0 {
        law_pending_replace_is_the_last_registered(s, id, bet_id, steps.drop_last());
        lemma_step_of_sync(s.run(steps.drop_last()), steps.last());
    }
}

/// When the key's replace may be reconciled, by the last ambiguity mark since
/// the key's last registration, if there is one.
pub open spec fn last_mark(key: BetKeyView, steps: Seq<OcmStep>) -> Option<UnixNanos>
    decreases steps.len(),
{
    if steps.len() == 0 {
        None
    } else {
        match steps.last() {
            OcmStep::RegisterPendingReplace { id, bet_id, .. } if key == (id.value, bet_id) => None,
            OcmStep::MarkPendingReplaceAmbiguous { id, bet_id, reconcile_after } if key == (
                id.value,
                bet_id,
            ) => Some(reconcile_after),
            _ => last_mark(key, steps.drop_last()),
        }
    }
}

/// In every state that calls lead to, a replace under way may be reconciled
/// from the time on that its last ambiguity mark since its last registration
/// gave, and not at all if there is none.
pub proof fn law_pending_replace_has_the_last_mark(
    steps: Seq<OcmStep>,
    id: ClientOrderIdView,
    bet_id: Seq<char>,
    ts_now: UnixNanos,
)
    ensures
        ({
            let t = OcmModel::initial().run(steps);
            let mark = last_mark((id.value, bet_id), steps);
            &&& t.pending_replace_for_bet(id, bet_id) matches Some(pending)
                ==> pending.reconcile_after == mark
            &&& t.pending_replace_reconcilable(id, bet_id, ts_now) <==> {
                &&& t.pending_replace_for_bet(id, bet_id) is Some
                &&& mark matches Some(reconcile_after) && reconcile_after.nanos <= ts_now.nanos
            }
        }),
    decreases steps.len(),
{
    if steps.len() > 0 {
        let before = steps.drop_last();
        law_pending_replace_has_the_last_mark(before, id, bet_id, ts_now);
        lemma_step_of_sync(OcmModel::initial().run(before), steps.last());
    }
}

/// Whether a history leaves the bet replaced: a replace of it was completed
/// while under way, or it was settled.
pub open spec fn replaced_after(s: OcmModel, bet_id: Seq<char>, steps: Seq<OcmStep>) -> bool
    decreases steps.len(),
{
    if steps.len() == 0 {
        s.replaced_venue_order_ids.contains(bet_id)
    } else {
        let before = steps.drop_last();
        let t = s.run(before);
        ||| replaced_after(s, bet_id, before)
        ||| match steps.last() {
            OcmStep::CompletePendingReplace { id, bet_id: completed } => completed == bet_id
                && t.pending_replace_for_bet(id, bet_id) is Some,
            OcmStep::SettleReplaces { keys } => settles_bet(keys, bet_id),
            OcmStep::ResolvePendingReplace { id, replacement_bet_id, instrument_id } => {
                &&& !t.replaced_venue_order_ids.contains(replacement_bet_id)
                &&& t.resolvable(id, replacement_bet_id, instrument_id).contains((id.value, bet_id))
            },
            _ => false,
        }
    }
}

/// Whether the bet is that of one of the keys.
pub open spec fn settles_bet(keys: Seq<BetKeyView>, bet_id: Seq<char>) -> bool {
    exists|value: Seq<char>| #[trigger] keys.contains((value, bet_id))
}

/// A bet is replaced exactly if a replace of it was completed while under way,
/// or it was settled.
pub proof fn law_replaced_bets_are_those_settled(
    s: OcmModel,
    bet_id: Seq<char>,
    steps: Seq<OcmStep>,
)
    ensures
        s.run(steps).replaced_venue_order_ids.contains(bet_id) == replaced_after(s, bet_id, steps),
    decreases steps.len(),
{
    if steps.len() > 0 {
        let before = steps.drop_last();
        let t = s.run(before);
        law_replaced_bets_are_those_settled(s, bet_id, before);
        lemma_step_of_sync(t, steps.last());
        if let OcmStep::SettleReplaces { keys } = steps.last() {
            if settles_bet(keys, bet_id) {
                let value = choose|value: Seq<char>| #[trigger] keys.contains((value, bet_id));
                assert(keys.to_set().contains((value, bet_id)));
            }
        }
    }
}

/// In every state that calls lead to, cancels of a bet are suppressed exactly
/// while its replace is under way, and once the bet is replaced.
pub proof fn law_cancels_are_suppressed_by_replaces_only(
    steps: Seq<OcmStep>,
    id: ClientOrderIdView,
    bet_id: Seq<char>,
)
    ensures
        OcmModel::initial().run(steps).should_suppress_cancel(id, bet_id) <==> {
            ||| replace_after(OcmModel::initial(), (id.value, bet_id), steps) is Some
            ||| replaced_after(OcmModel::initial(), bet_id, steps)
        },
{
    law_reachable_states_are_consistent(steps);
    law_pending_replace_is_the_last_registered(OcmModel::initial(), id, bet_id, steps);
    law_replaced_bets_are_those_settled(OcmModel::initial(), bet_id, steps);
}

// Quantity updates.

/// The update of the key's quantity that a history leaves under way: the one
/// that was registered last, unless it was confirmed or cleared since.
pub open spec fn quantity_update_after(
    s: OcmModel,
    key: BetKeyView,
    steps: Seq<OcmStep>,
) -> Option<PendingQuantityUpdate>
    decreases steps.len(),
{
    if steps.len() == 0 {
        if s.pending_quantity_updates.contains_key(key) {
            Some(s.pending_quantity_updates[key])
        } else {
            None
        }
    } else {
        let before = steps.drop_last();
        match steps.last() {
            OcmStep::RegisterPendingQuantityUpdate { id, bet_id, original, requested } if key == (
                id.value,
                bet_id,
            ) => Some(PendingQuantityUpdate { original, requested }),
            OcmStep::ClearPendingQuantityUpdate { id, bet_id } if key == (id.value, bet_id) => None,
            step => if confirms(s.run(before), step, key) is Some {
                None
            } else {
                quantity_update_after(s, key, before)
            },
        }
    }
}

/// The quantity that the call, in the state, confirms the key's update with.
pub open spec fn confirms(s: OcmModel, step: OcmStep, key: BetKeyView) -> Option<Quantity> {
    match step {
        OcmStep::ResolvePendingQuantityUpdate { id, bet_id, active_quantity } if key == (
            id.value,
            bet_id,
        ) && s.is_definitive_reduction(id, bet_id, active_quantity) => Some(active_quantity),
        OcmStep::CompletePendingQuantityUpdate { id, bet_id, quantity } if key == (id.value, bet_id)
            && s.pending_quantity_updates.contains_key(key) => Some(quantity),
        _ => None,
    }
}

/// The quantity that a history leaves confirmed for the key: that of the last
/// confirmation, unless the update was cleared since.
pub open spec fn confirmed_after(s: OcmModel, key: BetKeyView, steps: Seq<OcmStep>) -> Option<
    Quantity,
>
    decreases steps.len(),
{
    if steps.len() == 0 {
        if s.confirmed_quantity_updates.contains_key(key) {
            Some(s.confirmed_quantity_updates[key])
        } else {
            None
        }
    } else {
        let before = steps.drop_last();
        match steps.last() {
            OcmStep::ClearPendingQuantityUpdate { id, bet_id } if key == (id.value, bet_id) => None,
            step => match confirms(s.run(before), step, key) {
                Some(quantity) => Some(quantity),
                None => confirmed_after(s, key, before),
            },
        }
    }
}

/// The quantity update under way for a bet is the one that was registered last,
/// unless it was confirmed or cleared since; and the confirmed quantity is that
/// of the last confirmation, unless the update was cleared since.
pub proof fn law_quantity_updates_are_the_last(
    s: OcmModel,
    id: ClientOrderIdView,
    bet_id: Seq<char>,
    steps: Seq<OcmStep>,
)
    ensures
        ({
            let t = s.run(steps);
            let key = (id.value, bet_id);
            &&& quantity_update_after(s, key, steps) == (if t.pending_quantity_updates.contains_key(
                key,
            ) {
                Some(t.pending_quantity_updates[key])
            } else {
                None
            })
            &&& t.confirmed_quantity_update(id, bet_id) == confirmed_after(s, key, steps)
        }),
    decreases steps.len(),
{
    if steps.len() > 0 {
        law_quantity_updates_are_the_last(s, id, bet_id, steps.drop_last());
        lemma_step_of_sync(s.run(steps.drop_last()), steps.last());
    }
}

} // verus!
