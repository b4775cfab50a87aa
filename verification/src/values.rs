//! What the views of plain values show, and what their comparisons mean.
use vstd::prelude::*;
use vstd::std_specs::cmp::{PartialEqSpec, PartialOrdSpec};

use crate::collections::{key_views, BetKey};
use crate::decimal::is_decimal;
use crate::types::{
    command_views, entry_views, option_view, string_views, ClientOrderId, FillTrackerCommand,
    FillTrackerCommandView, InstrumentId, OrderSyncEntry, PendingReplace, Quantity, StrategyId,
};

verus! {

/// The view of an order's identifier shows the identifier and each reference
/// in its own place.
pub proof fn law_order_views_show_the_references(id: ClientOrderId)
    ensures
        id@.value == id.value@,
        id@.customer_order_ref == id.customer_order_ref@,
        id@.legacy_customer_order_ref == id.legacy_customer_order_ref@,
{
}

/// The views of a strategy and of an instrument show what they are made of.
pub proof fn law_names_are_shown(strategy: StrategyId, instrument: InstrumentId)
    ensures
        strategy@ == strategy.value@,
        instrument@.symbol == instrument.symbol@,
        instrument@.venue == instrument.venue@,
{
}

/// The view of a replace shows each of its terms in its own place.
pub proof fn law_replace_views_show_the_terms(pending: PendingReplace)
    ensures
        pending@.instrument_id.symbol == pending.instrument_id.symbol@,
        pending@.instrument_id.venue == pending.instrument_id.venue@,
        pending@.quantity == pending.quantity,
        pending@.filled_qty == pending.filled_qty,
        pending@.reconcile_after == pending.reconcile_after,
{
}

/// The view of a cached order shows what the cache knows, trade by trade.
pub proof fn law_cached_order_views_show_the_cache(entry: OrderSyncEntry, i: int)
    ensures
        entry@.bet_id == entry.bet_id@,
        entry@.client_order_id.value == entry.client_order_id.value@,
        entry@.client_order_id.customer_order_ref == entry.client_order_id.customer_order_ref@,
        entry@.client_order_id.legacy_customer_order_ref
            == entry.client_order_id.legacy_customer_order_ref@,
        entry@.is_closed == entry.is_closed,
        entry@.filled_qty == entry.filled_qty,
        entry@.avg_px == entry.avg_px,
        entry@.trade_ids.len() == entry.trade_ids@.len(),
        0 <= i < entry.trade_ids@.len() ==> entry@.trade_ids[i] == entry.trade_ids@[i]@,
{
}

/// The view of a command that forgets a bet shows the bet.
pub proof fn law_prune_views_show_the_bet(command: FillTrackerCommand, bet_id: Seq<char>)
    ensures
        command@ == (FillTrackerCommandView::Prune { bet_id }) <==> (command matches
            FillTrackerCommand::Prune { bet_id: held } && held@ == bet_id),
{
}

/// The view of a command that anchors a fill shows the bet, the filled quantity
/// and the price.
pub proof fn law_sync_views_show_the_fill(command: FillTrackerCommand)
    ensures
        command is SyncOrder <==> command@ is SyncOrder,
        command matches FillTrackerCommand::SyncOrder { bet_id, filled_qty, avg_px } ==> command@
            == (FillTrackerCommandView::SyncOrder { bet_id: bet_id@, filled_qty, avg_px }),
{
}

/// The view of a command that seeds trades shows each of them.
pub proof fn law_seed_views_show_the_trades(command: FillTrackerCommand, i: int)
    ensures
        command is SeedPublishedTradeIds <==> command@ is SeedPublishedTradeIds,
        command matches FillTrackerCommand::SeedPublishedTradeIds { trade_ids } ==> {
            &&& command@->trade_ids.len() == trade_ids@.len()
            &&& 0 <= i < trade_ids@.len() ==> command@->trade_ids[i] == trade_ids@[i]@
        },
{
}

/// The views of a list show its elements one by one, in their order.
pub proof fn law_list_views_show_each_element(
    strings: Seq<String>,
    keys: Seq<BetKey>,
    orders: Seq<OrderSyncEntry>,
    commands: Seq<FillTrackerCommand>,
    i: int,
)
    ensures
        string_views(strings).len() == strings.len(),
        0 <= i < strings.len() ==> string_views(strings)[i] == strings[i]@,
        key_views(keys).len() == keys.len(),
        0 <= i < keys.len() ==> key_views(keys)[i] == (keys[i].0@, keys[i].1@),
        entry_views(orders).len() == orders.len(),
        0 <= i < orders.len() ==> entry_views(orders)[i] == orders[i]@,
        command_views(commands).len() == commands.len(),
        0 <= i < commands.len() ==> command_views(commands)[i] == commands[i]@,
{
}

/// The view of an optional value is there exactly if the value is, and is that
/// of the value.
pub proof fn law_optional_views_show_the_value<T: View>(o: Option<T>)
    ensures
        o is Some <==> option_view(o) is Some,
        o matches Some(t) ==> option_view(o) == Some(t@),
{
}

/// Orders compare by their identifier alone, strategies by theirs, and
/// instruments by symbol and venue.
pub proof fn law_names_are_compared_whole(
    order: ClientOrderId,
    other_order: ClientOrderId,
    strategy: StrategyId,
    other_strategy: StrategyId,
    instrument: InstrumentId,
    other_instrument: InstrumentId,
)
    ensures
        order.eq_spec(&other_order) <==> order.value@ == other_order.value@,
        strategy.eq_spec(&other_strategy) <==> strategy.value@ == other_strategy.value@,
        instrument.eq_spec(&other_instrument) <==> {
            &&& instrument.symbol@ == other_instrument.symbol@
            &&& instrument.venue@ == other_instrument.venue@
        },
{
}

/// Quantities compare by their units alone, however many decimals they are
/// shown with.
pub proof fn law_quantities_compare_by_units(a: Quantity, b: Quantity)
    ensures
        a.eq_spec(&b) <==> a.raw == b.raw,
        a.partial_cmp_spec(&b) == Some(core::cmp::Ordering::Less) <==> a.raw < b.raw,
        a.partial_cmp_spec(&b) == Some(core::cmp::Ordering::Equal) <==> a.raw == b.raw,
        a.partial_cmp_spec(&b) == Some(core::cmp::Ordering::Greater) <==> a.raw > b.raw,
{
}

/// A decimal has a mantissa of up to 96 bits, of either sign, and up to 28
/// decimals.
pub proof fn law_decimals_are_bounded(mantissa: i128, scale: u32)
    ensures
        is_decimal(mantissa, scale) <==> {
            &&& -79_228_162_514_264_337_593_543_950_336 < mantissa
            &&& mantissa < 79_228_162_514_264_337_593_543_950_336
            &&& scale < 29
        },
{
}

} // verus!
