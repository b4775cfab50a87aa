//! The plain values that the OCM state is made of.
use vstd::prelude::*;

use crate::decimal::Decimal;

verus! {

/// The identifier that a client gave an order, with the customer order
/// references that the order is known by at the venue.
///
/// Two identifiers are the same if their `value` is: the references are
/// derived from it.
#[derive(Debug)]
pub struct ClientOrderId {
    /// The full identifier.
    pub value: String,
    /// The reference that new orders are placed under.
    pub customer_order_ref: String,
    /// The reference that orders were placed under before, which is `value`
    /// itself if the identifier needed no truncation.
    pub legacy_customer_order_ref: String,
}

/// The view of a `ClientOrderId`.
#[verifier::ext_equal]
pub struct ClientOrderIdView {
    pub value: Seq<char>,
    pub customer_order_ref: Seq<char>,
    pub legacy_customer_order_ref: Seq<char>,
}

impl View for ClientOrderId {
    type V = ClientOrderIdView;

    open spec fn view(&self) -> ClientOrderIdView {
        ClientOrderIdView {
            value: self.value@,
            customer_order_ref: self.customer_order_ref@,
            legacy_customer_order_ref: self.legacy_customer_order_ref@,
        }
    }
}

impl Clone for ClientOrderId {
    fn clone(&self) -> (r: Self)
        ensures
            r == *self,
    {
        ClientOrderId {
            value: self.value.clone(),
            customer_order_ref: self.customer_order_ref.clone(),
            legacy_customer_order_ref: self.legacy_customer_order_ref.clone(),
        }
    }
}

impl PartialEq for ClientOrderId {
    fn eq(&self, other: &Self) -> (r: bool) {
        self.value == other.value
    }
}

impl vstd::std_specs::cmp::PartialEqSpecImpl for ClientOrderId {
    open spec fn obeys_eq_spec() -> bool {
        true
    }

    open spec fn eq_spec(&self, other: &Self) -> bool {
        self.value@ == other.value@
    }
}

/// The identifier of the strategy that submitted an order.
#[derive(Debug)]
pub struct StrategyId {
    pub value: String,
}

impl View for StrategyId {
    type V = Seq<char>;

    open spec fn view(&self) -> Seq<char> {
        self.value@
    }
}

impl Clone for StrategyId {
    fn clone(&self) -> (r: Self)
        ensures
            r == *self,
    {
        StrategyId { value: self.value.clone() }
    }
}

impl PartialEq for StrategyId {
    fn eq(&self, other: &Self) -> (r: bool) {
        self.value == other.value
    }
}

impl vstd::std_specs::cmp::PartialEqSpecImpl for StrategyId {
    open spec fn obeys_eq_spec() -> bool {
        true
    }

    open spec fn eq_spec(&self, other: &Self) -> bool {
        self@ == other@
    }
}

/// The identifier of an instrument: a symbol at a venue.
#[derive(Debug)]
pub struct InstrumentId {
    pub symbol: String,
    pub venue: String,
}

/// The view of an `InstrumentId`.
#[verifier::ext_equal]
pub struct InstrumentIdView {
    pub symbol: Seq<char>,
    pub venue: Seq<char>,
}

impl View for InstrumentId {
    type V = InstrumentIdView;

    open spec fn view(&self) -> InstrumentIdView {
        InstrumentIdView { symbol: self.symbol@, venue: self.venue@ }
    }
}

impl Clone for InstrumentId {
    fn clone(&self) -> (r: Self)
        ensures
            r == *self,
    {
        InstrumentId { symbol: self.symbol.clone(), venue: self.venue.clone() }
    }
}

impl PartialEq for InstrumentId {
    fn eq(&self, other: &Self) -> (r: bool) {
        self.symbol == other.symbol && self.venue == other.venue
    }
}

impl vstd::std_specs::cmp::PartialEqSpecImpl for InstrumentId {
    open spec fn obeys_eq_spec() -> bool {
        true
    }

    open spec fn eq_spec(&self, other: &Self) -> bool {
        self@ == other@
    }
}

/// An order quantity: `raw` fixed-point units of one common scale, and the
/// number of decimals that it is shown with. Quantities compare by `raw`.
#[derive(Clone, Copy, Debug)]
pub struct Quantity {
    pub raw: u128,
    pub precision: u8,
}

impl PartialEq for Quantity {
    fn eq(&self, other: &Self) -> (r: bool) {
        self.raw == other.raw
    }
}

impl vstd::std_specs::cmp::PartialEqSpecImpl for Quantity {
    open spec fn obeys_eq_spec() -> bool {
        true
    }

    open spec fn eq_spec(&self, other: &Self) -> bool {
        self.raw == other.raw
    }
}

impl PartialOrd for Quantity {
    fn partial_cmp(&self, other: &Self) -> (r: Option<core::cmp::Ordering>) {
        self.raw.partial_cmp(&other.raw)
    }
}

impl vstd::std_specs::cmp::PartialOrdSpecImpl for Quantity {
    open spec fn obeys_partial_cmp_spec() -> bool {
        true
    }

    open spec fn partial_cmp_spec(&self, other: &Self) -> Option<core::cmp::Ordering> {
        if self.raw < other.raw {
            Some(core::cmp::Ordering::Less)
        } else if self.raw > other.raw {
            Some(core::cmp::Ordering::Greater)
        } else {
            Some(core::cmp::Ordering::Equal)
        }
    }
}

/// A point in time, in nanoseconds since the Unix epoch.
#[derive(Clone, Copy, Debug, PartialEq, Eq, Structural)]
pub struct UnixNanos {
    pub nanos: u64,
}

/// A replace that the venue has not confirmed yet.
#[derive(Debug)]
pub struct PendingReplace {
    /// The instrument of the order that is being replaced.
    pub instrument_id: InstrumentId,
    /// The quantity of the order.
    pub quantity: Quantity,
    /// The part of the quantity that was filled when the replace was sent.
    pub filled_qty: Quantity,
    /// When the outcome may be reconciled, once it turned out ambiguous.
    pub reconcile_after: Option<UnixNanos>,
}

/// The view of a `PendingReplace`.
#[verifier::ext_equal]
pub struct PendingReplaceView {
    pub instrument_id: InstrumentIdView,
    pub quantity: Quantity,
    pub filled_qty: Quantity,
    pub reconcile_after: Option<UnixNanos>,
}

impl View for PendingReplace {
    type V = PendingReplaceView;

    open spec fn view(&self) -> PendingReplaceView {
        PendingReplaceView {
            instrument_id: self.instrument_id@,
            quantity: self.quantity,
            filled_qty: self.filled_qty,
            reconcile_after: self.reconcile_after,
        }
    }
}

impl Clone for PendingReplace {
    fn clone(&self) -> (r: Self)
        ensures
            r == *self,
    {
        PendingReplace {
            instrument_id: self.instrument_id.clone(),
            quantity: self.quantity,
            filled_qty: self.filled_qty,
            reconcile_after: self.reconcile_after,
        }
    }
}

/// A quantity reduction that the venue has not confirmed yet.
#[derive(Clone, Copy, Debug)]
pub struct PendingQuantityUpdate {
    /// The quantity before the update.
    pub original: Quantity,
    /// The quantity that was asked for.
    pub requested: Quantity,
}

/// What the cache knows of an order when the stream reconnects.
#[derive(Debug)]
pub struct OrderSyncEntry {
    pub bet_id: String,
    pub client_order_id: ClientOrderId,
    pub is_closed: bool,
    pub filled_qty: Decimal,
    pub avg_px: Decimal,
    /// The trades of the order that were published already.
    pub trade_ids: Vec<String>,
}

/// The view of an `OrderSyncEntry`.
#[verifier::ext_equal]
pub struct OrderSyncEntryView {
    pub bet_id: Seq<char>,
    pub client_order_id: ClientOrderIdView,
    pub is_closed: bool,
    pub filled_qty: Decimal,
    pub avg_px: Decimal,
    pub trade_ids: Seq<Seq<char>>,
}

impl View for OrderSyncEntry {
    type V = OrderSyncEntryView;

    open spec fn view(&self) -> OrderSyncEntryView {
        OrderSyncEntryView {
            bet_id: self.bet_id@,
            client_order_id: self.client_order_id@,
            is_closed: self.is_closed,
            filled_qty: self.filled_qty,
            avg_px: self.avg_px,
            trade_ids: string_views(self.trade_ids@),
        }
    }
}

/// What the fill tracker of the stream is told to do.
#[derive(Debug)]
pub enum FillTrackerCommand {
    /// Forget everything about the bet.
    Prune { bet_id: String },
    /// Take the bet as filled up to `filled_qty`, at `avg_px` on average.
    SyncOrder { bet_id: String, filled_qty: Decimal, avg_px: Decimal },
    /// Take the trades as published.
    SeedPublishedTradeIds { trade_ids: Vec<String> },
}

/// The view of a `FillTrackerCommand`.
#[verifier::ext_equal]
pub enum FillTrackerCommandView {
    Prune { bet_id: Seq<char> },
    SyncOrder { bet_id: Seq<char>, filled_qty: Decimal, avg_px: Decimal },
    SeedPublishedTradeIds { trade_ids: Seq<Seq<char>> },
}

impl View for FillTrackerCommand {
    type V = FillTrackerCommandView;

    open spec fn view(&self) -> FillTrackerCommandView {
        match *self {
            FillTrackerCommand::Prune { bet_id } => FillTrackerCommandView::Prune {
                bet_id: bet_id@,
            },
            FillTrackerCommand::SyncOrder { bet_id, filled_qty, avg_px } =>
                FillTrackerCommandView::SyncOrder { bet_id: bet_id@, filled_qty, avg_px },
            FillTrackerCommand::SeedPublishedTradeIds { trade_ids } =>
                FillTrackerCommandView::SeedPublishedTradeIds {
                trade_ids: string_views(trade_ids@),
            },
        }
    }
}

/// The views of the strings of a list.
pub open spec fn string_views(strings: Seq<String>) -> Seq<Seq<char>> {
    Seq::new(strings.len(), |i: int| strings[i]@)
}

/// The views of the cached orders of a list.
pub open spec fn entry_views(orders: Seq<OrderSyncEntry>) -> Seq<OrderSyncEntryView> {
    Seq::new(orders.len(), |i: int| orders[i]@)
}

/// The views of the commands of a list.
pub open spec fn command_views(commands: Seq<FillTrackerCommand>) -> Seq<FillTrackerCommandView> {
    Seq::new(commands.len(), |i: int| commands[i]@)
}

/// The view of an optional value.
pub open spec fn option_view<T: View>(o: Option<T>) -> Option<T::V> {
    match o {
        Some(t) => Some(t@),
        None => None,
    }
}

} // verus!
