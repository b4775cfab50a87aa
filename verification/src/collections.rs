//! Trusted access to the hash collections of `ahash`.
//!
//! `AHashMap` and `AHashSet` are the hash map and the hash set of std with
//! another hasher. Each instance that the state uses has a name for what it
//! holds, over views, and a function for each method that the state calls.
//! The keys are strings and pairs of strings, whose equality and hash are
//! std's.
use ahash::{AHashMap, AHashSet, RandomState};
use vstd::prelude::*;

use crate::types::{
    ClientOrderId, ClientOrderIdView, PendingQuantityUpdate, PendingReplace, PendingReplaceView,
    Quantity, StrategyId,
};

verus! {

/// A client order identifier and a bet identifier.
pub type BetKey = (String, String);

/// The view of a `BetKey`.
pub type BetKeyView = (Seq<char>, Seq<char>);

/// The views of the keys of a list.
pub open spec fn key_views(keys: Seq<BetKey>) -> Seq<BetKeyView> {
    Seq::new(keys.len(), |i: int| keys[i]@)
}

/// `ahash::AHashMap`, as an opaque type.
#[verifier::external_type_specification]
#[verifier::external_body]
#[verifier::reject_recursive_types(K)]
#[verifier::reject_recursive_types(V)]
#[verifier::reject_recursive_types(S)]
pub struct ExAHashMap<K, V, S>(AHashMap<K, V, S>);

/// `ahash::AHashSet`, as an opaque type.
#[verifier::external_type_specification]
#[verifier::external_body]
#[verifier::reject_recursive_types(T)]
#[verifier::reject_recursive_types(S)]
pub struct ExAHashSet<T, S>(AHashSet<T, S>);

/// `ahash::RandomState`, the hasher state of both, as an opaque type.
#[verifier::external_type_specification]
#[verifier::external_body]
pub struct ExRandomState(RandomState);

// Sets of identifiers.

/// What a set of identifiers holds.
pub uninterp spec fn id_set(s: AHashSet<String>) -> Set<Seq<char>>;

/// `AHashSet::new`: an empty set.
#[verifier::external_body]
pub(crate) fn id_set_new() -> (s: AHashSet<String>)
    ensures
        id_set(s) == Set::<Seq<char>>::empty(),
{
    AHashSet::new()
}

/// `insert`, on the `HashSet` that an `AHashSet` dereferences to: adds the
/// identifier, and says whether it was not there before.
#[verifier::external_body]
pub(crate) fn id_set_insert(s: &mut AHashSet<String>, id: String) -> (fresh: bool)
    ensures
        id_set(*final(s)) == id_set(*old(s)).insert(id@),
        fresh == !id_set(*old(s)).contains(id@),
{
    s.insert(id)
}

/// `remove`, on the `HashSet` that an `AHashSet` dereferences to: takes the
/// identifier out, and says whether it was there.
#[verifier::external_body]
pub(crate) fn id_set_remove(s: &mut AHashSet<String>, id: &str) -> (found: bool)
    ensures
        id_set(*final(s)) == id_set(*old(s)).remove(id@),
        found == id_set(*old(s)).contains(id@),
{
    s.remove(id)
}

/// `contains`, on the `HashSet` that an `AHashSet` dereferences to.
#[verifier::external_body]
pub(crate) fn id_set_contains(s: &AHashSet<String>, id: &str) -> (found: bool)
    ensures
        found == id_set(*s).contains(id@),
{
    s.contains(id)
}

// Sets of bet keys.

/// What a set of bet keys holds.
pub uninterp spec fn key_set(s: AHashSet<BetKey>) -> Set<BetKeyView>;

/// `AHashSet::new`: an empty set.
#[verifier::external_body]
pub(crate) fn key_set_new() -> (s: AHashSet<BetKey>)
    ensures
        key_set(s) == Set::<BetKeyView>::empty(),
{
    AHashSet::new()
}

/// `insert`, on the `HashSet` that an `AHashSet` dereferences to: adds the
/// key, and says whether it was not there before.
#[verifier::external_body]
pub(crate) fn key_set_insert(s: &mut AHashSet<BetKey>, key: BetKey) -> (fresh: bool)
    ensures
        key_set(*final(s)) == key_set(*old(s)).insert(key@),
        fresh == !key_set(*old(s)).contains(key@),
{
    s.insert(key)
}

/// `remove`, on the `HashSet` that an `AHashSet` dereferences to: takes the
/// key out, and says whether it was there.
#[verifier::external_body]
pub(crate) fn key_set_remove(s: &mut AHashSet<BetKey>, key: &BetKey) -> (found: bool)
    ensures
        key_set(*final(s)) == key_set(*old(s)).remove(key@),
        found == key_set(*old(s)).contains(key@),
{
    s.remove(key)
}

/// `contains`, on the `HashSet` that an `AHashSet` dereferences to.
#[verifier::external_body]
pub(crate) fn key_set_contains(s: &AHashSet<BetKey>, key: &BetKey) -> (found: bool)
    ensures
        found == key_set(*s).contains(key@),
{
    s.contains(key)
}

/// `iter`, on the `HashSet` that an `AHashSet` dereferences to: hands out each
/// key once. The order of the keys is open.
#[verifier::external_body]
pub(crate) fn key_set_items(s: &AHashSet<BetKey>) -> (keys: Vec<BetKey>)
    ensures
        key_views(keys@).to_set() == key_set(*s),
        key_views(keys@).no_duplicates(),
{
    s.iter().cloned().collect()
}

// The map of customer order references.

/// What a map of customer order references holds.
pub uninterp spec fn ref_map(m: AHashMap<String, ClientOrderId>) -> Map<Seq<char>, ClientOrderIdView>;

/// `AHashMap::new`: an empty map.
#[verifier::external_body]
pub(crate) fn ref_map_new() -> (m: AHashMap<String, ClientOrderId>)
    ensures
        (ref_map(m) == Map::<Seq<char>, ClientOrderIdView>::empty()),
{
    AHashMap::new()
}

/// `AHashMap::insert`: maps the key to the value, in place of any earlier one.
#[verifier::external_body]
pub(crate) fn ref_map_insert(m: &mut AHashMap<String, ClientOrderId>, key: String, v: ClientOrderId)
    ensures
        ref_map(*final(m)) == ref_map(*old(m)).insert(key@, v@),
{
    m.insert(key, v);
}

/// `AHashMap::remove`: takes the key out, and returns the value that it had.
#[verifier::external_body]
pub(crate) fn ref_map_remove(m: &mut AHashMap<String, ClientOrderId>, key: &str) -> (r: Option<ClientOrderId>)
    ensures
        ref_map(*final(m)) == ref_map(*old(m)).remove(key@),
        r is Some <==> ref_map(*old(m)).contains_key(key@),
        r matches Some(v) ==> v@ == ref_map(*old(m))[key@],
{
    m.remove(key)
}

/// `AHashMap::get`: the value that the key is mapped to.
#[verifier::external_body]
pub(crate) fn ref_map_get<'a>(m: &'a AHashMap<String, ClientOrderId>, key: &str) -> (r: Option<&'a ClientOrderId>)
    ensures
        r is Some <==> ref_map(*m).contains_key(key@),
        r matches Some(v) ==> v@ == ref_map(*m)[key@],
{
    m.get(key)
}

// The map of submitting strategies.

/// What a map of submitting strategies holds.
pub uninterp spec fn strategy_map(m: AHashMap<String, StrategyId>) -> Map<Seq<char>, Seq<char>>;

/// `AHashMap::new`: an empty map.
#[verifier::external_body]
pub(crate) fn strategy_map_new() -> (m: AHashMap<String, StrategyId>)
    ensures
        (strategy_map(m) == Map::<Seq<char>, Seq<char>>::empty()),
{
    AHashMap::new()
}

/// `AHashMap::insert`: maps the key to the value, in place of any earlier one.
#[verifier::external_body]
pub(crate) fn strategy_map_insert(m: &mut AHashMap<String, StrategyId>, key: String, v: StrategyId)
    ensures
        strategy_map(*final(m)) == strategy_map(*old(m)).insert(key@, v@),
{
    m.insert(key, v);
}

/// `AHashMap::remove`: takes the key out, and returns the value that it had.
#[verifier::external_body]
pub(crate) fn strategy_map_remove(m: &mut AHashMap<String, StrategyId>, key: &str) -> (r: Option<StrategyId>)
    ensures
        strategy_map(*final(m)) == strategy_map(*old(m)).remove(key@),
        r is Some <==> strategy_map(*old(m)).contains_key(key@),
        r matches Some(v) ==> v@ == strategy_map(*old(m))[key@],
{
    m.remove(key)
}

/// `AHashMap::get`: the value that the key is mapped to.
#[verifier::external_body]
pub(crate) fn strategy_map_get<'a>(m: &'a AHashMap<String, StrategyId>, key: &str) -> (r: Option<&'a StrategyId>)
    ensures
        r is Some <==> strategy_map(*m).contains_key(key@),
        r matches Some(v) ==> v@ == strategy_map(*m)[key@],
{
    m.get(key)
}

// The map of pending replaces.

/// What a map of pending replaces holds.
pub uninterp spec fn replace_map(m: AHashMap<BetKey, PendingReplace>) -> Map<BetKeyView, PendingReplaceView>;

/// `AHashMap::new`: an empty map.
#[verifier::external_body]
pub(crate) fn replace_map_new() -> (m: AHashMap<BetKey, PendingReplace>)
    ensures
        (replace_map(m) == Map::<BetKeyView, PendingReplaceView>::empty()),
{
    AHashMap::new()
}

/// `AHashMap::insert`: maps the key to the value, in place of any earlier one.
#[verifier::external_body]
pub(crate) fn replace_map_insert(m: &mut AHashMap<BetKey, PendingReplace>, key: BetKey, v: PendingReplace)
    ensures
        replace_map(*final(m)) == replace_map(*old(m)).insert(key@, v@),
{
    m.insert(key, v);
}

/// `AHashMap::remove`: takes the key out, and returns the value that it had.
#[verifier::external_body]
pub(crate) fn replace_map_remove(m: &mut AHashMap<BetKey, PendingReplace>, key: &BetKey) -> (r: Option<PendingReplace>)
    ensures
        replace_map(*final(m)) == replace_map(*old(m)).remove(key@),
        r is Some <==> replace_map(*old(m)).contains_key(key@),
        r matches Some(v) ==> v@ == replace_map(*old(m))[key@],
{
    m.remove(key)
}

/// `AHashMap::get`: the value that the key is mapped to.
#[verifier::external_body]
pub(crate) fn replace_map_get<'a>(m: &'a AHashMap<BetKey, PendingReplace>, key: &BetKey) -> (r: Option<&'a PendingReplace>)
    ensures
        r is Some <==> replace_map(*m).contains_key(key@),
        r matches Some(v) ==> v@ == replace_map(*m)[key@],
{
    m.get(key)
}

/// `AHashMap::get_mut`: the value that the key is mapped to, to be changed in
/// place.
#[verifier::external_body]
pub(crate) fn replace_map_get_mut<'a>(m: &'a mut AHashMap<BetKey, PendingReplace>, key: &BetKey) -> (r: Option<
    &'a mut PendingReplace,
>)
    ensures
        r is Some <==> replace_map(*old(m)).contains_key(key@),
        match r {
            Some(v) => {
                &&& v@ == replace_map(*old(m))[key@]
                &&& replace_map(*final(m)) == replace_map(*old(m)).insert(key@, final(v)@)
            },
            None => replace_map(*final(m)) == replace_map(*old(m)),
        },
{
    m.get_mut(key)
}

/// `keys`, on the `HashMap` that an `AHashMap` dereferences to: hands out each
/// key once. The order of the keys is open.
#[verifier::external_body]
pub(crate) fn replace_map_keys(m: &AHashMap<BetKey, PendingReplace>) -> (keys: Vec<BetKey>)
    ensures
        key_views(keys@).to_set() == replace_map(*m).dom(),
        key_views(keys@).no_duplicates(),
{
    m.keys().cloned().collect()
}

// The map of pending quantity updates.

/// What a map of pending quantity updates holds.
pub uninterp spec fn quantity_update_map(m: AHashMap<BetKey, PendingQuantityUpdate>) -> Map<BetKeyView, PendingQuantityUpdate>;

/// `AHashMap::new`: an empty map.
#[verifier::external_body]
pub(crate) fn quantity_update_map_new() -> (m: AHashMap<BetKey, PendingQuantityUpdate>)
    ensures
        (quantity_update_map(m) == Map::<BetKeyView, PendingQuantityUpdate>::empty()),
{
    AHashMap::new()
}

/// `AHashMap::insert`: maps the key to the value, in place of any earlier one.
#[verifier::external_body]
pub(crate) fn quantity_update_map_insert(m: &mut AHashMap<BetKey, PendingQuantityUpdate>, key: BetKey, v: PendingQuantityUpdate)
    ensures
        quantity_update_map(*final(m)) == quantity_update_map(*old(m)).insert(key@, v),
{
    m.insert(key, v);
}

/// `AHashMap::remove`: takes the key out, and returns the value that it had.
#[verifier::external_body]
pub(crate) fn quantity_update_map_remove(m: &mut AHashMap<BetKey, PendingQuantityUpdate>, key: &BetKey) -> (r: Option<PendingQuantityUpdate>)
    ensures
        quantity_update_map(*final(m)) == quantity_update_map(*old(m)).remove(key@),
        r is Some <==> quantity_update_map(*old(m)).contains_key(key@),
        r matches Some(v) ==> v == quantity_update_map(*old(m))[key@],
{
    m.remove(key)
}

/// `AHashMap::get`: the value that the key is mapped to.
#[verifier::external_body]
pub(crate) fn quantity_update_map_get<'a>(m: &'a AHashMap<BetKey, PendingQuantityUpdate>, key: &BetKey) -> (r: Option<&'a PendingQuantityUpdate>)
    ensures
        r is Some <==> quantity_update_map(*m).contains_key(key@),
        r matches Some(v) ==> *v == quantity_update_map(*m)[key@],
{
    m.get(key)
}

// The map of confirmed quantities.

/// What a map of confirmed quantities holds.
pub uninterp spec fn confirmed_map(m: AHashMap<BetKey, Quantity>) -> Map<BetKeyView, Quantity>;

/// `AHashMap::new`: an empty map.
#[verifier::external_body]
pub(crate) fn confirmed_map_new() -> (m: AHashMap<BetKey, Quantity>)
    ensures
        (confirmed_map(m) == Map::<BetKeyView, Quantity>::empty()),
{
    AHashMap::new()
}

/// `AHashMap::insert`: maps the key to the value, in place of any earlier one.
#[verifier::external_body]
pub(crate) fn confirmed_map_insert(m: &mut AHashMap<BetKey, Quantity>, key: BetKey, v: Quantity)
    ensures
        confirmed_map(*final(m)) == confirmed_map(*old(m)).insert(key@, v),
{
    m.insert(key, v);
}

/// `AHashMap::remove`: takes the key out, and returns the value that it had.
#[verifier::external_body]
pub(crate) fn confirmed_map_remove(m: &mut AHashMap<BetKey, Quantity>, key: &BetKey) -> (r: Option<Quantity>)
    ensures
        confirmed_map(*final(m)) == confirmed_map(*old(m)).remove(key@),
        r is Some <==> confirmed_map(*old(m)).contains_key(key@),
        r matches Some(v) ==> v == confirmed_map(*old(m))[key@],
{
    m.remove(key)
}

/// `AHashMap::get`: the value that the key is mapped to.
#[verifier::external_body]
pub(crate) fn confirmed_map_get<'a>(m: &'a AHashMap<BetKey, Quantity>, key: &BetKey) -> (r: Option<&'a Quantity>)
    ensures
        r is Some <==> confirmed_map(*m).contains_key(key@),
        r matches Some(v) ==> *v == confirmed_map(*m)[key@],
{
    m.get(key)
}

} // verus!
