//! The bounded exchange table, a heapless `LinearMap` keyed by exchange id, and
//! the bounded set of exchange ids whose acknowledgement is due.
use vstd::prelude::*;
use heapless::LinearMap;
use crate::exchange::Exchange;

verus! {

/// Capacity of the exchange table.
pub const MAX_EXCHANGES: usize = 8;

/// Capacity of the set of exchanges with an acknowledgement due.
pub const MAX_MRP_ENTRIES: usize = 4;

/// The exchange table: exchanges by id, at most `MAX_EXCHANGES` of them. Only
/// the functions below build and change the map, so its keys stay distinct.
#[verifier::external_body]
pub struct ExchangeTable {
    map: LinearMap<u16, Exchange, MAX_EXCHANGES>,
}

/// What inserting into the exchange table returns.
pub type TableInsert = Result<Option<Exchange>, (u16, Exchange)>;

/// A set of at most `MAX_MRP_ENTRIES` exchange ids. Only the functions below
/// build and change the map, so its keys stay distinct.
#[verifier::external_body]
pub struct AckSet {
    map: LinearMap<u16, (), MAX_MRP_ENTRIES>,
}

/// What inserting into an `AckSet` returns.
pub type AckInsert = Result<Option<()>, (u16, ())>;

/// The exchanges that the table holds, by id.
pub uninterp spec fn exchange_table(m: ExchangeTable) -> Map<u16, Exchange>;

/// The ids that a set of due acknowledgements holds.
pub uninterp spec fn ack_entries(m: AckSet) -> Set<u16>;

/// A table that holds no exchange.
pub open spec fn empty_table() -> Map<u16, Exchange> {
    Map::empty()
}

/// Relies on `LinearMap::new`: the map starts empty.
#[verifier::external_body]
pub(crate) fn table_new() -> (r: ExchangeTable)
    ensures
        exchange_table(r) == empty_table(),
{
    ExchangeTable { map: LinearMap::new() }
}

/// Relies on `LinearMap::contains_key`: whether a value is stored under `id`.
#[verifier::external_body]
pub(crate) fn table_contains(m: &ExchangeTable, id: u16) -> (r: bool)
    ensures
        r == exchange_table(*m).contains_key(id),
{
    m.map.contains_key(&id)
}

/// Relies on `LinearMap::get`: the value stored under `id`, if any.
#[verifier::external_body]
pub(crate) fn table_get(m: &ExchangeTable, id: u16) -> (r: Option<&Exchange>)
    ensures
        r is Some <==> exchange_table(*m).contains_key(id),
        r matches Some(e) ==> *e == exchange_table(*m)[id],
{
    m.map.get(&id)
}

/// Relies on `LinearMap::get_mut`: a mutable borrow of the value stored under
/// `id`, if any; writes through it land in the map under the same key.
#[verifier::external_body]
pub(crate) fn table_get_mut(m: &mut ExchangeTable, id: u16) -> (r: Option<&mut Exchange>)
    ensures
        r is Some <==> exchange_table(*old(m)).contains_key(id),
        r matches Some(e) ==> *e == exchange_table(*old(m))[id],
        r matches Some(e) ==> exchange_table(*final(m)) == exchange_table(*old(m)).insert(id, *final(e)),
        r is None ==> exchange_table(*final(m)) == exchange_table(*old(m)),
{
    m.map.get_mut(&id)
}

/// Relies on `LinearMap::insert`: the value under an existing key is replaced
/// and the old one returned; a new key is stored while fewer than `N` entries
/// are held, else the pair is handed back and the map is unchanged.
#[verifier::external_body]
pub(crate) fn table_insert(m: &mut ExchangeTable, id: u16, e: Exchange) -> (r: TableInsert)
    ensures
        exchange_table(*old(m)).contains_key(id) ==> r == TableInsert::Ok(Some(exchange_table(*old(m))[id]))
            && exchange_table(*final(m)) == exchange_table(*old(m)).insert(id, e),
        !exchange_table(*old(m)).contains_key(id) && exchange_table(*old(m)).len() < MAX_EXCHANGES ==>
            r == TableInsert::Ok(None) && exchange_table(*final(m)) == exchange_table(*old(m)).insert(id, e),
        !exchange_table(*old(m)).contains_key(id) && exchange_table(*old(m)).len() >= MAX_EXCHANGES ==>
            r == TableInsert::Err((id, e)) && exchange_table(*final(m)) == exchange_table(*old(m)),
{
    m.map.insert(id, e)
}

/// Relies on `LinearMap::remove`: the value under `id` is taken out, if any.
#[verifier::external_body]
pub(crate) fn table_remove(m: &mut ExchangeTable, id: u16) -> (r: Option<Exchange>)
    ensures
        r is Some <==> exchange_table(*old(m)).contains_key(id),
        r matches Some(e) ==> e == exchange_table(*old(m))[id],
        exchange_table(*final(m)) == exchange_table(*old(m)).remove(id),
{
    m.map.remove(&id)
}

/// Relies on `LinearMap::keys`: every key once, in the map's order.
#[verifier::external_body]
pub(crate) fn table_ids(m: &ExchangeTable) -> (r: Vec<u16>)
    ensures
        r@.no_duplicates(),
        forall|id: u16| r@.contains(id) <==> exchange_table(*m).contains_key(id),
{
    m.map.keys().copied().collect()
}

/// Relies on `LinearMap::new`: the set starts empty.
#[verifier::external_body]
pub fn ack_new() -> (r: AckSet)
    ensures
        ack_entries(r) == Set::<u16>::empty(),
{
    AckSet { map: LinearMap::new() }
}

/// Relies on `LinearMap::contains_key`: whether the set holds `id`.
#[verifier::external_body]
pub fn ack_contains(m: &AckSet, id: u16) -> (r: bool)
    ensures
        r == ack_entries(*m).contains(id),
{
    m.map.contains_key(&id)
}

/// Relies on `LinearMap::insert` on a set of ids: a present id stays, a new
/// one is added while fewer than `N` are held, else the set is unchanged.
#[verifier::external_body]
pub(crate) fn ack_insert(m: &mut AckSet, id: u16) -> (r: AckInsert)
    ensures
        ack_entries(*old(m)).contains(id) || ack_entries(*old(m)).len() < MAX_MRP_ENTRIES ==>
            r is Ok && ack_entries(*final(m)) == ack_entries(*old(m)).insert(id),
        !ack_entries(*old(m)).contains(id) && ack_entries(*old(m)).len() >= MAX_MRP_ENTRIES ==>
            r is Err && ack_entries(*final(m)) == ack_entries(*old(m)),
{
    m.map.insert(id, ())
}

} // verus!
