//! The concurrent maps that hold the live connections and the writers of
//! their outbound streams, and what is taken on trust about them.
//!
//! `dashmap` is not verified here. Each function below makes one call into
//! it and states, over the map's contents, what that call does. All changes
//! go through an exclusive reference, so that no other party can change the
//! map between two calls. The two tables differ in what they hold, and what
//! is said of a call is said of one table's contents: hence each table has
//! functions of its own.

use crate::connection::ConnectionEntry;
use crate::stream_writer::StreamWriter;
use dashmap::DashMap;
use vstd::prelude::*;

verus! {

/// `dashmap::DashMap`; opaque to the verifier.
#[verifier::external_type_specification]
#[verifier::external_body]
#[verifier::reject_recursive_types(K)]
#[verifier::reject_recursive_types(V)]
#[verifier::reject_recursive_types(S)]
pub struct ExDashMap<K, V, S>(DashMap<K, V, S>);

/// The entries that a table of connections holds, by connection identifier.
pub uninterp spec fn table_entries(table: DashMap<u64, ConnectionEntry>) -> Map<
    u64,
    ConnectionEntry,
>;

/// `DashMap::new`: a table without entries.
#[verifier::external_body]
pub(crate) fn table_new() -> (table: DashMap<u64, ConnectionEntry>)
    ensures
        table_entries(table) =~= Map::empty(),
{
    DashMap::new()
}

/// `DashMap::insert`: the key now maps to the value; the value it mapped to
/// before, if any, is returned. Other keys are untouched.
#[verifier::external_body]
pub(crate) fn table_insert(
    table: &mut DashMap<u64, ConnectionEntry>,
    key: u64,
    value: ConnectionEntry,
) -> (previous: Option<ConnectionEntry>)
    ensures
        table_entries(*final(table)) == table_entries(*old(table)).insert(key, value),
        previous == if table_entries(*old(table)).contains_key(key) {
            Some(table_entries(*old(table))[key])
        } else {
            None::<ConnectionEntry>
        },
{
    table.insert(key, value)
}

/// `DashMap::remove`: the key maps to nothing any more; the value it mapped
/// to, if any, is returned. Other keys are untouched.
#[verifier::external_body]
pub(crate) fn table_remove(table: &mut DashMap<u64, ConnectionEntry>, key: u64) -> (removed: Option<
    ConnectionEntry,
>)
    ensures
        table_entries(*final(table)) == table_entries(*old(table)).remove(key),
        removed == if table_entries(*old(table)).contains_key(key) {
            Some(table_entries(*old(table))[key])
        } else {
            None::<ConnectionEntry>
        },
{
    table.remove(&key).map(|pair| pair.1)
}

/// `DashMap::contains_key`: whether the key maps to a value.
#[verifier::external_body]
pub(crate) fn table_contains(table: &DashMap<u64, ConnectionEntry>, key: u64) -> (present: bool)
    ensures
        present == table_entries(*table).contains_key(key),
{
    table.contains_key(&key)
}

/// `DashMap::clear`: no key maps to a value any more.
#[verifier::external_body]
pub(crate) fn table_clear(table: &mut DashMap<u64, ConnectionEntry>)
    ensures
        table_entries(*final(table)) =~= Map::empty(),
{
    table.clear()
}

} // verus!

verus! {

/// The writers that a table of writers holds, by connection identifier and
/// stream identifier.
pub uninterp spec fn writer_entries(table: DashMap<(u64, u64), StreamWriter>) -> Map<
    (u64, u64),
    StreamWriter,
>;

/// What is left of the writers when those of one connection are taken away.
pub open spec fn writers_elsewhere(entries: Map<(u64, u64), StreamWriter>, id: u64) -> Map<
    (u64, u64),
    StreamWriter,
> {
    entries.restrict(Set::new(|key: (u64, u64)| key.0 != id))
}

/// Whether a writer belongs to another connection than this one.
pub(crate) fn belongs_elsewhere(key: &(u64, u64), id: u64) -> (elsewhere: bool)
    ensures
        elsewhere == (key.0 != id),
{
    key.0 != id
}

/// `DashMap::new`: a table without entries.
#[verifier::external_body]
pub(crate) fn writers_new() -> (table: DashMap<(u64, u64), StreamWriter>)
    ensures
        writer_entries(table) =~= Map::empty(),
{
    DashMap::new()
}

/// `DashMap::insert`: the key now maps to the value; the value it mapped to
/// before, if any, is returned. Other keys are untouched.
#[verifier::external_body]
pub(crate) fn writers_insert(
    table: &mut DashMap<(u64, u64), StreamWriter>,
    key: (u64, u64),
    value: StreamWriter,
) -> (previous: Option<StreamWriter>)
    ensures
        writer_entries(*final(table)) == writer_entries(*old(table)).insert(key, value),
        previous == if writer_entries(*old(table)).contains_key(key) {
            Some(writer_entries(*old(table))[key])
        } else {
            None::<StreamWriter>
        },
{
    table.insert(key, value)
}

/// `DashMap::remove`: the key maps to nothing any more; the value it mapped
/// to, if any, is returned. Other keys are untouched.
#[verifier::external_body]
pub(crate) fn writers_remove(table: &mut DashMap<(u64, u64), StreamWriter>, key: (u64, u64)) -> (removed:
    Option<StreamWriter>)
    ensures
        writer_entries(*final(table)) == writer_entries(*old(table)).remove(key),
        removed == if writer_entries(*old(table)).contains_key(key) {
            Some(writer_entries(*old(table))[key])
        } else {
            None::<StreamWriter>
        },
{
    table.remove(&key).map(|pair| pair.1)
}

/// `DashMap::retain`, with the test whether a writer belongs to another
/// connection than `id`: the entries for which the test holds stay as they
/// are, the others are removed.
#[verifier::external_body]
pub(crate) fn writers_retain_elsewhere(table: &mut DashMap<(u64, u64), StreamWriter>, id: u64)
    ensures
        writer_entries(*final(table)) == writers_elsewhere(writer_entries(*old(table)), id),
{
    table.retain(|key, _| belongs_elsewhere(key, id))
}

/// `DashMap::clear`: no key maps to a value any more.
#[verifier::external_body]
pub(crate) fn writers_clear(table: &mut DashMap<(u64, u64), StreamWriter>)
    ensures
        writer_entries(*final(table)) =~= Map::empty(),
{
    table.clear()
}

} // verus!
