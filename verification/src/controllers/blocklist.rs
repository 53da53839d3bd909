//! Adding and removing blocked addresses.

use crate::address::{address_of, parse_ipv4};
use crate::error::ApiError;
use crate::models::ip::ApiBody;
use crate::table::{
    has_room, within_capacity, zero_record, BlocklistTable, Record, TableBackend, TableCommand,
};
use crate::BlocklistMapState;
use vstd::prelude::*;

verus! {

/// The change that blocks the address `ip`, where `ip` is a dotted
/// quad.
pub fn plan_add(ip: &str) -> (r: Result<TableCommand, ApiError>)
    ensures
        r == match address_of(ip@) {
            Some(key) => Ok::<TableCommand, ApiError>(
                TableCommand::Insert { key, value: zero_record() },
            ),
            None => Err::<TableCommand, ApiError>(ApiError::BadRequest),
        },
{
    match parse_ipv4(ip) {
        Ok(key) => Ok(TableCommand::Insert { key, value: Record::zeroed() }),
        Err(invalid) => Err(ApiError::from_validation(invalid)),
    }
}

/// The change that unblocks the address `ip`, where `ip` is a dotted
/// quad.
pub fn plan_remove(ip: &str) -> (r: Result<TableCommand, ApiError>)
    ensures
        r == match address_of(ip@) {
            Some(key) => Ok::<TableCommand, ApiError>(TableCommand::Remove { key }),
            None => Err::<TableCommand, ApiError>(ApiError::BadRequest),
        },
{
    match parse_ipv4(ip) {
        Ok(key) => Ok(TableCommand::Remove { key }),
        Err(invalid) => Err(ApiError::from_validation(invalid)),
    }
}

/// Blocks the address `ip` in a table that the caller holds. A
/// malformed address is refused with the table untouched. Otherwise the
/// address is in the table on success, and the table is as it was on
/// failure.
pub fn add_address<B: TableBackend>(table: &mut BlocklistTable<B>, ip: &str) -> (r: Result<
    (),
    ApiError,
>)
    ensures
        final(table).capacity() == old(table).capacity(),
        final(table).faultless() == old(table).faultless(),
        match address_of(ip@) {
            None => r == Err::<(), ApiError>(ApiError::BadRequest) && *final(table) == *old(table),
            Some(key) => {
                &&& r is Ok || r == Err::<(), ApiError>(ApiError::InternalServerError)
                &&& final(table)@ == if r is Ok {
                    old(table)@.insert(key, zero_record())
                } else {
                    old(table)@
                }
                &&& old(table).faultless() ==> (r is Ok <==> has_room(
                    old(table)@,
                    old(table).capacity(),
                    key,
                ))
            },
        },
{
    match plan_add(ip) {
        Err(refused) => Err(refused),
        Ok(command) => match table.apply(command) {
            Ok(_) => Ok(()),
            Err(failed) => Err(ApiError::from_table(failed)),
        },
    }
}

/// Unblocks the address `ip` in a table that the caller holds. A
/// malformed address is refused with the table untouched. Otherwise the
/// address is out of the table on success, whether or not it was in,
/// and the table is as it was on failure.
pub fn remove_address<B: TableBackend>(table: &mut BlocklistTable<B>, ip: &str) -> (r: Result<
    (),
    ApiError,
>)
    ensures
        final(table).capacity() == old(table).capacity(),
        final(table).faultless() == old(table).faultless(),
        match address_of(ip@) {
            None => r == Err::<(), ApiError>(ApiError::BadRequest) && *final(table) == *old(table),
            Some(key) => {
                &&& r is Ok || r == Err::<(), ApiError>(ApiError::InternalServerError)
                &&& final(table)@ == if r is Ok {
                    old(table)@.remove(key)
                } else {
                    old(table)@
                }
                &&& old(table).faultless() ==> r is Ok
            },
        },
{
    match plan_remove(ip) {
        Err(refused) => Err(refused),
        Ok(command) => match table.apply(command) {
            Ok(_) => Ok(()),
            Err(failed) => Err(ApiError::from_table(failed)),
        },
    }
}

/// Handles a request to block the address in `data`: validates it,
/// then inserts its key into the shared table. A malformed address is
/// refused before the table is touched; a failure of the table is
/// reported without its cause. Over a faultless storage a well-formed
/// request succeeds if and only if the table that it meets has room
/// for the address.
pub fn add<B: TableBackend>(blocklist_map_state: BlocklistMapState<B>, data: ApiBody) -> (r: Result<
    (),
    ApiError,
>)
    ensures
        address_of(data.ip@) is None <==> r == Err::<(), ApiError>(ApiError::BadRequest),
        blocklist_map_state.faultless() && address_of(data.ip@) is Some ==> exists|
            met: Map<u32, Record>,
        | #[trigger]
            within_capacity(met, blocklist_map_state.capacity()) && r == if has_room(
                met,
                blocklist_map_state.capacity(),
                address_of(data.ip@)->0,
            ) {
                Ok::<(), ApiError>(())
            } else {
                Err::<(), ApiError>(ApiError::InternalServerError)
            },
{
    match plan_add(data.ip.as_str()) {
        Err(refused) => Err(refused),
        Ok(command) => match blocklist_map_state.with_write(command) {
            Ok(_) => Ok(()),
            Err(failed) => Err(ApiError::from_table(failed)),
        },
    }
}

/// Handles a request to unblock the address `ip`: validates it, then
/// removes its key from the shared table. A malformed address is
/// refused before the table is touched. Over a faultless storage every
/// well-formed request succeeds, whether or not the address was
/// blocked.
pub fn remove<B: TableBackend>(blocklist_map_state: BlocklistMapState<B>, ip: &str) -> (r: Result<
    (),
    ApiError,
>)
    ensures
        address_of(ip@) is None <==> r == Err::<(), ApiError>(ApiError::BadRequest),
        blocklist_map_state.faultless() && address_of(ip@) is Some ==> r is Ok,
{
    match plan_remove(ip) {
        Err(refused) => Err(refused),
        Ok(command) => match blocklist_map_state.with_write(command) {
            Ok(_) => Ok(()),
            Err(failed) => Err(ApiError::from_table(failed)),
        },
    }
}

} // verus!
