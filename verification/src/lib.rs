//! Control plane of a packet-filter blocklist: validated requests add
//! or remove IPv4 addresses in a keyed table shared with the data path.

use crate::table::{
    faultless_result, lemma_stays_within_capacity, settled, within_capacity, BackendReply,
    BlocklistTable, Record, TableBackend, TableCommand, TableError,
};
use std::sync::Arc;
use vstd::prelude::*;
use vstd::rwlock::*;

pub mod address;
pub mod controllers;
pub mod error;
pub mod models;
pub mod table;

verus! {

/// What the lock promises of the table it guards, at every
/// acquisition: a table that was faultless and within its capacity when
/// it was shared still is, with the capacity it had.
pub struct TableInvariant {
    pub faultless: bool,
    pub capacity: nat,
}

impl<B: TableBackend> RwLockPredicate<BlocklistTable<B>> for TableInvariant {
    open spec fn inv(self, table: BlocklistTable<B>) -> bool {
        self.faultless ==> {
            &&& table.faultless()
            &&& table.capacity() == self.capacity
            &&& within_capacity(table@, self.capacity)
        }
    }
}

/// Access to the one blocklist table, shared by all handlers. Changes
/// go through `with_write`, which lets one of them at a time at the
/// table.
pub struct BlocklistMapState<B: TableBackend> {
    pub blocklist_map: Arc<RwLock<BlocklistTable<B>, TableInvariant>>,
}

impl<B: TableBackend> Clone for BlocklistMapState<B> {
    /// Another handle on the same lock, and so on the same table.
    fn clone(&self) -> (other: Self)
        ensures
            other.blocklist_map == self.blocklist_map,
    {
        BlocklistMapState { blocklist_map: self.blocklist_map.clone() }
    }
}

impl<B: TableBackend> BlocklistMapState<B> {
    /// Whether the shared table is one whose storage never fails and
    /// which was within its capacity when it was shared.
    pub open spec fn faultless(&self) -> bool {
        self.blocklist_map.pred().faultless
    }

    /// How many entries the shared table has room for, where it is
    /// faultless.
    pub open spec fn capacity(&self) -> nat {
        self.blocklist_map.pred().capacity
    }

    /// Shares `table`.
    pub fn new(table: BlocklistTable<B>) -> (state: Self)
        ensures
            state.faultless() == (table.faultless() && within_capacity(table@, table.capacity())),
            state.capacity() == table.capacity(),
    {
        let ghost promise = TableInvariant {
            faultless: table.faultless() && within_capacity(table@, table.capacity()),
            capacity: table.capacity(),
        };
        BlocklistMapState { blocklist_map: Arc::new(RwLock::new(table, Ghost(promise))) }
    }

    /// Carries out `command` on the table as it stands when the lock
    /// is got, with the table held for writing, and lets go of the table
    /// whatever the result. The result is the one that the command
    /// settles into for the storage's reply. Other handlers change the
    /// table before and after, so the caller cannot name the table that
    /// the command met; of a faultless table it is some table within
    /// the capacity, and the result is the one the command has on that
    /// table: no remove fails, and an insert only for want of room.
    ///
    /// The lock cannot be poisoned, so there is no error for a poisoned
    /// lock. A storage that panics in the middle of the command leaves
    /// the lock taken, and later callers wait for it.
    pub fn with_write(&self, command: TableCommand) -> (r: Result<(), TableError>)
        ensures
            exists|reply: BackendReply| r == #[trigger] settled(command, reply),
            self.faultless() ==> exists|met: Map<u32, Record>| #[trigger]
                within_capacity(met, self.capacity()) && r == faultless_result(
                    met,
                    self.capacity(),
                    command,
                ),
    {
        let (mut table, handle) = self.blocklist_map.acquire_write();
        let ghost met = table@;
        let r = table.apply(command);
        proof {
            if self.faultless() {
                lemma_stays_within_capacity(met, self.capacity(), command);
                assert(within_capacity(met, self.capacity()));
            }
        }
        handle.release_write(table);
        r
    }

    /// Whether `key` is in the table as it stands when the lock is
    /// got. Other handlers change the table before and after, so the
    /// caller cannot name the table that the lookup met; of a faultless
    /// table it is some table within the capacity, and the answer is the
    /// one for that table.
    pub fn contains(&self, key: u32) -> (r: Result<bool, TableError>)
        ensures
            r is Err ==> r == Err::<bool, TableError>(TableError::Backend),
            self.faultless() ==> exists|met: Map<u32, Record>| #[trigger]
                within_capacity(met, self.capacity()) && r == Ok::<bool, TableError>(
                    met.contains_key(key),
                ),
    {
        let handle = self.blocklist_map.acquire_read();
        let table = handle.borrow();
        let r = table.contains(key);
        proof {
            if self.faultless() {
                assert(within_capacity(table@, self.capacity()));
            }
        }
        handle.release_read();
        r
    }
}

/// What the handlers share.
pub struct AppState<B: TableBackend> {
    blocklist_map_state: BlocklistMapState<B>,
}

impl<B: TableBackend> AppState<B> {
    /// The handle on the shared table that this state holds.
    pub closed spec fn handle(&self) -> BlocklistMapState<B> {
        self.blocklist_map_state
    }

    /// Whether the shared table is faultless.
    pub open spec fn faultless(&self) -> bool {
        self.handle().faultless()
    }

    /// How many entries the shared table has room for.
    pub open spec fn capacity(&self) -> nat {
        self.handle().capacity()
    }

    pub fn new(blocklist_map_state: BlocklistMapState<B>) -> (state: Self)
        ensures
            state.handle() == blocklist_map_state,
    {
        AppState { blocklist_map_state }
    }

    /// A handle on the same lock as the one this state holds, and so
    /// on the same table.
    pub fn blocklist_map_state(&self) -> (state: BlocklistMapState<B>)
        ensures
            state.blocklist_map == self.handle().blocklist_map,
    {
        self.blocklist_map_state.clone()
    }
}

impl<B: TableBackend> Clone for AppState<B> {
    /// Another state on the same lock, and so on the same table.
    fn clone(&self) -> (other: Self)
        ensures
            other.handle().blocklist_map == self.handle().blocklist_map,
    {
        AppState { blocklist_map_state: self.blocklist_map_state.clone() }
    }
}

} // verus!
