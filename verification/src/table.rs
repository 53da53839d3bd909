//! The blocklist table: the keyed set of blocked addresses that the
//! data path consults, and the storage that holds it.

use std::collections::HashMap;
use vstd::prelude::*;

verus! {

broadcast use vstd::std_specs::hash::group_hash_axioms;

/// The operating system's error number for a table that is full.
pub const E2BIG: i32 = 7;

/// The operating system's error number for a key that is not there.
pub const ENOENT: i32 = 2;

/// What the table stores under a blocked address: two words kept for
/// later use, both zero for now.
#[derive(Clone, Copy, Debug, PartialEq, Eq, Structural)]
pub struct Record {
    pub slot0: u32,
    pub slot1: u32,
}

pub open spec fn zero_record() -> Record {
    Record { slot0: 0, slot1: 0 }
}

impl Record {
    /// The record written for a newly blocked address.
    pub fn zeroed() -> (record: Record)
        ensures
            record == zero_record(),
    {
        Record { slot0: 0, slot1: 0 }
    }
}

/// Why a table operation failed.
#[derive(Clone, Copy, Debug, PartialEq, Eq, Structural)]
pub enum TableError {
    /// The table is full.
    Capacity,
    /// The storage below the table failed.
    Backend,
}

/// What the storage says of one operation.
#[derive(Clone, Copy, Debug, PartialEq, Eq, Structural)]
pub enum BackendReply {
    /// The operation was carried out.
    Done,
    /// Nothing was stored: there is no room for another key.
    Full,
    /// Nothing was changed: the key is not there.
    Missing,
    /// Nothing was changed: the storage failed.
    Fault,
}

impl BackendReply {
    /// The reply that stands for a failed system call, by its error
    /// number where it has one.
    pub fn from_os_error(code: Option<i32>) -> (reply: BackendReply)
        ensures
            reply == if code == Some(E2BIG) {
                BackendReply::Full
            } else if code == Some(ENOENT) {
                BackendReply::Missing
            } else {
                BackendReply::Fault
            },
    {
        match code {
            Some(c) => {
                if c == E2BIG {
                    BackendReply::Full
                } else if c == ENOENT {
                    BackendReply::Missing
                } else {
                    BackendReply::Fault
                }
            },
            None => BackendReply::Fault,
        }
    }
}

/// The entries after an insert that got `reply`.
pub open spec fn entries_after_insert(
    entries: Map<u32, Record>,
    key: u32,
    value: Record,
    reply: BackendReply,
) -> Map<u32, Record> {
    if reply is Done {
        entries.insert(key, value)
    } else {
        entries
    }
}

/// The entries after a remove that got `reply`.
pub open spec fn entries_after_remove(
    entries: Map<u32, Record>,
    key: u32,
    reply: BackendReply,
) -> Map<u32, Record> {
    if reply is Done {
        entries.remove(key)
    } else {
        entries
    }
}

/// Whether a table of `capacity` entries can take `key`: as an
/// overwrite, or because a free entry is left.
pub open spec fn has_room(entries: Map<u32, Record>, capacity: nat, key: u32) -> bool {
    entries.contains_key(key) || entries.len() < capacity
}

/// The storage of a blocklist table, whatever mechanism provides it.
///
/// Each operation either takes effect as a whole or leaves the entries
/// as they were, and its reply says which. A faultless storage also
/// commits to the reply: it never reports a fault, takes every key for
/// which it has room, and finds every key it holds.
///
/// A verified storage says what it holds by defining the three spec
/// functions, and proves each method against them. An unverified one
/// cannot define them and leaves them as they stand here: an empty
/// table without room, which may fail. They describe no storage that
/// ever takes an entry, so nothing that is proved of a table says what
/// such a storage holds. It is on its own to change as a whole or not
/// at all and to reply truthfully; the results that a table over it
/// gives are still the ones that its replies settle into.
pub trait TableBackend: Sized {
    /// What the table holds.
    open spec fn entries(&self) -> Map<u32, Record> {
        Map::empty()
    }

    /// How many entries the storage has room for.
    open spec fn capacity(&self) -> nat {
        0
    }

    /// Whether the storage never fails.
    open spec fn faultless(&self) -> bool {
        false
    }

    /// Stores `value` under `key`, in place of what was there.
    fn insert_entry(&mut self, key: u32, value: Record) -> (reply: BackendReply)
        ensures
            final(self).entries() == entries_after_insert(old(self).entries(), key, value, reply),
            final(self).capacity() == old(self).capacity(),
            final(self).faultless() == old(self).faultless(),
            old(self).faultless() ==> reply == if has_room(
                old(self).entries(),
                old(self).capacity(),
                key,
            ) {
                BackendReply::Done
            } else {
                BackendReply::Full
            },
    ;

    /// Deletes the entry under `key`.
    fn remove_entry(&mut self, key: u32) -> (reply: BackendReply)
        ensures
            final(self).entries() == entries_after_remove(old(self).entries(), key, reply),
            final(self).capacity() == old(self).capacity(),
            final(self).faultless() == old(self).faultless(),
            reply is Missing ==> !old(self).entries().contains_key(key),
            old(self).faultless() ==> reply == if old(self).entries().contains_key(key) {
                BackendReply::Done
            } else {
                BackendReply::Missing
            },
    ;

    /// Whether there is an entry under `key`; `None` where the storage
    /// could not tell.
    fn has_entry(&self, key: u32) -> (found: Option<bool>)
        ensures
            found is Some ==> found->0 == self.entries().contains_key(key),
            self.faultless() ==> found is Some,
    ;
}

/// A table held in this process's memory, with room for a fixed number
/// of entries. It never fails.
pub struct MemoryBackend {
    slots: HashMap<u32, Record>,
    limit: usize,
}

impl MemoryBackend {
    /// An empty table with room for `limit` entries.
    pub fn new(limit: usize) -> (backend: MemoryBackend)
        ensures
            backend.entries() == Map::<u32, Record>::empty(),
            backend.capacity() == limit,
            backend.faultless(),
    {
        MemoryBackend { slots: HashMap::new(), limit }
    }

    /// How many entries the table holds.
    pub fn len(&self) -> (n: usize)
        ensures
            n == self.entries().len(),
    {
        self.slots.len()
    }
}

impl TableBackend for MemoryBackend {
    closed spec fn entries(&self) -> Map<u32, Record> {
        self.slots@
    }

    closed spec fn capacity(&self) -> nat {
        self.limit as nat
    }

    open spec fn faultless(&self) -> bool {
        true
    }

    fn insert_entry(&mut self, key: u32, value: Record) -> (reply: BackendReply) {
        if self.slots.contains_key(&key) || self.slots.len() < self.limit {
            self.slots.insert(key, value);
            BackendReply::Done
        } else {
            BackendReply::Full
        }
    }

    fn remove_entry(&mut self, key: u32) -> (reply: BackendReply) {
        match self.slots.remove(&key) {
            Some(_) => BackendReply::Done,
            None => BackendReply::Missing,
        }
    }

    fn has_entry(&self, key: u32) -> (found: Option<bool>) {
        Some(self.slots.contains_key(&key))
    }
}

/// The result that an insert reports for the storage's reply.
pub open spec fn insert_result(reply: BackendReply) -> Result<(), TableError> {
    match reply {
        BackendReply::Done => Ok(()),
        BackendReply::Full => Err(TableError::Capacity),
        BackendReply::Missing => Err(TableError::Backend),
        BackendReply::Fault => Err(TableError::Backend),
    }
}

/// The result that a remove reports for the storage's reply: a key
/// that was not there counts as removed.
pub open spec fn remove_result(reply: BackendReply) -> Result<(), TableError> {
    match reply {
        BackendReply::Done => Ok(()),
        BackendReply::Missing => Ok(()),
        BackendReply::Full => Err(TableError::Backend),
        BackendReply::Fault => Err(TableError::Backend),
    }
}

/// Turns the storage's reply to an insert into the table's result.
pub fn settle_insert(reply: BackendReply) -> (r: Result<(), TableError>)
    ensures
        r == insert_result(reply),
{
    match reply {
        BackendReply::Done => Ok(()),
        BackendReply::Full => Err(TableError::Capacity),
        BackendReply::Missing => Err(TableError::Backend),
        BackendReply::Fault => Err(TableError::Backend),
    }
}

/// Turns the storage's reply to a remove into the table's result.
pub fn settle_remove(reply: BackendReply) -> (r: Result<(), TableError>)
    ensures
        r == remove_result(reply),
{
    match reply {
        BackendReply::Done => Ok(()),
        BackendReply::Missing => Ok(()),
        BackendReply::Full => Err(TableError::Backend),
        BackendReply::Fault => Err(TableError::Backend),
    }
}

/// One change to the table.
#[derive(Clone, Copy, Debug, PartialEq, Eq, Structural)]
pub enum TableCommand {
    /// Store `value` under `key`.
    Insert { key: u32, value: Record },
    /// Delete the entry under `key`.
    Remove { key: u32 },
}

/// The entries once `command` has been carried out on `entries`.
pub open spec fn command_effect(entries: Map<u32, Record>, command: TableCommand) -> Map<
    u32,
    Record,
> {
    match command {
        TableCommand::Insert { key, value } => entries.insert(key, value),
        TableCommand::Remove { key } => entries.remove(key),
    }
}

/// The entries after `command` has ended with `result`: changed as a
/// whole on success, as they were on failure.
pub open spec fn entries_after(
    entries: Map<u32, Record>,
    command: TableCommand,
    result: Result<(), TableError>,
) -> Map<u32, Record> {
    if result is Ok {
        command_effect(entries, command)
    } else {
        entries
    }
}

/// The result of `command` on a table whose storage never fails: only
/// an insert can fail, and only for want of room.
pub open spec fn faultless_result(
    entries: Map<u32, Record>,
    capacity: nat,
    command: TableCommand,
) -> Result<(), TableError> {
    match command {
        TableCommand::Insert { key, value } => if has_room(entries, capacity, key) {
            Ok(())
        } else {
            Err(TableError::Capacity)
        },
        TableCommand::Remove { key } => Ok(()),
    }
}

/// The result that `command` reports for the storage's reply.
pub open spec fn settled(command: TableCommand, reply: BackendReply) -> Result<(), TableError> {
    match command {
        TableCommand::Insert { key, value } => insert_result(reply),
        TableCommand::Remove { key } => remove_result(reply),
    }
}

/// Whether `entries` are no more than a table of `capacity` entries
/// holds.
pub open spec fn within_capacity(entries: Map<u32, Record>, capacity: nat) -> bool {
    entries.dom().finite() && entries.len() <= capacity
}

/// The set of blocked addresses, over some storage. A key in the table
/// is a blocked address; a key that is not there is not blocked.
pub struct BlocklistTable<B: TableBackend> {
    backend: B,
}

impl<B: TableBackend> View for BlocklistTable<B> {
    type V = Map<u32, Record>;

    closed spec fn view(&self) -> Map<u32, Record> {
        self.backend.entries()
    }
}

impl<B: TableBackend> BlocklistTable<B> {
    /// How many entries the table has room for.
    pub closed spec fn capacity(&self) -> nat {
        self.backend.capacity()
    }

    /// Whether the storage under the table never fails.
    pub closed spec fn faultless(&self) -> bool {
        self.backend.faultless()
    }

    /// The table over `backend`, holding what the storage holds.
    pub fn new(backend: B) -> (table: Self)
        ensures
            table@ == backend.entries(),
            table.capacity() == backend.capacity(),
            table.faultless() == backend.faultless(),
    {
        BlocklistTable { backend }
    }

    /// Gives the storage back.
    pub fn into_backend(self) -> (backend: B)
        ensures
            backend.entries() == self@,
            backend.capacity() == self.capacity(),
            backend.faultless() == self.faultless(),
    {
        self.backend
    }

    /// Adds the entry for `key`, or overwrites it. On success the key
    /// is in the table at once; on failure the table is as it was.
    pub fn insert(&mut self, key: u32, value: Record) -> (r: Result<(), TableError>)
        ensures
            exists|reply: BackendReply| r == #[trigger] insert_result(reply),
            final(self)@ == entries_after(old(self)@, TableCommand::Insert { key, value }, r),
            final(self).capacity() == old(self).capacity(),
            final(self).faultless() == old(self).faultless(),
            old(self).faultless() ==> r == faultless_result(
                old(self)@,
                old(self).capacity(),
                TableCommand::Insert { key, value },
            ),
    {
        let reply = self.backend.insert_entry(key, value);
        settle_insert(reply)
    }

    /// Deletes the entry for `key`. A key that is not in the table
    /// counts as removed. On success the key is gone at once; on
    /// failure the table is as it was.
    pub fn remove(&mut self, key: u32) -> (r: Result<(), TableError>)
        ensures
            exists|reply: BackendReply| r == #[trigger] remove_result(reply),
            final(self)@ == entries_after(old(self)@, TableCommand::Remove { key }, r),
            final(self).capacity() == old(self).capacity(),
            final(self).faultless() == old(self).faultless(),
            old(self).faultless() ==> r == faultless_result(
                old(self)@,
                old(self).capacity(),
                TableCommand::Remove { key },
            ),
    {
        let reply = self.backend.remove_entry(key);
        proof {
            if reply is Missing {
                assert(old(self)@.remove(key) =~= old(self)@);
            }
        }
        settle_remove(reply)
    }

    /// Carries out one change: as a whole, or not at all.
    pub fn apply(&mut self, command: TableCommand) -> (r: Result<(), TableError>)
        ensures
            exists|reply: BackendReply| r == #[trigger] settled(command, reply),
            final(self)@ == entries_after(old(self)@, command, r),
            final(self).capacity() == old(self).capacity(),
            final(self).faultless() == old(self).faultless(),
            old(self).faultless() ==> r == faultless_result(
                old(self)@,
                old(self).capacity(),
                command,
            ),
    {
        match command {
            TableCommand::Insert { key, value } => {
                let r = self.insert(key, value);
                proof {
                    let reply = choose|reply: BackendReply| r == #[trigger] insert_result(reply);
                    assert(r == settled(command, reply));
                }
                r
            },
            TableCommand::Remove { key } => {
                let r = self.remove(key);
                proof {
                    let reply = choose|reply: BackendReply| r == #[trigger] remove_result(reply);
                    assert(r == settled(command, reply));
                }
                r
            },
        }
    }

    /// Whether `key` is in the table.
    pub fn contains(&self, key: u32) -> (r: Result<bool, TableError>)
        ensures
            r is Ok ==> r == Ok::<bool, TableError>(self@.contains_key(key)),
            r is Err ==> r == Err::<bool, TableError>(TableError::Backend),
            self.faultless() ==> r is Ok,
    {
        match self.backend.has_entry(key) {
            Some(found) => Ok(found),
            None => Err(TableError::Backend),
        }
    }
}

/// The entries of a table whose storage never fails, after `commands`
/// have been carried out one after the other.
pub open spec fn entries_after_all(
    entries: Map<u32, Record>,
    capacity: nat,
    commands: Seq<TableCommand>,
) -> Map<u32, Record>
    decreases commands.len(),
{
    if commands.len() == 0 {
        entries
    } else {
        let before = entries_after_all(entries, capacity, commands.drop_last());
        entries_after(
            before,
            commands.last(),
            faultless_result(before, capacity, commands.last()),
        )
    }
}

/// A table whose storage never fails stays within its capacity,
/// whatever is carried out on it.
pub proof fn lemma_stays_within_capacity(
    entries: Map<u32, Record>,
    capacity: nat,
    command: TableCommand,
)
    requires
        within_capacity(entries, capacity),
    ensures
        within_capacity(
            entries_after(entries, command, faultless_result(entries, capacity, command)),
            capacity,
        ),
{
    match command {
        TableCommand::Insert { key, value } => {
            if entries.contains_key(key) {
                assert(entries.insert(key, value).dom() =~= entries.dom());
            }
        },
        TableCommand::Remove { key } => {
            if !entries.contains_key(key) {
                assert(entries.remove(key).dom() =~= entries.dom());
            }
        },
    }
}

/// Inserting twice is inserting once. Whatever the second insert of a
/// key and value ends with, it leaves the table as the first, successful
/// one left it; and over a storage that never fails the second ends as
/// the first did, with the one entry under the key.
pub proof fn lemma_insert_twice(
    entries: Map<u32, Record>,
    capacity: nat,
    key: u32,
    value: Record,
    second: Result<(), TableError>,
)
    ensures
        ({
            let insert = TableCommand::Insert { key, value };
            let first = faultless_result(entries, capacity, insert);
            let once = entries_after(entries, insert, first);
            &&& entries_after(entries_after(entries, insert, Ok(())), insert, second)
                == entries_after(entries, insert, Ok(()))
            &&& faultless_result(once, capacity, insert) == first
            &&& entries_after(once, insert, first) == once
            &&& first is Ok ==> once.contains_key(key) && once[key] == value && once.remove(key)
                == entries.remove(key)
        }),
{
    assert(entries.insert(key, value).insert(key, value) =~= entries.insert(key, value));
    assert(entries.insert(key, value).remove(key) =~= entries.remove(key));
}

/// Removing a key that is not in the table leaves the table as it was,
/// and succeeds over a storage that never fails.
pub proof fn lemma_remove_absent(
    entries: Map<u32, Record>,
    capacity: nat,
    key: u32,
    result: Result<(), TableError>,
)
    requires
        !entries.contains_key(key),
    ensures
        entries_after(entries, TableCommand::Remove { key }, result) == entries,
        faultless_result(entries, capacity, TableCommand::Remove { key }) is Ok,
{
    assert(entries.remove(key) =~= entries);
}

/// A key is in the table as soon as its insert has succeeded and out
/// of it as soon as its remove has, and the other keys stay as they
/// were.
pub proof fn lemma_insert_then_remove(entries: Map<u32, Record>, key: u32, value: Record)
    ensures
        ({
            let blocked = entries_after(entries, TableCommand::Insert { key, value }, Ok(()));
            let freed = entries_after(blocked, TableCommand::Remove { key }, Ok(()));
            &&& blocked.contains_key(key)
            &&& !freed.contains_key(key)
            &&& freed == entries.remove(key)
            &&& forall|other: u32|
                other != key ==> (blocked.contains_key(other) <==> entries.contains_key(other))
        }),
{
    assert(entries.insert(key, value).remove(key) =~= entries.remove(key));
}

/// Whether `commands` are all inserts.
pub open spec fn all_inserts(commands: Seq<TableCommand>) -> bool {
    forall|i: int| 0 <= i < commands.len() ==> (#[trigger] commands[i]) is Insert
}

/// No insert is lost, in whatever order the inserts reach the table.
/// Over a storage that never fails and has room for all of them, every
/// insert of the sequence succeeds, every key of the sequence is in the
/// table afterwards, and so is every key that was there before.
pub proof fn lemma_inserts_all_land(
    entries: Map<u32, Record>,
    capacity: nat,
    commands: Seq<TableCommand>,
)
    requires
        entries.dom().finite(),
        all_inserts(commands),
        entries.len() + commands.len() <= capacity,
    ensures
        forall|i: int|
            0 <= i < commands.len() ==> faultless_result(
                entries_after_all(entries, capacity, #[trigger] commands.take(i)),
                capacity,
                commands[i],
            ) is Ok,
        forall|i: int|
            0 <= i < commands.len() ==> entries_after_all(
                entries,
                capacity,
                commands,
            ).contains_key((#[trigger] commands[i])->Insert_key),
        forall|key: u32|
            entries.contains_key(key) ==> #[trigger] entries_after_all(
                entries,
                capacity,
                commands,
            ).contains_key(key),
        entries_after_all(entries, capacity, commands).dom().finite(),
        entries_after_all(entries, capacity, commands).len() <= entries.len() + commands.len(),
    decreases commands.len(),
{
    if commands.len() > 0 {
        let earlier = commands.drop_last();
        let last = commands.last();
        lemma_inserts_all_land(entries, capacity, earlier);
        let before = entries_after_all(entries, capacity, earlier);
        assert(has_room(before, capacity, last->Insert_key));
        assert(commands.take(commands.len() - 1) =~= earlier);
        assert forall|i: int| 0 <= i < commands.len() implies faultless_result(
            entries_after_all(entries, capacity, #[trigger] commands.take(i)),
            capacity,
            commands[i],
        ) is Ok by {
            if i < earlier.len() {
                assert(earlier.take(i) =~= commands.take(i));
                assert(earlier[i] == commands[i]);
            }
        }
        assert forall|i: int| 0 <= i < commands.len() implies entries_after_all(
            entries,
            capacity,
            commands,
        ).contains_key((#[trigger] commands[i])->Insert_key) by {
            if i < earlier.len() {
                assert(earlier[i] == commands[i]);
            }
        }
    }
}

} // verus!
