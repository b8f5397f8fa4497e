//! The transactional object engine: the identity map, dirty-state
//! tracking per entry, and the unit-of-work flushed at commit time.

use vstd::pervasive::VecAdditionalExecFns;
use vstd::prelude::*;

use crate::data::{ObjectId, Value, ValueModel};
use crate::error::{is_not_found, Error, NotFoundError};
use crate::object::{Row, Schema};
use crate::storage;

verus! {

/// The lifecycle state of one tracked entry within a transaction:
/// matching the backend, needing an update, or needing a delete.
#[derive(Clone, Copy, PartialEq, Eq, Debug, Structural)]
pub enum ObjectState {
    Clean,
    Modified,
    Removed,
}

/// Whether an entry in this state is written at commit.
pub open spec fn needs_flush(st: ObjectState) -> bool {
    st == ObjectState::Modified || st == ObjectState::Removed
}

/// One identity's bookkeeping within a transaction: its descriptor, the
/// in-memory record data as a row, and the lifecycle state.
pub struct TrackedEntry {
    pub schema: Schema,
    pub id: ObjectId,
    pub row: Row,
    pub state: ObjectState,
}

/// The model of one tracked entry: the record data and the state.
pub struct EntryModel {
    pub row: Seq<ValueModel>,
    pub state: ObjectState,
}

/// The key one entry is tracked under: its table name and identity.
pub open spec fn entry_key(e: TrackedEntry) -> (Seq<char>, i64) {
    (e.schema.table_name@, e.id.value())
}

pub open spec fn entry_model(e: TrackedEntry) -> EntryModel {
    EntryModel { row: e.row.deep_view(), state: e.state }
}

/// A well-formed entry: a well-formed descriptor and a row aligned with
/// its columns.
pub open spec fn entry_wf(e: TrackedEntry) -> bool {
    e.schema.wf() && e.row@.len() == e.schema.columns@.len()
}

/// At most one entry per key.
pub open spec fn keys_unique(s: Seq<TrackedEntry>) -> bool {
    forall|i: int, j: int| 0 <= i < j < s.len() ==> entry_key(s[i]) != entry_key(s[j])
}

pub open spec fn entries_wf(s: Seq<TrackedEntry>) -> bool {
    keys_unique(s) && forall|i: int| 0 <= i < s.len() ==> entry_wf(#[trigger] s[i])
}

/// The identity map a sequence of entries denotes.
pub open spec fn entries_model(s: Seq<TrackedEntry>) -> Map<(Seq<char>, i64), EntryModel>
    decreases s.len(),
{
    if s.len() == 0 {
        Map::empty()
    } else {
        entries_model(s.drop_last()).insert(entry_key(s.last()), entry_model(s.last()))
    }
}

proof fn lemma_model_contains(s: Seq<TrackedEntry>, k: (Seq<char>, i64))
    ensures
        entries_model(s).contains_key(k) <==> exists|i: int|
            0 <= i < s.len() && entry_key(#[trigger] s[i]) == k,
    decreases s.len(),
{
    if s.len() > 0 {
        lemma_model_contains(s.drop_last(), k);
        if entry_key(s.last()) == k {
            assert(entry_key(s[s.len() - 1]) == k);
        } else if entries_model(s).contains_key(k) {
            let i = choose|i: int|
                0 <= i < s.drop_last().len() && entry_key(#[trigger] s.drop_last()[i]) == k;
            assert(entry_key(s[i]) == k);
        } else if exists|i: int| 0 <= i < s.len() && entry_key(#[trigger] s[i]) == k {
            let i = choose|i: int| 0 <= i < s.len() && entry_key(#[trigger] s[i]) == k;
            assert(i < s.len() - 1);
            assert(entry_key(s.drop_last()[i]) == k);
        }
    }
}

proof fn lemma_model_at(s: Seq<TrackedEntry>, i: int)
    requires
        keys_unique(s),
        0 <= i < s.len(),
    ensures
        entries_model(s).contains_key(entry_key(s[i])),
        entries_model(s)[entry_key(s[i])] == entry_model(s[i]),
    decreases s.len(),
{
    if i < s.len() - 1 {
        assert(keys_unique(s.drop_last()));
        lemma_model_at(s.drop_last(), i);
        assert(s.drop_last()[i] == s[i]);
        assert(entry_key(s.last()) != entry_key(s[i]));
    }
}

proof fn lemma_model_push(s: Seq<TrackedEntry>, e: TrackedEntry)
    ensures
        entries_model(s.push(e)) == entries_model(s).insert(entry_key(e), entry_model(e)),
{
    assert(s.push(e).drop_last() =~= s);
    assert(s.push(e).last() == e);
}

broadcast proof fn lemma_model_update_auto(s: Seq<TrackedEntry>, i: int, e2: TrackedEntry)
    requires
        keys_unique(s),
        0 <= i < s.len(),
        entry_key(e2) == entry_key(s[i]),
    ensures
        #[trigger] entries_model(s.update(i, e2)) == entries_model(s).insert(
            entry_key(e2),
            entry_model(e2),
        ),
        keys_unique(s.update(i, e2)),
{
    lemma_model_update(s, i, e2);
}

proof fn lemma_model_update(s: Seq<TrackedEntry>, i: int, e2: TrackedEntry)
    requires
        keys_unique(s),
        0 <= i < s.len(),
        entry_key(e2) == entry_key(s[i]),
    ensures
        entries_model(s.update(i, e2)) == entries_model(s).insert(entry_key(e2), entry_model(e2)),
        keys_unique(s.update(i, e2)),
    decreases s.len(),
{
    let s2 = s.update(i, e2);
    assert(forall|a: int, b: int| 0 <= a < b < s2.len() ==> entry_key(s2[a]) != entry_key(s2[b]));
    if i == s.len() - 1 {
        assert(s2.drop_last() =~= s.drop_last());
        assert(s2.last() == e2);
        assert(entries_model(s2) =~= entries_model(s).insert(entry_key(e2), entry_model(e2)));
    } else {
        assert(keys_unique(s.drop_last()));
        assert(s2.drop_last() =~= s.drop_last().update(i, e2));
        assert(s.drop_last()[i] == s[i]);
        lemma_model_update(s.drop_last(), i, e2);
        assert(s2.last() == s.last());
        assert(entry_key(s.last()) != entry_key(e2));
        assert(entries_model(s2) =~= entries_model(s).insert(entry_key(e2), entry_model(e2)));
    }
}

/// The transaction: exclusive owner of the identity map from
/// (descriptor, identity) to tracked entry, over one open backend
/// session. Its model is that map, with each entry reduced to its
/// record data and lifecycle state.
pub struct Transaction<'a> {
    conn: &'a rusqlite::Connection,
    entries: Vec<TrackedEntry>,
}

impl<'a> View for Transaction<'a> {
    type V = Map<(Seq<char>, i64), EntryModel>;

    closed spec fn view(&self) -> Map<(Seq<char>, i64), EntryModel> {
        entries_model(self.entries@)
    }
}

/// The position of the entry tracked under the given table and identity.
fn find_entry(entries: &Vec<TrackedEntry>, table: &String, id: ObjectId) -> (r: Option<usize>)
    ensures
        match r {
            Some(i) => 0 <= i < entries@.len() && entry_key(entries@[i as int]) == (
                table@,
                id.value(),
            ),
            None => forall|i: int|
                0 <= i < entries@.len() ==> entry_key(#[trigger] entries@[i]) != (
                    table@,
                    id.value(),
                ),
        },
{
    let mut i: usize = 0;
    while i < entries.len()
        invariant
            0 <= i <= entries@.len(),
            forall|k: int|
                0 <= k < i ==> entry_key(#[trigger] entries@[k]) != (table@, id.value()),
        decreases entries@.len() - i,
    {
        if entries[i].schema.table_name == *table && entries[i].id == id {
            return Some(i);
        }
        proof {
            ObjectId::lemma_value_injective(entries@[i as int].id, id);
        }
        i += 1;
    }
    None
}

impl<'a> Transaction<'a> {
    /// The entries behind the identity map, for stating laws about what
    /// a commit flushes.
    pub closed spec fn entry_seq(&self) -> Seq<TrackedEntry> {
        self.entries@
    }

    /// The engine's invariant: unique keys, and every entry well formed.
    pub closed spec fn wf(&self) -> bool {
        entries_wf(self.entries@)
    }

    /// Whether an entry is tracked under the given key.
    pub open spec fn tracks(&self, k: (Seq<char>, i64)) -> bool {
        self@.contains_key(k)
    }

    /// Opens a transaction over the backend session. No entry is
    /// tracked yet.
    pub fn new(conn: &'a rusqlite::Connection) -> (r: Result<Self, Error>)
        ensures
            r matches Ok(t) ==> t.wf() && t@ == Map::<(Seq<char>, i64), EntryModel>::empty(),
    {
        match storage::begin(conn) {
            Ok(_) => Ok(Transaction { conn, entries: Vec::new() }),
            Err(e) => Err(e),
        }
    }

    /// Checks that the descriptor's table exists and creates it if not.
    fn ensure_table(&self, schema: &Schema) -> (r: Result<(), Error>)
        requires
            schema.wf(),
        ensures
            r matches Err(e) ==> e is LockConflict || e is Storage,
    {
        match storage::table_exists(self.conn, &schema.table_name) {
            Ok(true) => Ok(()),
            Ok(false) => storage::create_table(self.conn, schema),
            Err(e) => Err(e),
        }
    }

    /// Ensures the table, inserts the record's row, and tracks the
    /// freshly assigned identity as a clean entry — it already matches
    /// the backend. Returns a handle over the new entry.
    pub fn create(&mut self, schema: &Schema, row: Row) -> (r: Result<Tx, Error>)
        requires
            old(self).wf(),
            schema.wf(),
            row@.len() == schema.columns@.len(),
        ensures
            final(self).wf(),
            r matches Ok(h) ==> {
                &&& h.spec_key() == (schema.table_name@, h.spec_id().value())
                &&& final(self)@ == old(self)@.insert(
                    h.spec_key(),
                    EntryModel { row: row.deep_view(), state: ObjectState::Clean },
                )
            },
            r matches Err(e) ==> final(self)@ == old(self)@ && storage::schema_scoped_error(
                e,
                *schema,
            ),
    {
        match self.ensure_table(schema) {
            Ok(_) => (),
            Err(e) => {
                return Err(e);
            },
        }
        let id = match storage::insert_row(self.conn, schema, &row) {
            Ok(id) => id,
            Err(e) => {
                return Err(e);
            },
        };
        let entry = TrackedEntry { schema: schema.clone_schema(), id, row, state: ObjectState::Clean };
        let handle = Tx { schema: schema.clone_schema(), id };
        match find_entry(&self.entries, &schema.table_name, id) {
            Some(i) => {
                proof {
                    lemma_model_update(self.entries@, i as int, entry);
                }
                self.entries.set(i, entry);
            },
            None => {
                proof {
                    lemma_model_push(self.entries@, entry);
                    assert(keys_unique(self.entries@.push(entry)));
                }
                self.entries.push(entry);
            },
        }
        Ok(handle)
    }

    /// Returns a handle for the given identity. An identity already
    /// tracked is handed back as it is — the record is not re-read, so
    /// edits made through any earlier handle stay visible — unless its
    /// entry is removed, which reads as `NotFound`. An untracked
    /// identity is read from the backend and tracked as a clean entry.
    pub fn get(&mut self, schema: &Schema, id: ObjectId) -> (r: Result<Tx, Error>)
        requires
            old(self).wf(),
            schema.wf(),
        ensures
            final(self).wf(),
            old(self).tracks((schema.table_name@, id.value())) && old(self)@[(
                schema.table_name@,
                id.value(),
            )].state != ObjectState::Removed ==> {
                &&& final(self)@ == old(self)@
                &&& (r matches Ok(h) ==> h.spec_key() == (schema.table_name@, id.value())
                    && h.spec_id() == id)
                &&& (r matches Err(e) ==> e is LockConflict || e is Storage)
            },
            old(self).tracks((schema.table_name@, id.value())) && old(self)@[(
                schema.table_name@,
                id.value(),
            )].state == ObjectState::Removed ==> {
                &&& final(self)@ == old(self)@
                &&& r is Err
                &&& (r matches Err(e) ==> is_not_found(e, id, schema.record_name@)
                    || e is LockConflict || e is Storage)
            },
            !old(self).tracks((schema.table_name@, id.value())) ==> (match r {
                Ok(h) => {
                    &&& h.spec_key() == (schema.table_name@, id.value())
                    &&& h.spec_id() == id
                    &&& final(self)@.contains_key(h.spec_key())
                    &&& final(self)@[h.spec_key()].state == ObjectState::Clean
                    &&& final(self)@ == old(self)@.insert(h.spec_key(), final(self)@[h.spec_key()])
                    &&& storage::row_typed(final(self)@[h.spec_key()].row, *schema)
                },
                Err(e) => {
                    &&& final(self)@ == old(self)@
                    &&& storage::schema_scoped_error(e, *schema)
                    &&& (e matches Error::NotFound(nf) ==> nf.object_id == id)
                },
            }),
    {
        match self.ensure_table(schema) {
            Ok(_) => (),
            Err(e) => {
                return Err(e);
            },
        }
        match find_entry(&self.entries, &schema.table_name, id) {
            Some(i) => {
                proof {
                    lemma_model_at(self.entries@, i as int);
                }
                if matches!(self.entries[i].state, ObjectState::Removed) {
                    Err(
                        Error::NotFound(
                            NotFoundError { object_id: id, record_name: schema.record_name.clone() },
                        ),
                    )
                } else {
                    Ok(Tx { schema: schema.clone_schema(), id })
                }
            },
            None => {
                proof {
                    lemma_model_contains(self.entries@, (schema.table_name@, id.value()));
                }
                let row = match storage::select_row(self.conn, id, schema) {
                    Ok(row) => row,
                    Err(e) => {
                        return Err(e);
                    },
                };
                let entry = TrackedEntry {
                    schema: schema.clone_schema(),
                    id,
                    row,
                    state: ObjectState::Clean,
                };
                proof {
                    lemma_model_push(self.entries@, entry);
                    assert(keys_unique(self.entries@.push(entry)));
                }
                self.entries.push(entry);
                proof {
                    lemma_model_at(self.entries@, self.entries@.len() - 1);
                }
                Ok(Tx { schema: schema.clone_schema(), id })
            },
        }
    }

    /// Flushes every dirty entry in entry order: an update per modified
    /// entry, a delete per removed entry, nothing for clean ones. The
    /// ghost trace records the flush operations performed, in order: on
    /// success it is exactly the flush plan of the tracked entries; on
    /// failure it is the plan's prefix flushed before the failing
    /// operation.
    fn try_apply(&self) -> (r: (Result<(), Error>, Ghost<Seq<FlushOp>>))
        requires
            self.wf(),
        ensures
            r.0 is Ok ==> r.1@ == spec_flush_plan(self.entry_seq()),
            r.0 is Err ==> exists|j: int|
                0 <= j <= self.entry_seq().len() && r.1@ == spec_flush_plan(
                    #[trigger] self.entry_seq().subrange(0, j),
                ),
            r.0 matches Err(e) ==> exists|i: int|
                0 <= i < self.entry_seq().len() && storage::schema_scoped_error(
                    e,
                    (#[trigger] self.entry_seq()[i]).schema,
                ),
    {
        let ghost mut ops: Seq<FlushOp> = Seq::empty();
        let mut i: usize = 0;
        while i < self.entries.len()
            invariant
                self.wf(),
                0 <= i <= self.entries@.len(),
                ops == spec_flush_plan(self.entries@.subrange(0, i as int)),
            decreases self.entries@.len() - i,
        {
            proof {
                assert(entry_wf(self.entries@[i as int]));
            }
            let e = &self.entries[i];
            match e.state {
                ObjectState::Modified => {
                    match storage::update_row(self.conn, e.id, &e.schema, &e.row) {
                        Ok(_) => {
                            proof {
                                ops = ops.push(flush_op(*e));
                            }
                        },
                        Err(err) => {
                            proof {
                                assert(storage::schema_scoped_error(
                                    err,
                                    self.entry_seq()[i as int].schema,
                                ));
                            }
                            return (Err(err), Ghost(ops));
                        },
                    }
                },
                ObjectState::Removed => {
                    match storage::delete_row(self.conn, e.id, &e.schema) {
                        Ok(_) => {
                            proof {
                                ops = ops.push(flush_op(*e));
                            }
                        },
                        Err(err) => {
                            proof {
                                assert(storage::schema_scoped_error(
                                    err,
                                    self.entry_seq()[i as int].schema,
                                ));
                            }
                            return (Err(err), Ghost(ops));
                        },
                    }
                },
                ObjectState::Clean => (),
            }
            i += 1;
            proof {
                let pre = self.entries@.subrange(0, i - 1);
                let cur = self.entries@.subrange(0, i as int);
                assert(cur.drop_last() =~= pre);
                assert(cur.last() == self.entries@[i - 1]);
            }
        }
        proof {
            assert(self.entries@.subrange(0, self.entries@.len() as int) =~= self.entries@);
        }
        (Ok(()), Ghost(ops))
    }

    /// The operations the commit flush performs, in entry order: the
    /// identity and state of every modified or removed entry. Clean
    /// entries contribute nothing.
    pub fn flush_plan(&self) -> (plan: Vec<(ObjectId, ObjectState)>)
        ensures
            plan@.len() == spec_flush_plan(self.entry_seq()).len(),
            forall|k: int|
                0 <= k < plan@.len() ==> (#[trigger] plan@[k]).0.value() == spec_flush_plan(
                    self.entry_seq(),
                )[k].key.1 && plan@[k].1 == spec_flush_plan(self.entry_seq())[k].state,
    {
        let mut plan: Vec<(ObjectId, ObjectState)> = Vec::new();
        let mut i: usize = 0;
        while i < self.entries.len()
            invariant
                0 <= i <= self.entries@.len(),
                plan@.len() == spec_flush_plan(self.entries@.subrange(0, i as int)).len(),
                forall|k: int|
                    0 <= k < plan@.len() ==> (#[trigger] plan@[k]).0.value() == spec_flush_plan(
                        self.entries@.subrange(0, i as int),
                    )[k].key.1 && plan@[k].1 == spec_flush_plan(
                        self.entries@.subrange(0, i as int),
                    )[k].state,
            decreases self.entries@.len() - i,
        {
            let e = &self.entries[i];
            let dirty = match e.state {
                ObjectState::Modified => true,
                ObjectState::Removed => true,
                ObjectState::Clean => false,
            };
            if dirty {
                plan.push((e.id, e.state));
            }
            i += 1;
            proof {
                let pre = self.entries@.subrange(0, i - 1);
                let cur = self.entries@.subrange(0, i as int);
                assert(cur.drop_last() =~= pre);
                assert(cur.last() == self.entries@[i - 1]);
            }
        }
        proof {
            assert(self.entries@.subrange(0, self.entries@.len() as int) =~= self.entries@);
        }
        plan
    }

    /// Flushes every dirty entry through the row execution layer, then
    /// commits the backend transaction. A failed flush leaves the
    /// backend transaction open; the caller must start afresh.
    pub fn commit(self) -> (r: Result<(), Error>)
        requires
            self.wf(),
        ensures
            r matches Err(e) ==> e is LockConflict || e is Storage || exists|i: int|
                0 <= i < self.entry_seq().len() && storage::schema_scoped_error(
                    e,
                    (#[trigger] self.entry_seq()[i]).schema,
                ),
    {
        let (applied, _flushed) = self.try_apply();
        match applied {
            Ok(_) => (),
            Err(e) => {
                return Err(e);
            },
        }
        storage::commit(self.conn)
    }

    /// Discards the identity map and rolls the backend transaction
    /// back; nothing tracked is written.
    pub fn rollback(self) -> (r: Result<(), Error>)
        ensures
            r matches Err(e) ==> e is LockConflict || e is Storage,
    {
        storage::rollback(self.conn)
    }
}

/// A typed, cloneable handle over one tracked entry. Two handles with
/// the same key address the same entry of the same transaction.
#[derive(Clone, Debug)]
pub struct Tx {
    schema: Schema,
    id: ObjectId,
}

impl Tx {
    /// The identity this handle addresses.
    pub closed spec fn spec_id(&self) -> ObjectId {
        self.id
    }

    /// The identity-map key this handle addresses.
    pub closed spec fn spec_key(&self) -> (Seq<char>, i64) {
        (self.schema.table_name@, self.id.value())
    }

    pub fn id(&self) -> (r: ObjectId)
        ensures
            r == self.spec_id(),
    {
        self.id
    }

    /// The lifecycle state of the entry this handle addresses.
    pub fn state(&self, tr: &Transaction<'_>) -> (st: ObjectState)
        requires
            tr.wf(),
            tr.tracks(self.spec_key()),
        ensures
            st == tr@[self.spec_key()].state,
    {
        let i = self.position(tr);
        self.entries_at(tr, i).state
    }

    /// Read access to the record data: a copy of the entry's row. A
    /// removed entry must not be read again and reads as `NotFound`.
    pub fn borrow(&self, tr: &Transaction<'_>) -> (r: Result<Row, Error>)
        requires
            tr.wf(),
            tr.tracks(self.spec_key()),
        ensures
            tr@[self.spec_key()].state != ObjectState::Removed ==> (r matches Ok(row)
                && row.deep_view() == tr@[self.spec_key()].row),
            tr@[self.spec_key()].state == ObjectState::Removed ==> (r matches Err(e)
                && is_not_found(e, self.spec_id(), self.spec_record_name())),
    {
        let i = self.position(tr);
        let e = self.entries_at(tr, i);
        if matches!(e.state, ObjectState::Removed) {
            Err(
                Error::NotFound(
                    NotFoundError { object_id: self.id, record_name: self.schema.record_name.clone() },
                ),
            )
        } else {
            Ok(clone_row(&e.row))
        }
    }

    /// The record name of the descriptor this handle was made with.
    pub closed spec fn spec_record_name(&self) -> Seq<char> {
        self.schema.record_name@
    }

    /// Mutable access to the record data: replaces the entry's row and
    /// transitions the entry to `Modified`. A removed entry is terminal
    /// and reads as `NotFound`.
    pub fn update(&self, tr: &mut Transaction<'_>, row: Row) -> (r: Result<(), Error>)
        requires
            old(tr).wf(),
            old(tr).tracks(self.spec_key()),
            row@.len() == old(tr)@[self.spec_key()].row.len(),
        ensures
            final(tr).wf(),
            old(tr)@[self.spec_key()].state != ObjectState::Removed ==> (r is Ok && final(tr)@
                == old(tr)@.insert(
                self.spec_key(),
                EntryModel { row: row.deep_view(), state: ObjectState::Modified },
            )),
            old(tr)@[self.spec_key()].state == ObjectState::Removed ==> (r matches Err(e)
                && is_not_found(e, self.spec_id(), self.spec_record_name()) && final(tr)@ == old(
                tr,
            )@),
    {
        let i = self.position(tr);
        let e = self.entries_at(tr, i);
        if matches!(e.state, ObjectState::Removed) {
            return Err(
                Error::NotFound(
                    NotFoundError { object_id: self.id, record_name: self.schema.record_name.clone() },
                ),
            );
        }
        let entry = TrackedEntry {
            schema: e.schema.clone_schema(),
            id: e.id,
            row,
            state: ObjectState::Modified,
        };
        proof {
            lemma_model_update(tr.entries@, i as int, entry);
        }
        tr.entries.set(i, entry);
        Ok(())
    }

    /// Mutable access to the record data: transitions the entry to
    /// `Modified` and yields the entry's own row. Edits through the
    /// returned reference are seen by every handle for the identity. A
    /// removed entry is terminal and must not be accessed this way; a
    /// caller unsure of the state checks it first, or uses `update`.
    /// The row must keep its length, which `to_row` alignment gives.
    pub fn borrow_mut<'t>(&self, tr: &'t mut Transaction<'_>) -> (r: &'t mut Row)
        requires
            old(tr).wf(),
            old(tr).tracks(self.spec_key()),
            old(tr)@[self.spec_key()].state != ObjectState::Removed,
        ensures
            (*r).deep_view() == old(tr)@[self.spec_key()].row,
            final(tr)@ == old(tr)@.insert(
                self.spec_key(),
                EntryModel { row: (*final(r)).deep_view(), state: ObjectState::Modified },
            ),
            (*final(r))@.len() == old(tr)@[self.spec_key()].row.len() ==> final(tr).wf(),
    {
        broadcast use lemma_model_update_auto;

        let i = self.position(tr);
        let e = &mut tr.entries[i];
        e.state = ObjectState::Modified;
        &mut e.row
    }

    /// Transitions the entry to `Removed`, terminal for the
    /// transaction: the delete is flushed at commit, and neither `get`
    /// nor `borrow` may see the identity again.
    pub fn delete(self, tr: &mut Transaction<'_>)
        requires
            old(tr).wf(),
            old(tr).tracks(self.spec_key()),
        ensures
            final(tr).wf(),
            final(tr)@ == old(tr)@.insert(
                self.spec_key(),
                EntryModel { row: old(tr)@[self.spec_key()].row, state: ObjectState::Removed },
            ),
    {
        let i = self.position(tr);
        let e = self.entries_at(tr, i);
        let entry = TrackedEntry {
            schema: e.schema.clone_schema(),
            id: e.id,
            row: clone_row(&e.row),
            state: ObjectState::Removed,
        };
        proof {
            lemma_model_update(tr.entries@, i as int, entry);
        }
        tr.entries.set(i, entry);
    }

    /// The position of this handle's entry in the transaction.
    fn position(&self, tr: &Transaction<'_>) -> (i: usize)
        requires
            tr.wf(),
            tr.tracks(self.spec_key()),
        ensures
            0 <= i < tr.entry_seq().len(),
            entry_key(tr.entry_seq()[i as int]) == self.spec_key(),
            tr@[self.spec_key()] == entry_model(tr.entry_seq()[i as int]),
            entry_wf(tr.entry_seq()[i as int]),
    {
        match find_entry(&tr.entries, &self.schema.table_name, self.id) {
            Some(i) => {
                proof {
                    lemma_model_at(tr.entries@, i as int);
                }
                i
            },
            None => {
                proof {
                    lemma_model_contains(tr.entries@, self.spec_key());
                }
                unreached()
            },
        }
    }

    /// The entry at a known position.
    fn entries_at<'e>(&self, tr: &'e Transaction<'_>, i: usize) -> (e: &'e TrackedEntry)
        requires
            0 <= i < tr.entry_seq().len(),
        ensures
            *e == tr.entry_seq()[i as int],
    {
        &tr.entries[i]
    }
}

/// A copy of a row, equal at the model level.
pub fn clone_row(row: &Row) -> (r: Row)
    ensures
        r@.len() == row@.len(),
        r.deep_view() == row.deep_view(),
{
    let mut out: Vec<Value> = Vec::new();
    let mut i: usize = 0;
    while i < row.len()
        invariant
            0 <= i <= row@.len(),
            out@.len() == i,
            forall|k: int| 0 <= k < i ==> (#[trigger] out@[k])@ == row@[k]@,
        decreases row@.len() - i,
    {
        out.push(row[i].clone_value());
        i += 1;
    }
    proof {
        assert(out.deep_view() =~= row.deep_view());
    }
    out
}

// ---------------------------------------------------------------------------
// Laws
// ---------------------------------------------------------------------------
/// Identity-map uniqueness: two handles over one tracked key alias the
/// same entry — they read the same record data, and after a mutation
/// through one handle, the other reads the written row back.
pub proof fn lemma_handle_aliasing(
    m: Map<(Seq<char>, i64), EntryModel>,
    h1: Tx,
    h2: Tx,
    row: Seq<ValueModel>,
)
    requires
        h1.spec_key() == h2.spec_key(),
        m.contains_key(h1.spec_key()),
    ensures
        m[h1.spec_key()] == m[h2.spec_key()],
        m.insert(h1.spec_key(), EntryModel { row, state: ObjectState::Modified })[h2.spec_key()].row
            == row,
{
}

/// One operation of a commit's flush: the key and state of a dirty
/// entry, with the record data an update would write.
pub struct FlushOp {
    pub key: (Seq<char>, i64),
    pub state: ObjectState,
    pub row: Seq<ValueModel>,
}

pub open spec fn flush_op(e: TrackedEntry) -> FlushOp {
    FlushOp { key: entry_key(e), state: e.state, row: e.row.deep_view() }
}

/// The operations a commit flushes, in entry order: one per modified or
/// removed entry.
pub open spec fn spec_flush_plan(s: Seq<TrackedEntry>) -> Seq<FlushOp>
    decreases s.len(),
{
    if s.len() == 0 {
        Seq::empty()
    } else {
        let rest = spec_flush_plan(s.drop_last());
        if needs_flush(s.last().state) {
            rest.push(flush_op(s.last()))
        } else {
            rest
        }
    }
}

/// Dirty-flush precision: every planned operation comes from a modified
/// or removed entry, every such entry is planned, and a transaction of
/// clean entries flushes nothing.
pub proof fn lemma_flush_precision(s: Seq<TrackedEntry>)
    ensures
        forall|k: int|
            0 <= k < spec_flush_plan(s).len() ==> exists|i: int|
                0 <= i < s.len() && needs_flush(#[trigger] s[i].state) && #[trigger] spec_flush_plan(
                    s,
                )[k] == flush_op(s[i]),
        forall|i: int|
            0 <= i < s.len() && needs_flush(s[i].state) ==> spec_flush_plan(s).contains(
                flush_op(#[trigger] s[i]),
            ),
        (forall|i: int| 0 <= i < s.len() ==> (#[trigger] s[i]).state == ObjectState::Clean)
            ==> spec_flush_plan(s) == Seq::<FlushOp>::empty(),
    decreases s.len(),
{
    if s.len() > 0 {
        lemma_flush_precision(s.drop_last());
        let rest = spec_flush_plan(s.drop_last());
        assert(forall|i: int| 0 <= i < s.len() - 1 ==> s.drop_last()[i] == s[i]);
        assert forall|k: int| 0 <= k < spec_flush_plan(s).len() implies exists|i: int|
            0 <= i < s.len() && needs_flush(#[trigger] s[i].state) && #[trigger] spec_flush_plan(
                s,
            )[k] == flush_op(s[i]) by {
            if k < rest.len() {
                let i = choose|i: int|
                    0 <= i < s.drop_last().len() && needs_flush(#[trigger] s.drop_last()[i].state)
                        && spec_flush_plan(s.drop_last())[k] == flush_op(s.drop_last()[i]);
                assert(spec_flush_plan(s)[k] == flush_op(s[i]));
            } else {
                assert(needs_flush(s.last().state));
                assert(spec_flush_plan(s)[k] == flush_op(s[s.len() - 1]));
            }
        }
        assert forall|i: int| 0 <= i < s.len() && needs_flush(s[i].state) implies spec_flush_plan(
            s,
        ).contains(flush_op(#[trigger] s[i])) by {
            if i < s.len() - 1 {
                assert(rest.contains(flush_op(s.drop_last()[i])));
                let k = choose|k: int| 0 <= k < rest.len() && rest[k] == flush_op(s[i]);
                assert(spec_flush_plan(s)[k] == flush_op(s[i]));
            } else {
                assert(spec_flush_plan(s).last() == flush_op(s[i]));
            }
        }
    }
}

} // verus!
