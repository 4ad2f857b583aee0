//! The cell store: one record per known cell, and the rules by which gossip
//! changes it.

use crate::clock::law_bump_advances;
use crate::identity::CellId;
use crate::message::{Gossip, GossipPayload};
use crate::metadata::{accepts, replaced, Metadata, Record};
use crate::status::Status;
use crate::time::{later, now_millis};
use vstd::prelude::*;

verus! {

/// The membership table as a mathematical value: the record held for each
/// known identity.
pub type Table = Map<CellId, Record>;

/// Whether offering `candidate` under `key` changes the table: the key is new, or
/// the record held under it gives way.
pub open spec fn upsert_changes(table: Table, key: CellId, candidate: Record) -> bool {
    !table.dom().contains(key) || accepts(table[key], candidate)
}

/// The table after `candidate` was offered under `key`.
pub open spec fn upserted(table: Table, key: CellId, candidate: Record) -> Table {
    if !table.dom().contains(key) {
        table.insert(key, candidate)
    } else if accepts(table[key], candidate) {
        table.insert(key, replaced(table[key], candidate))
    } else {
        table
    }
}

/// Whether a heartbeat or a leave of `id` can be put to the table: the cell is
/// known and its clock can count one more change by the cell.
pub open spec fn can_propose(table: Table, id: CellId) -> bool {
    table.dom().contains(id) && table[id].can_advance(id)
}

/// Whether dispatching `message` at `now` changes the table.
pub open spec fn dispatch_changes(table: Table, message: Gossip, now: i64) -> bool {
    match message {
        Gossip::Join(record) => upsert_changes(table, record.id, record),
        Gossip::Heartbeat(id) => can_propose(table, id) && upsert_changes(
            table,
            id,
            table[id].applied(Status::Active, id, now),
        ),
        Gossip::Leave(id) => can_propose(table, id) && upsert_changes(
            table,
            id,
            table[id].applied(Status::Gone, id, now),
        ),
    }
}

/// The table after `message` was dispatched at `now`.
///
/// A join offers the record it carries. A heartbeat offers the held record moved to
/// `Active` by the cell itself, a leave the held record moved to `Gone`; either does
/// nothing for a cell that is not known.
pub open spec fn dispatched(table: Table, message: Gossip, now: i64) -> Table {
    match message {
        Gossip::Join(record) => upserted(table, record.id, record),
        Gossip::Heartbeat(id) => if can_propose(table, id) {
            upserted(table, id, table[id].applied(Status::Active, id, now))
        } else {
            table
        },
        Gossip::Leave(id) => if can_propose(table, id) {
            upserted(table, id, table[id].applied(Status::Gone, id, now))
        } else {
            table
        },
    }
}

/// No identity occurs twice among the keys of `cells`.
pub open spec fn distinct_keys(cells: Seq<(CellId, Metadata)>) -> bool {
    forall|i: int, j: int|
        0 <= i < j < cells.len() ==> (#[trigger] cells[i]).0 != (#[trigger] cells[j]).0
}

/// Whether `cells` holds an entry under `key`.
pub open spec fn has_key(cells: Seq<(CellId, Metadata)>, key: CellId) -> bool {
    exists|i: int| 0 <= i < cells.len() && (#[trigger] cells[i]).0 == key
}

/// An index at which `cells` holds `key`.
pub open spec fn slot_of(cells: Seq<(CellId, Metadata)>, key: CellId) -> int {
    choose|i: int| 0 <= i < cells.len() && (#[trigger] cells[i]).0 == key
}

/// The table that a list of entries with distinct keys spells.
pub open spec fn table_of(cells: Seq<(CellId, Metadata)>) -> Table {
    Map::new(|key: CellId| has_key(cells, key), |key: CellId| cells[slot_of(cells, key)].1@)
}

/// The entry at index `i` is what the table holds under its key.
proof fn lemma_table_at(cells: Seq<(CellId, Metadata)>, i: int)
    requires
        distinct_keys(cells),
        0 <= i < cells.len(),
    ensures
        table_of(cells).dom().contains(cells[i].0),
        table_of(cells)[cells[i].0] == cells[i].1@,
{
    let key = cells[i].0;
    assert(has_key(cells, key));
    let j = slot_of(cells, key);
    assert(0 <= j < cells.len() && cells[j].0 == key);
    if j < i {
        assert(cells[j].0 != cells[i].0);
    } else if i < j {
        assert(cells[i].0 != cells[j].0);
    }
}

/// Adding an entry under a new key inserts it into the table.
proof fn lemma_table_push(cells: Seq<(CellId, Metadata)>, key: CellId, record: Metadata)
    requires
        distinct_keys(cells),
        !has_key(cells, key),
    ensures
        distinct_keys(cells.push((key, record))),
        table_of(cells.push((key, record))) == table_of(cells).insert(key, record@),
{
    let grown = cells.push((key, record));
    assert forall|i: int, j: int| 0 <= i < j < grown.len() implies (#[trigger] grown[i]).0 != (
    #[trigger] grown[j]).0 by {
        if j < cells.len() {
            assert(cells[i].0 != cells[j].0);
        } else {
            assert(cells[i].0 != key);
        }
    }
    assert forall|k: CellId| has_key(grown, k) == (k == key || has_key(cells, k)) by {
        if has_key(grown, k) {
            let i = slot_of(grown, k);
            if i < cells.len() {
                assert(cells[i].0 == k);
            }
        }
        if k == key {
            assert(grown[cells.len() as int].0 == k);
        }
        if has_key(cells, k) {
            let i = slot_of(cells, k);
            assert(grown[i].0 == k);
        }
    }
    assert forall|k: CellId| has_key(grown, k) implies #[trigger] table_of(grown)[k] == table_of(
        cells,
    ).insert(key, record@)[k] by {
        let i = slot_of(grown, k);
        lemma_table_at(grown, i);
        if i < cells.len() {
            lemma_table_at(cells, i);
        }
    }
    assert(table_of(grown) =~= table_of(cells).insert(key, record@));
}

/// Replacing the record of an entry replaces it in the table.
proof fn lemma_table_update(cells: Seq<(CellId, Metadata)>, i: int, record: Metadata)
    requires
        distinct_keys(cells),
        0 <= i < cells.len(),
    ensures
        distinct_keys(cells.update(i, (cells[i].0, record))),
        table_of(cells.update(i, (cells[i].0, record))) == table_of(cells).insert(
            cells[i].0,
            record@,
        ),
{
    let key = cells[i].0;
    let changed = cells.update(i, (key, record));
    assert forall|a: int, b: int| 0 <= a < b < changed.len() implies (#[trigger] changed[a]).0 != (
    #[trigger] changed[b]).0 by {
        assert(cells[a].0 != cells[b].0);
    }
    assert forall|k: CellId| has_key(changed, k) == has_key(cells, k) by {
        if has_key(changed, k) {
            let j = slot_of(changed, k);
            assert(cells[j].0 == k);
        }
        if has_key(cells, k) {
            let j = slot_of(cells, k);
            assert(changed[j].0 == k);
        }
    }
    assert(has_key(cells, key)) by {
        assert(cells[i].0 == key);
    }
    assert forall|k: CellId| has_key(changed, k) implies #[trigger] table_of(changed)[k]
        == table_of(cells).insert(key, record@)[k] by {
        let j = slot_of(changed, k);
        lemma_table_at(changed, j);
        if j != i {
            lemma_table_at(cells, j);
        }
    }
    assert(table_of(changed) =~= table_of(cells).insert(key, record@));
}

/// The cell store: the record of every cell that this process knows.
pub struct CellStore {
    cells: Vec<(CellId, Metadata)>,
}

impl View for CellStore {
    type V = Table;

    closed spec fn view(&self) -> Table {
        table_of(self.cells@)
    }
}

impl CellStore {
    #[verifier::type_invariant]
    spec fn keys_distinct(self) -> bool {
        distinct_keys(self.cells@)
    }

    /// A store that knows no cell.
    pub fn new() -> (store: CellStore)
        ensures
            store@ == Map::<CellId, Record>::empty(),
    {
        let store = CellStore { cells: Vec::new() };
        assert(store@ =~= Map::<CellId, Record>::empty());
        store
    }

    /// The index of the entry for `identity`, if the cell is known.
    fn find(&self, identity: CellId) -> (slot: Option<usize>)
        ensures
            match slot {
                Some(i) => i < self.cells@.len() && self.cells@[i as int].0 == identity,
                None => !has_key(self.cells@, identity),
            },
    {
        let mut i: usize = 0;
        while i < self.cells.len()
            invariant
                i <= self.cells@.len(),
                forall|j: int| 0 <= j < i ==> (#[trigger] self.cells@[j]).0 != identity,
            decreases self.cells@.len() - i,
        {
            if self.cells[i].0 == identity {
                return Some(i);
            }
            i += 1;
        }
        None
    }

    /// A copy of the record held for `identity`, or `None` where the cell is not
    /// known.
    pub fn get(&self, identity: CellId) -> (found: Option<Metadata>)
        ensures
            match found {
                Some(record) => self@.dom().contains(identity) && record@ == self@[identity],
                None => !self@.dom().contains(identity),
            },
    {
        proof {
            use_type_invariant(self);
        }
        match self.find(identity) {
            Some(i) => {
                proof {
                    lemma_table_at(self.cells@, i as int);
                }
                Some(self.cells[i].1.clone())
            },
            None => None,
        }
    }

    /// Offers `candidate` as the record of `identity` and returns whether the store
    /// changed.
    ///
    /// A cell that is not yet known gets the candidate as its record. For a known
    /// cell the candidate replaces the held record where that record is not `Gone`
    /// and the candidate may supersede it; the time of last change never goes back.
    /// Otherwise nothing changes.
    pub fn upsert(&mut self, identity: CellId, candidate: Metadata) -> (changed: bool)
        ensures
            final(self)@ == upserted(old(self)@, identity, candidate@),
            changed == upsert_changes(old(self)@, identity, candidate@),
    {
        proof {
            use_type_invariant(&*self);
        }
        let slot = self.find(identity);
        let mut cells: Vec<(CellId, Metadata)> = Vec::new();
        std::mem::swap(&mut self.cells, &mut cells);
        let ghost before = cells@;
        let changed = match slot {
            None => {
                proof {
                    lemma_table_push(before, identity, candidate);
                }
                cells.push((identity, candidate));
                true
            },
            Some(i) => {
                let changed = cells[i].1.absorb(candidate);
                proof {
                    lemma_table_at(before, i as int);
                    lemma_table_update(before, i as int, cells@[i as int].1);
                    assert(cells@ =~= before.update(i as int, (identity, cells@[i as int].1)));
                    assert(table_of(cells@) =~= upserted(table_of(before), identity, candidate@));
                }
                changed
            },
        };
        self.cells = cells;
        changed
    }

    /// A copy of the whole table: one entry for every known cell and no cell twice.
    pub fn snapshot(&self) -> (entries: Vec<(CellId, Metadata)>)
        ensures
            distinct_keys(entries@),
            table_of(entries@) == self@,
            entries@.len() == self@.dom().len(),
    {
        proof {
            use_type_invariant(self);
        }
        let mut entries: Vec<(CellId, Metadata)> = Vec::new();
        let mut i: usize = 0;
        while i < self.cells.len()
            invariant
                i <= self.cells@.len(),
                entries@.len() == i,
                forall|j: int|
                    0 <= j < i ==> (#[trigger] entries@[j]).0 == self.cells@[j].0 && entries@[j].1@
                        == self.cells@[j].1@,
            decreases self.cells@.len() - i,
        {
            let key = self.cells[i].0;
            let record = self.cells[i].1.clone();
            entries.push((key, record));
            i += 1;
        }
        proof {
            lemma_same_table(entries@, self.cells@);
            lemma_table_size(entries@);
        }
        entries
    }

    /// Applies a gossip message at the current time and returns whether the store
    /// changed.
    pub fn dispatch(&mut self, message: GossipPayload) -> (changed: bool)
        ensures
            exists|now: i64|
                now >= 0 && final(self)@ == dispatched(old(self)@, message@, now) && changed
                    == dispatch_changes(old(self)@, message@, now),
    {
        let now = now_millis();
        self.dispatch_at(message, now)
    }

    /// Applies a gossip message at the time `now` and returns whether the store
    /// changed.
    pub fn dispatch_at(&mut self, message: GossipPayload, now: i64) -> (changed: bool)
        ensures
            final(self)@ == dispatched(old(self)@, message@, now),
            changed == dispatch_changes(old(self)@, message@, now),
    {
        match message {
            GossipPayload::Join(record) => {
                let id = record.id;
                self.upsert(id, record)
            },
            GossipPayload::Heartbeat(id) => self.propose(id, Status::Active, now),
            GossipPayload::Leave(id) => self.propose(id, Status::Gone, now),
        }
    }

    /// Offers the held record of `id`, moved to `state` by the cell itself at `now`.
    fn propose(&mut self, id: CellId, state: Status, now: i64) -> (changed: bool)
        ensures
            final(self)@ == if can_propose(old(self)@, id) {
                upserted(old(self)@, id, old(self)@[id].applied(state, id, now))
            } else {
                old(self)@
            },
            changed == (can_propose(old(self)@, id) && upsert_changes(
                old(self)@,
                id,
                old(self)@[id].applied(state, id, now),
            )),
    {
        proof {
            use_type_invariant(&*self);
        }
        match self.find(id) {
            None => false,
            Some(i) => {
                let mut cells: Vec<(CellId, Metadata)> = Vec::new();
                std::mem::swap(&mut self.cells, &mut cells);
                let ghost before = cells@;
                let changed = cells[i].1.transition_at(state, id, now);
                proof {
                    lemma_table_at(before, i as int);
                    lemma_table_update(before, i as int, cells@[i as int].1);
                    lemma_move_is_upsert(table_of(before), id, state, now);
                    assert(cells@ =~= before.update(i as int, (id, cells@[i as int].1)));
                    assert(table_of(cells@) =~= table_of(before).insert(
                        id,
                        table_of(before)[id].moved(state, id, now),
                    ));
                }
                self.cells = cells;
                changed
            },
        }
    }
}

/// Moving a held record on behalf of its own cell is the same as offering the moved
/// record to the store: a record that has moved is causally after what it was.
pub proof fn lemma_move_is_upsert(table: Table, id: CellId, state: Status, now: i64)
    requires
        table.dom().contains(id),
    ensures
        (can_propose(table, id) && upsert_changes(table, id, table[id].applied(state, id, now)))
            == table[id].can_move(id),
        can_propose(table, id) ==> upserted(table, id, table[id].applied(state, id, now))
            == table.insert(id, table[id].moved(state, id, now)),
        !can_propose(table, id) ==> table[id].moved(state, id, now) == table[id],
{
    if can_propose(table, id) {
        law_bump_advances(table[id].version, id@);
        assert(later(table[id].updated, later(table[id].updated, now)) == later(
            table[id].updated,
            now,
        ));
        if !accepts(table[id], table[id].applied(state, id, now)) {
            assert(table.insert(id, table[id]) =~= table);
        }
    }
}

/// Two lists with the same keys and the same records at every index spell the same
/// table.
proof fn lemma_same_table(a: Seq<(CellId, Metadata)>, b: Seq<(CellId, Metadata)>)
    requires
        distinct_keys(b),
        a.len() == b.len(),
        forall|j: int| 0 <= j < a.len() ==> (#[trigger] a[j]).0 == b[j].0 && a[j].1@ == b[j].1@,
    ensures
        distinct_keys(a),
        table_of(a) == table_of(b),
{
    assert forall|i: int, j: int| 0 <= i < j < a.len() implies (#[trigger] a[i]).0 != (
    #[trigger] a[j]).0 by {
        assert(b[i].0 != b[j].0);
    }
    assert forall|k: CellId| has_key(a, k) == has_key(b, k) by {
        if has_key(a, k) {
            let j = slot_of(a, k);
            assert(b[j].0 == k);
        }
        if has_key(b, k) {
            let j = slot_of(b, k);
            assert(a[j].0 == k);
        }
    }
    assert forall|k: CellId| has_key(a, k) implies #[trigger] table_of(a)[k] == table_of(b)[k] by {
        let j = slot_of(a, k);
        lemma_table_at(a, j);
        lemma_table_at(b, j);
    }
    assert(table_of(a) =~= table_of(b));
}

/// A list with distinct keys has as many entries as its table has keys.
proof fn lemma_table_size(cells: Seq<(CellId, Metadata)>)
    requires
        distinct_keys(cells),
    ensures
        table_of(cells).dom().finite(),
        table_of(cells).dom().len() == cells.len(),
    decreases cells.len(),
{
    if cells.len() == 0 {
        assert(table_of(cells).dom() =~= Set::<CellId>::empty());
    } else {
        let rest = cells.drop_last();
        let last = cells.last();
        assert forall|i: int, j: int| 0 <= i < j < rest.len() implies (#[trigger] rest[i]).0 != (
        #[trigger] rest[j]).0 by {
            assert(cells[i].0 != cells[j].0);
        }
        lemma_table_size(rest);
        assert(!has_key(rest, last.0)) by {
            if has_key(rest, last.0) {
                let i = slot_of(rest, last.0);
                assert(cells[i].0 != cells[cells.len() - 1].0);
            }
        }
        assert(rest.push(last) =~= cells);
        lemma_table_push(rest, last.0, last.1);
        assert(table_of(cells).dom() =~= table_of(rest).dom().insert(last.0));
    }
}

} // verus!
