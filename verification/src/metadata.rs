//! The versioned record that the cluster keeps for one cell, and the rule that
//! decides whether a competing record may take its place.

use crate::clock::{bumped, clock_order, count, ClockOrder, Counters, VersionClock};
use crate::endpoint::Endpoint;
use crate::identity::CellId;
use crate::status::Status;
use crate::time::{later, latest, now_millis};
use vstd::prelude::*;

verus! {

/// What is known of one cell: who it is, how it fares, where it listens, the
/// version of this knowledge and when it last changed.
pub struct Metadata {
    pub id: CellId,
    pub state: Status,
    pub endpoint: Endpoint,
    pub version: VersionClock,
    /// Milliseconds since the start of 1970 (UTC).
    pub updated: i64,
}

/// A record as a mathematical value: the fields of [`Metadata`], with the
/// version clock as its map of counters.
pub ghost struct Record {
    pub id: CellId,
    pub state: Status,
    pub endpoint: Endpoint,
    pub version: Counters,
    pub updated: i64,
}

impl View for Metadata {
    type V = Record;

    open spec fn view(&self) -> Record {
        Record {
            id: self.id,
            state: self.state,
            endpoint: self.endpoint,
            version: self.version@,
            updated: self.updated,
        }
    }
}

/// The tie-break between two records whose clocks are concurrent: only a move
/// towards distrust is let through.
///
/// | held | offered | accepted |
/// |---|---|---|
/// | `Pending` | `Inactive` | yes |
/// | `Active` | `Inactive` | yes |
/// | `Active` | `Pending` | yes |
/// | any other pair | | no |
pub open spec fn tie_break(held: Status, offered: Status) -> bool {
    ||| held == Status::Pending && offered == Status::Inactive
    ||| held == Status::Active && offered == Status::Inactive
    ||| held == Status::Active && offered == Status::Pending
}

/// Whether `candidate` may replace `held`.
///
/// A candidate whose clock is causally after the held one always may; one whose
/// clock is equal or causally before never may; between concurrent clocks the
/// statuses decide, by [`tie_break`].
pub open spec fn may_supersede(held: Record, candidate: Record) -> bool {
    match clock_order(held.version, candidate.version) {
        ClockOrder::Less => true,
        ClockOrder::Equal => false,
        ClockOrder::Greater => false,
        ClockOrder::Concurrent => tie_break(held.state, candidate.state),
    }
}

/// Whether a held record gives way to a candidate: it is not `Gone`, and the
/// candidate may supersede it.
pub open spec fn accepts(held: Record, candidate: Record) -> bool {
    !held.state.is_terminal() && may_supersede(held, candidate)
}

/// The record that is held after `candidate` replaced `held`: the candidate, with a
/// time of last change that is not earlier than the one held before.
pub open spec fn replaced(held: Record, candidate: Record) -> Record {
    Record {
        id: candidate.id,
        state: candidate.state,
        endpoint: candidate.endpoint,
        version: candidate.version,
        updated: later(held.updated, candidate.updated),
    }
}

/// The record that is held after `candidate` was offered to `held`.
pub open spec fn absorbed(held: Record, candidate: Record) -> Record {
    if accepts(held, candidate) {
        replaced(held, candidate)
    } else {
        held
    }
}

impl Record {
    /// The record of a cell that has just been created at `now`: active, with a
    /// clock that holds one change by the cell itself.
    pub open spec fn created(id: CellId, endpoint: Endpoint, now: i64) -> Record {
        Record {
            id,
            state: Status::Active,
            endpoint,
            version: bumped(Map::empty(), id@),
            updated: now,
        }
    }

    /// This record after `origin` moved it to `state` at `now`: the clock counts one
    /// more change by `origin`, and the time of the last change does not go back.
    pub open spec fn applied(self, state: Status, origin: CellId, now: i64) -> Record {
        Record {
            id: self.id,
            state,
            endpoint: self.endpoint,
            version: bumped(self.version, origin@),
            updated: later(self.updated, now),
        }
    }

    /// Whether the clock can count one more change by `origin`.
    pub open spec fn can_advance(self, origin: CellId) -> bool {
        count(self.version, origin@) < u64::MAX
    }

    /// Whether this record takes a move to another status on behalf of `origin`: it
    /// is not `Gone`, and its clock can count one more change by `origin`.
    pub open spec fn can_move(self, origin: CellId) -> bool {
        !self.state.is_terminal() && self.can_advance(origin)
    }

    /// This record after `origin` asked to move it to `state` at `now`.
    pub open spec fn moved(self, state: Status, origin: CellId, now: i64) -> Record {
        if self.can_move(origin) {
            self.applied(state, origin, now)
        } else {
            self
        }
    }
}

impl Metadata {
    /// The record of a new cell: active, known at `endpoint`, with one change by
    /// the cell itself on the clock, last changed now.
    pub fn new(id: CellId, endpoint: Endpoint) -> (record: Metadata)
        ensures
            exists|now: i64| now >= 0 && record@ == Record::created(id, endpoint, now),
    {
        let now = now_millis();
        Metadata::new_at(id, endpoint, now)
    }

    /// The record of a new cell, last changed at `now`.
    pub fn new_at(id: CellId, endpoint: Endpoint, now: i64) -> (record: Metadata)
        ensures
            record@ == Record::created(id, endpoint, now),
    {
        let mut version = VersionClock::new();
        version.increment(id);
        Metadata { id, endpoint, state: Status::Active, version, updated: now }
    }

    /// Whether the cell takes part in the cluster: it is active or joining.
    pub fn active(&self) -> (yes: bool)
        ensures
            yes == self.state.participates(),
    {
        matches!(self.state, Status::Active | Status::Pending)
    }

    /// Moves the record to `state` on behalf of `origin`: sets the status, counts
    /// one more change by `origin` on the clock, and refreshes the time of the
    /// last change, which never goes back.
    pub fn update(&mut self, state: Status, origin: CellId)
        requires
            old(self)@.can_advance(origin),
        ensures
            exists|now: i64| now >= 0 && final(self)@ == old(self)@.applied(state, origin, now),
    {
        let now = now_millis();
        self.update_at(state, origin, now);
    }

    /// Moves the record to `state` on behalf of `origin`, at the time `now`.
    pub fn update_at(&mut self, state: Status, origin: CellId, now: i64)
        requires
            old(self)@.can_advance(origin),
        ensures
            final(self)@ == old(self)@.applied(state, origin, now),
    {
        self.state = state;
        self.version.increment(origin);
        self.updated = latest(self.updated, now);
    }

    /// Whether `other` may replace this record.
    pub fn can_update(&self, other: &Metadata) -> (yes: bool)
        ensures
            yes == may_supersede(self@, other@),
    {
        match self.version.compare(&other.version) {
            ClockOrder::Equal => false,
            ClockOrder::Greater => false,
            ClockOrder::Less => true,
            ClockOrder::Concurrent => {
                match (self.state, other.state) {
                    (Status::Inactive, _) => false,
                    (Status::Gone, _) => false,
                    (Status::Pending, Status::Inactive) => true,
                    (Status::Active, Status::Inactive) => true,
                    (Status::Active, Status::Pending) => true,
                    _ => false,
                }
            },
        }
    }

    /// Offers `candidate` to this record and returns whether the record changed.
    ///
    /// The candidate takes the place of the record where the record is not `Gone`
    /// and the candidate may supersede it; the time of last change never goes back.
    /// Otherwise the record stays as it is.
    pub fn absorb(&mut self, candidate: Metadata) -> (changed: bool)
        ensures
            changed == accepts(old(self)@, candidate@),
            final(self)@ == absorbed(old(self)@, candidate@),
    {
        if !matches!(self.state, Status::Gone) && self.can_update(&candidate) {
            self.id = candidate.id;
            self.state = candidate.state;
            self.endpoint = candidate.endpoint;
            self.version = candidate.version;
            self.updated = latest(self.updated, candidate.updated);
            true
        } else {
            false
        }
    }

    /// Moves the record to `state` on behalf of `origin` at the time `now`, unless
    /// the record is `Gone` or its clock cannot count another change by `origin`;
    /// returns whether the record changed.
    pub fn transition_at(&mut self, state: Status, origin: CellId, now: i64) -> (changed: bool)
        ensures
            changed == old(self)@.can_move(origin),
            final(self)@ == old(self)@.moved(state, origin, now),
    {
        if !matches!(self.state, Status::Gone) && self.version.get(origin) < u64::MAX {
            self.update_at(state, origin, now);
            true
        } else {
            false
        }
    }

    /// Moves the record to `state` on behalf of `origin` at the current time, unless
    /// the record is `Gone` or its clock cannot count another change by `origin`;
    /// returns whether the record changed.
    pub fn transition(&mut self, state: Status, origin: CellId) -> (changed: bool)
        ensures
            changed == old(self)@.can_move(origin),
            exists|now: i64| now >= 0 && final(self)@ == old(self)@.moved(state, origin, now),
    {
        let now = now_millis();
        self.transition_at(state, origin, now)
    }
}

impl Clone for Metadata {
    fn clone(&self) -> (copy: Metadata)
        ensures
            copy@ == self@,
    {
        Metadata {
            id: self.id,
            state: self.state,
            endpoint: self.endpoint,
            version: self.version.clone(),
            updated: self.updated,
        }
    }
}

} // verus!
