//! What holds of reconciliation as a whole: laws that relate several operations,
//! stated over the mathematical values that the operations' contracts use.

use crate::clock::{bumped, clock_order, count, law_bump_advances, ClockOrder, Counters};
use crate::identity::CellId;
use crate::message::Gossip;
use crate::metadata::{accepts, may_supersede, replaced, tie_break, Record};
use crate::status::Status;
use crate::store::{can_propose, dispatch_changes, dispatched, upsert_changes, upserted, Table};
use vstd::prelude::*;

verus! {

/// The relation seen from the other clock.
pub open spec fn flipped(order: ClockOrder) -> ClockOrder {
    match order {
        ClockOrder::Less => ClockOrder::Greater,
        ClockOrder::Greater => ClockOrder::Less,
        ClockOrder::Equal => ClockOrder::Equal,
        ClockOrder::Concurrent => ClockOrder::Concurrent,
    }
}

/// The table after a run of messages, each dispatched at the time given with it.
pub open spec fn run(table: Table, steps: Seq<(Gossip, i64)>) -> Table
    decreases steps.len(),
{
    if steps.len() == 0 {
        table
    } else {
        dispatched(run(table, steps.drop_last()), steps.last().0, steps.last().1)
    }
}

/// Swapping the two clocks swaps `Less` and `Greater` and keeps `Equal` and
/// `Concurrent`.
pub proof fn law_order_flips(a: Counters, b: Counters)
    ensures
        clock_order(b, a) == flipped(clock_order(a, b)),
{
}

/// A clock is equal to itself.
pub proof fn law_order_reflexive(a: Counters)
    ensures
        clock_order(a, a) == ClockOrder::Equal,
{
}

/// Causal order wins: a candidate whose clock is causally after the held one may
/// always replace it, and the held record may never replace that candidate.
pub proof fn law_causal_order_wins(held: Record, candidate: Record)
    requires
        clock_order(held.version, candidate.version) == ClockOrder::Less,
    ensures
        may_supersede(held, candidate),
        !may_supersede(candidate, held),
{
    law_order_flips(held.version, candidate.version);
}

/// The tie-break has a direction: of two records, whatever their clocks, at most one
/// may replace the other.
pub proof fn law_supersede_one_way(a: Record, b: Record)
    ensures
        !(may_supersede(a, b) && may_supersede(b, a)),
{
    law_order_flips(a.version, b.version);
}

/// Between concurrent clocks the statuses alone decide, and never in both
/// directions.
pub proof fn law_tie_break_decides(a: Record, b: Record)
    requires
        clock_order(a.version, b.version) == ClockOrder::Concurrent,
    ensures
        may_supersede(a, b) == tie_break(a.state, b.state),
        may_supersede(b, a) == tie_break(b.state, a.state),
        !(tie_break(a.state, b.state) && tie_break(b.state, a.state)),
{
    law_order_flips(a.version, b.version);
}

/// Offering the same candidate again changes nothing: after any upsert, the same
/// upsert is rejected and leaves the table as it is.
pub proof fn law_upsert_idempotent(table: Table, key: CellId, candidate: Record)
    ensures
        !upsert_changes(upserted(table, key, candidate), key, candidate),
        upserted(upserted(table, key, candidate), key, candidate) == upserted(
            table,
            key,
            candidate,
        ),
{
    let once = upserted(table, key, candidate);
    if !table.dom().contains(key) {
        law_order_reflexive(candidate.version);
    } else if accepts(table[key], candidate) {
        law_order_reflexive(candidate.version);
        assert(once[key] == replaced(table[key], candidate));
    }
}

/// A join that is dispatched again changes nothing: the second dispatch is
/// rejected and leaves the table as the first one left it.
pub proof fn law_join_idempotent(table: Table, record: Record, first: i64, second: i64)
    ensures
        !dispatch_changes(
            dispatched(table, Gossip::Join(record), first),
            Gossip::Join(record),
            second,
        ),
        dispatched(dispatched(table, Gossip::Join(record), first), Gossip::Join(record), second)
            == dispatched(table, Gossip::Join(record), first),
{
    law_upsert_idempotent(table, record.id, record);
}

/// An upsert touches no record but the one under its key, and forgets no cell.
pub proof fn law_upsert_is_local(table: Table, key: CellId, candidate: Record, other: CellId)
    requires
        table.dom().contains(other),
    ensures
        upserted(table, key, candidate).dom().contains(other),
        other != key ==> upserted(table, key, candidate)[other] == table[other],
{
}

/// A heartbeat of a known cell is accepted exactly when the cell is not `Gone` and
/// its clock can still advance; the cell is then `Active`, and its clock has
/// counted one more change by the cell.
pub proof fn law_heartbeat_revives(table: Table, id: CellId, now: i64)
    requires
        table.dom().contains(id),
    ensures
        dispatch_changes(table, Gossip::Heartbeat(id), now) == (table[id].state != Status::Gone
            && table[id].can_advance(id)),
        dispatch_changes(table, Gossip::Heartbeat(id), now) ==> {
            &&& dispatched(table, Gossip::Heartbeat(id), now)[id].state == Status::Active
            &&& dispatched(table, Gossip::Heartbeat(id), now)[id].version == bumped(
                table[id].version,
                id@,
            )
        },
        !dispatch_changes(table, Gossip::Heartbeat(id), now) ==> dispatched(
            table,
            Gossip::Heartbeat(id),
            now,
        ) == table,
{
    if can_propose(table, id) {
        law_bump_advances(table[id].version, id@);
    }
}

/// Two heartbeats of a known cell in succession: the first changes the store
/// exactly when the cell is not `Gone` and its clock can advance, and the second
/// exactly when the first did and the clock can advance once more. A heartbeat
/// carries no version of its own, so each one that is accepted counts as a new
/// change by the cell.
pub proof fn law_heartbeat_twice(table: Table, id: CellId, first: i64, second: i64)
    requires
        table.dom().contains(id),
    ensures
        dispatch_changes(table, Gossip::Heartbeat(id), first) == table[id].can_move(id),
        dispatch_changes(
            dispatched(table, Gossip::Heartbeat(id), first),
            Gossip::Heartbeat(id),
            second,
        ) == (table[id].can_move(id) && count(table[id].version, id@) + 1 < u64::MAX),
{
    law_heartbeat_revives(table, id, first);
    let once = dispatched(table, Gossip::Heartbeat(id), first);
    law_heartbeat_revives(once, id, second);
    if table[id].can_move(id) {
        law_bump_advances(table[id].version, id@);
    }
}

/// A leave of a known cell whose clock can still advance ends with the cell `Gone`,
/// whatever its status was.
pub proof fn law_leave_ends_gone(table: Table, id: CellId, now: i64)
    requires
        can_propose(table, id),
    ensures
        dispatched(table, Gossip::Leave(id), now).dom().contains(id),
        dispatched(table, Gossip::Leave(id), now)[id].state == Status::Gone,
        dispatch_changes(table, Gossip::Leave(id), now) == (table[id].state != Status::Gone),
{
    law_bump_advances(table[id].version, id@);
}

/// A message about a cell leaves the records of all other cells alone, and no
/// message makes the store forget a cell.
pub proof fn law_dispatch_is_local(table: Table, message: Gossip, now: i64, other: CellId)
    requires
        table.dom().contains(other),
    ensures
        dispatched(table, message, now).dom().contains(other),
        other != message.subject() ==> dispatched(table, message, now)[other] == table[other],
{
}

/// `Gone` is final, one message at a time: whatever is dispatched, a record that is
/// `Gone` stays as it is, and a message about its cell changes nothing at all.
pub proof fn law_gone_ignores(table: Table, id: CellId, message: Gossip, now: i64)
    requires
        table.dom().contains(id),
        table[id].state == Status::Gone,
    ensures
        dispatched(table, message, now).dom().contains(id),
        dispatched(table, message, now)[id] == table[id],
        message.subject() == id ==> dispatched(table, message, now) == table && !dispatch_changes(
            table,
            message,
            now,
        ),
{
}

/// `Gone` is final: once the record of a cell is `Gone`, no run of further messages
/// changes it.
pub proof fn law_gone_is_final(table: Table, id: CellId, steps: Seq<(Gossip, i64)>)
    requires
        table.dom().contains(id),
        table[id].state == Status::Gone,
    ensures
        run(table, steps).dom().contains(id),
        run(table, steps)[id] == table[id],
    decreases steps.len(),
{
    if steps.len() > 0 {
        law_gone_is_final(table, id, steps.drop_last());
        law_gone_ignores(run(table, steps.drop_last()), id, steps.last().0, steps.last().1);
    }
}

/// Replicas converge on a departure: two stores that know a cell and dispatch its
/// leave both hold it as `Gone` from then on, whatever they held before, whenever
/// the leave arrives, and whatever messages follow on either side.
pub proof fn law_leave_converges(
    a: Table,
    b: Table,
    id: CellId,
    at_a: i64,
    at_b: i64,
    then_a: Seq<(Gossip, i64)>,
    then_b: Seq<(Gossip, i64)>,
)
    requires
        can_propose(a, id),
        can_propose(b, id),
    ensures
        run(dispatched(a, Gossip::Leave(id), at_a), then_a).dom().contains(id),
        run(dispatched(b, Gossip::Leave(id), at_b), then_b).dom().contains(id),
        run(dispatched(a, Gossip::Leave(id), at_a), then_a)[id].state == Status::Gone,
        run(dispatched(b, Gossip::Leave(id), at_b), then_b)[id].state == Status::Gone,
{
    law_leave_ends_gone(a, id, at_a);
    law_leave_ends_gone(b, id, at_b);
    law_gone_is_final(dispatched(a, Gossip::Leave(id), at_a), id, then_a);
    law_gone_is_final(dispatched(b, Gossip::Leave(id), at_b), id, then_b);
}

/// The time of last change never goes back, and a known cell stays known: this
/// holds across every message.
pub proof fn law_time_never_goes_back(table: Table, id: CellId, message: Gossip, now: i64)
    requires
        table.dom().contains(id),
    ensures
        dispatched(table, message, now).dom().contains(id),
        dispatched(table, message, now)[id].updated >= table[id].updated,
{
}

/// The time of last change never goes back across any run of messages.
pub proof fn law_time_monotone(table: Table, id: CellId, steps: Seq<(Gossip, i64)>)
    requires
        table.dom().contains(id),
    ensures
        run(table, steps).dom().contains(id),
        run(table, steps)[id].updated >= table[id].updated,
    decreases steps.len(),
{
    if steps.len() > 0 {
        law_time_monotone(table, id, steps.drop_last());
        law_time_never_goes_back(run(table, steps.drop_last()), id, steps.last().0, steps.last().1);
    }
}

} // verus!
