//! Version clocks: one counter per identity, compared component by component.
//!
//! The counters are kept in a `crdts::VClock`; everything this module knows about
//! that collection is stated in the trusted items at the top.

use crate::identity::{id_order, CellId};
use crdts::{CmRDT, Dot, VClock};
use std::cmp::Ordering;
use vstd::prelude::*;

verus! {

/// How two version clocks relate.
#[derive(Clone, Copy, Debug, PartialEq, Eq, Structural)]
pub enum ClockOrder {
    /// The first clock is causally before the second.
    Less,
    /// The first clock is causally after the second.
    Greater,
    /// Both clocks hold the same counters.
    Equal,
    /// Neither clock derives from the other.
    Concurrent,
}

/// The counters of a clock as a map from identity views to counters. An identity
/// that the map does not hold counts as zero.
pub type Counters = Map<(u64, u128), u64>;

/// The counter that `m` holds for `k`; zero where it holds none.
pub open spec fn count(m: Counters, k: (u64, u128)) -> nat {
    if m.dom().contains(k) {
        m[k] as nat
    } else {
        0
    }
}

/// Every component of `a` is at most the corresponding component of `b`.
pub open spec fn dominated(a: Counters, b: Counters) -> bool {
    forall|k: (u64, u128)| #![trigger count(a, k)] #![trigger count(b, k)] count(a, k) <= count(b, k)
}

/// The component-wise partial order on clocks.
///
/// `Less` where every component of `a` is at most that of `b` and one is smaller,
/// `Greater` the other way round, `Equal` where all components agree, and
/// `Concurrent` otherwise.
pub open spec fn clock_order(a: Counters, b: Counters) -> ClockOrder {
    if dominated(a, b) && dominated(b, a) {
        ClockOrder::Equal
    } else if dominated(a, b) {
        ClockOrder::Less
    } else if dominated(b, a) {
        ClockOrder::Greater
    } else {
        ClockOrder::Concurrent
    }
}

/// `m` after the counter of `k` went up by one.
pub open spec fn bumped(m: Counters, k: (u64, u128)) -> Counters {
    m.insert(k, (count(m, k) + 1) as u64)
}

/// `m` after the counter of `k` was raised to `counter`; a counter that is not
/// larger than the one held changes nothing.
pub open spec fn raised(m: Counters, k: (u64, u128), counter: u64) -> Counters {
    if count(m, k) < counter {
        m.insert(k, counter)
    } else {
        m
    }
}

/// No entry of `m` is zero: an identity either has a positive counter or none.
pub open spec fn positive(m: Counters) -> bool {
    forall|k: (u64, u128)| m.dom().contains(k) ==> #[trigger] m[k] >= 1
}

/// Every entry of `b` is matched or exceeded by `a`.
pub open spec fn covers(a: Counters, b: Counters) -> bool {
    forall|k: (u64, u128)| b.dom().contains(k) ==> count(a, k) >= #[trigger] b[k]
}

/// Makes `crdts::VClock` known to the verifier as an opaque type. What a clock
/// holds is named by [`clock_dots`].
#[verifier::external_type_specification]
#[verifier::external_body]
#[verifier::reject_recursive_types(A)]
pub struct ExVClock<A: Ord>(VClock<A>);

/// The entries of a `crdts::VClock`: the contents of its `dots` map, which holds a
/// counter for some actors and none for the others.
pub uninterp spec fn clock_dots(clock: VClock<(u64, u128)>) -> Counters;

/// An empty clock.
///
/// Trusted: calls `VClock::new`, which makes a clock with an empty `dots` map.
#[verifier::external_body]
fn dots_new() -> (fresh: VClock<(u64, u128)>)
    ensures
        clock_dots(fresh) =~= Map::empty(),
{
    VClock::new()
}

/// The counter of one actor.
///
/// Trusted: calls `VClock::get`, which returns the actor's entry in `dots`, or zero
/// where there is none.
#[verifier::external_body]
fn dots_get(clock: &VClock<(u64, u128)>, actor: (u64, u128)) -> (n: u64)
    ensures
        n == count(clock_dots(*clock), actor),
{
    clock.get(&actor)
}

/// The counter that follows the actor's current one.
///
/// Trusted: calls `VClock::inc` and picks the counter of the dot it returns. `inc`
/// leaves the clock as it is and returns the actor's current counter plus one; the
/// addition would overflow at the largest counter, which `requires` leaves out.
#[verifier::external_body]
fn dots_next(clock: &VClock<(u64, u128)>, actor: (u64, u128)) -> (n: u64)
    requires
        count(clock_dots(*clock), actor) < u64::MAX,
    ensures
        n == count(clock_dots(*clock), actor) + 1,
{
    clock.inc(actor).counter
}

/// Raises the counter of one actor.
///
/// Trusted: calls `CmRDT::apply` of `VClock` on `Dot::new(actor, counter)`. `apply`
/// stores the counter under the actor where it is larger than the actor's current
/// one, and does nothing otherwise. Neither step can panic on integer keys.
#[verifier::external_body]
fn dots_apply(clock: &mut VClock<(u64, u128)>, actor: (u64, u128), counter: u64)
    ensures
        clock_dots(*final(clock)) == raised(clock_dots(*old(clock)), actor, counter),
    no_unwind
{
    clock.apply(Dot::new(actor, counter))
}

/// Compares two clocks.
///
/// Trusted: calls `PartialOrd::partial_cmp` of `VClock`. It answers `Equal` where
/// the two `dots` maps are equal; else `Greater` where the first clock matches or
/// exceeds every entry of the second; else `Less` where the second does so for the
/// first; else nothing, which is returned as `Concurrent`.
#[verifier::external_body]
fn dots_order(a: &VClock<(u64, u128)>, b: &VClock<(u64, u128)>) -> (r: ClockOrder)
    ensures
        r == if clock_dots(*a) == clock_dots(*b) {
            ClockOrder::Equal
        } else if covers(clock_dots(*a), clock_dots(*b)) {
            ClockOrder::Greater
        } else if covers(clock_dots(*b), clock_dots(*a)) {
            ClockOrder::Less
        } else {
            ClockOrder::Concurrent
        },
{
    match a.partial_cmp(b) {
        Some(Ordering::Equal) => ClockOrder::Equal,
        Some(Ordering::Greater) => ClockOrder::Greater,
        Some(Ordering::Less) => ClockOrder::Less,
        None => ClockOrder::Concurrent,
    }
}

/// Whether `entries` lists exactly the entries of `m`, each once, in ascending
/// order of the actors: by the first component, then by the second.
pub open spec fn lists(entries: Seq<((u64, u128), u64)>, m: Counters) -> bool {
    &&& forall|i: int|
        0 <= i < entries.len() ==> m.dom().contains((#[trigger] entries[i]).0) && m[entries[i].0]
            == entries[i].1
    &&& forall|k: (u64, u128)|
        m.dom().contains(k) ==> exists|i: int|
            0 <= i < entries.len() && (#[trigger] entries[i]).0 == k
    &&& forall|i: int, j: int|
        0 <= i < j < entries.len() ==> id_order((#[trigger] entries[i]).0, (#[trigger] entries[j]).0)
            == Ordering::Less
}

/// A list of entries with each identity taken by its view.
pub open spec fn entry_views(entries: Seq<(CellId, u64)>) -> Seq<((u64, u128), u64)> {
    entries.map_values(|e: (CellId, u64)| (e.0@, e.1))
}

/// The entries of a clock.
///
/// Trusted: calls `VClock::iter`, which walks the `dots` map, a `BTreeMap`, and so
/// yields every entry once in ascending order of the actors; tuples of integers
/// are ordered component by component.
#[verifier::external_body]
fn dots_entries(clock: &VClock<(u64, u128)>) -> (entries: Vec<((u64, u128), u64)>)
    ensures
        lists(entries@, clock_dots(*clock)),
{
    clock.iter().map(|dot| (*dot.actor, dot.counter)).collect()
}

/// A copy of a clock.
///
/// Trusted: calls the derived `Clone::clone` of `VClock`, which copies the `dots` map.
#[verifier::external_body]
fn dots_clone(clock: &VClock<(u64, u128)>) -> (copy: VClock<(u64, u128)>)
    ensures
        clock_dots(copy) == clock_dots(*clock),
{
    clock.clone()
}

/// A version clock: for each identity, how many changes it has witnessed.
pub struct VersionClock {
    dots: VClock<(u64, u128)>,
}

impl View for VersionClock {
    type V = Counters;

    closed spec fn view(&self) -> Counters {
        clock_dots(self.dots)
    }
}

impl VersionClock {
    #[verifier::type_invariant]
    spec fn entries_positive(self) -> bool {
        positive(clock_dots(self.dots))
    }

    /// The counter of `origin`; zero where the clock has not seen it.
    pub open spec fn counter(&self, origin: CellId) -> nat {
        count(self@, origin@)
    }

    /// A clock that has seen nothing.
    pub fn new() -> (clock: VersionClock)
        ensures
            clock@ == Map::<(u64, u128), u64>::empty(),
    {
        VersionClock { dots: dots_new() }
    }

    /// The counter of `origin`; zero where the clock has not seen it.
    pub fn get(&self, origin: CellId) -> (n: u64)
        ensures
            n == self.counter(origin),
    {
        dots_get(&self.dots, (origin.timestamp(), origin.id()))
    }

    /// Bumps the counter of `origin` by one; an identity not yet seen gets counter 1.
    /// No other counter changes.
    pub fn increment(&mut self, origin: CellId)
        requires
            old(self).counter(origin) < u64::MAX,
        ensures
            final(self)@ == bumped(old(self)@, origin@),
    {
        proof {
            use_type_invariant(&*self);
        }
        let actor = (origin.timestamp(), origin.id());
        let next = dots_next(&self.dots, actor);
        dots_apply(&mut self.dots, actor, next);
    }

    /// Raises the counter of `origin` to `counter`. A counter that is not larger
    /// than the one held changes nothing, so counters never go down.
    pub fn witness(&mut self, origin: CellId, counter: u64)
        ensures
            final(self)@ == raised(old(self)@, origin@, counter),
    {
        proof {
            use_type_invariant(&*self);
        }
        dots_apply(&mut self.dots, (origin.timestamp(), origin.id()), counter);
    }

    /// The entries of the clock: every identity with a counter above zero, once, in
    /// ascending order of the identities.
    pub fn entries(&self) -> (entries: Vec<(CellId, u64)>)
        ensures
            lists(entry_views(entries@), self@),
            forall|i: int| 0 <= i < entries@.len() ==> (#[trigger] entries@[i]).1 >= 1,
    {
        proof {
            use_type_invariant(self);
        }
        let raw = dots_entries(&self.dots);
        let mut entries: Vec<(CellId, u64)> = Vec::new();
        let mut i: usize = 0;
        while i < raw.len()
            invariant
                i <= raw@.len(),
                entries@.len() == i,
                forall|j: int|
                    0 <= j < i ==> (#[trigger] entries@[j]).0@ == raw@[j].0 && entries@[j].1
                        == raw@[j].1,
            decreases raw@.len() - i,
        {
            let (actor, counter) = raw[i];
            entries.push((CellId::from_parts(actor.0, actor.1), counter));
            i += 1;
        }
        proof {
            assert(entry_views(entries@) =~= raw@);
            assert forall|i: int| 0 <= i < entries@.len() implies (#[trigger] entries@[i]).1
                >= 1 by {
                assert(self@[raw@[i].0] == raw@[i].1);
            }
        }
        entries
    }

    /// Bumps the counter of `origin` by one unless it has reached the largest value a
    /// counter can hold; returns whether it did.
    pub fn try_increment(&mut self, origin: CellId) -> (done: bool)
        ensures
            done == (old(self).counter(origin) < u64::MAX),
            done ==> final(self)@ == bumped(old(self)@, origin@),
            !done ==> final(self)@ == old(self)@,
    {
        if self.get(origin) < u64::MAX {
            self.increment(origin);
            true
        } else {
            false
        }
    }

    /// Compares this clock with another, component by component. Two clocks are
    /// `Equal` exactly when they hold the same counters.
    pub fn compare(&self, other: &VersionClock) -> (r: ClockOrder)
        ensures
            r == clock_order(self@, other@),
            (r == ClockOrder::Equal) == (self@ == other@),
    {
        proof {
            use_type_invariant(self);
            use_type_invariant(other);
            lemma_covers_is_dominated(self@, other@);
            lemma_covers_is_dominated(other@, self@);
            lemma_equal_iff_identical(self@, other@);
        }
        dots_order(&self.dots, &other.dots)
    }
}

impl Clone for VersionClock {
    fn clone(&self) -> (copy: VersionClock)
        ensures
            copy@ == self@,
    {
        proof {
            use_type_invariant(self);
        }
        VersionClock { dots: dots_clone(&self.dots) }
    }
}

/// Counting one more change by `k` touches no other counter and puts the clock
/// causally after what it was.
pub proof fn law_bump_advances(m: Counters, k: (u64, u128))
    requires
        count(m, k) < u64::MAX,
    ensures
        count(bumped(m, k), k) == count(m, k) + 1,
        forall|other: (u64, u128)| other != k ==> count(bumped(m, k), other) == count(m, other),
        clock_order(m, bumped(m, k)) == ClockOrder::Less,
{
    let next = bumped(m, k);
    assert(count(next, k) == count(m, k) + 1);
    assert forall|other: (u64, u128)| other != k implies count(next, other) == count(
        m,
        other,
    ) by {}
    assert forall|x: (u64, u128)| count(m, x) <= count(next, x) by {
        if x != k {
            assert(count(next, x) == count(m, x));
        }
    }
    assert(!dominated(next, m)) by {
        if dominated(next, m) {
            assert(count(next, k) <= count(m, k));
        }
    }
}

/// Matching or exceeding every entry of a clock is the same as dominating it.
proof fn lemma_covers_is_dominated(a: Counters, b: Counters)
    ensures
        covers(a, b) <==> dominated(b, a),
{
    if covers(a, b) {
        assert forall|k: (u64, u128)| count(b, k) <= count(a, k) by {
            if b.dom().contains(k) {
                assert(count(a, k) >= b[k]);
            }
        }
    }
    if dominated(b, a) {
        assert forall|k: (u64, u128)| b.dom().contains(k) implies count(a, k) >= #[trigger] b[k] by {
            assert(count(b, k) <= count(a, k));
        }
    }
}

/// Clocks without zero entries agree on every component exactly when they are the
/// same map.
pub proof fn lemma_equal_iff_identical(a: Counters, b: Counters)
    requires
        positive(a),
        positive(b),
    ensures
        clock_order(a, b) == ClockOrder::Equal <==> a == b,
{
    if dominated(a, b) && dominated(b, a) {
        assert forall|k: (u64, u128)| a.dom().contains(k) == b.dom().contains(k) by {
            assert(count(a, k) <= count(b, k));
            assert(count(b, k) <= count(a, k));
            if a.dom().contains(k) {
                assert(a[k] >= 1);
            }
            if b.dom().contains(k) {
                assert(b[k] >= 1);
            }
        }
        assert forall|k: (u64, u128)| a.dom().contains(k) implies a[k] == b[k] by {
            assert(count(a, k) <= count(b, k));
            assert(count(b, k) <= count(a, k));
        }
        assert(a =~= b);
    }
}

} // verus!
