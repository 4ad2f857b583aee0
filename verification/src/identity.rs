//! Identities of cells: a creation time and a random tag, totally ordered.

use crate::text::{decimal, decimal_text, hyphenated, tag_text};
use crate::time::now_millis;
use std::cmp::Ordering;
use uuid::Uuid;
use vstd::prelude::*;

verus! {

/// The identity of a cell. It is fixed when the cell is created and names the
/// cell for as long as it lives.
///
/// Identities are ordered by creation time first and by tag second.
#[derive(Clone, Copy, Debug, Hash, PartialEq, Eq, Structural, Ord)]
pub struct CellId {
    timestamp: u64,
    id: u128,
}

impl View for CellId {
    type V = (u64, u128);

    /// The creation time and the tag.
    closed spec fn view(&self) -> (u64, u128) {
        (self.timestamp, self.id)
    }
}

/// Whether a tag carries the marks of a randomly generated (version 4) UUID: the
/// version nibble is 4 and the two variant bits are `10`.
pub open spec fn is_random_tag(tag: u128) -> bool {
    tag & 0xF000_C000_0000_0000_0000u128 == 0x4000_8000_0000_0000_0000u128
}

/// The order of two identities, by their views: creation time first, tag second.
pub open spec fn id_order(a: (u64, u128), b: (u64, u128)) -> Ordering {
    if a.0 < b.0 {
        Ordering::Less
    } else if a.0 > b.0 {
        Ordering::Greater
    } else if a.1 < b.1 {
        Ordering::Less
    } else if a.1 > b.1 {
        Ordering::Greater
    } else {
        Ordering::Equal
    }
}

/// A fresh random tag.
///
/// Trusted: calls `uuid::Uuid::new_v4` and reads the result with `Uuid::as_u128`.
/// `new_v4` draws 128 random bits from the operating system, failing only where it
/// has none to give, and then fixes the version nibble to 4 and the variant bits to
/// `10`; that is all the contract says of the tag.
#[verifier::external_body]
fn fresh_tag() -> (tag: u128)
    ensures
        is_random_tag(tag),
{
    Uuid::new_v4().as_u128()
}

impl CellId {
    /// An identity created now, with a fresh random tag. The creation time counts
    /// the milliseconds since the start of 1970 (UTC).
    pub fn new() -> (id: CellId)
        ensures
            id@.0 <= i64::MAX,
            is_random_tag(id@.1),
    {
        let ms = now_millis();
        CellId::at(ms as u64)
    }

    /// An identity with the given creation time and a fresh random tag.
    pub fn at(ts: u64) -> (id: CellId)
        ensures
            id@.0 == ts,
            is_random_tag(id@.1),
    {
        CellId { timestamp: ts, id: fresh_tag() }
    }

    /// The identity with exactly this creation time and tag.
    pub fn from_parts(timestamp: u64, id: u128) -> (cell: CellId)
        ensures
            cell@ == (timestamp, id),
    {
        CellId { timestamp, id }
    }

    /// The creation time.
    pub fn timestamp(&self) -> (ts: u64)
        ensures
            ts == self@.0,
    {
        self.timestamp
    }

    /// The tag, as the 128-bit value of its UUID.
    pub fn id(&self) -> (tag: u128)
        ensures
            tag == self@.1,
    {
        self.id
    }

    /// How an identity is written: the creation time in decimal, a plus sign, and the
    /// tag in the usual form of a UUID.
    pub open spec fn label_spec(self) -> Seq<char> {
        decimal(self@.0 as nat) + seq!['+'] + hyphenated(self@.1)
    }

    /// The identity written out for people.
    pub fn label(&self) -> (text: String)
        ensures
            text@ == self.label_spec(),
    {
        let time = decimal_text(self.timestamp);
        let tag = tag_text(self.id);
        proof {
            reveal_strlit("+");
            assert("+"@ =~= seq!['+']);
        }
        time.concat("+").concat(tag.as_str())
    }

    /// Two identities with the same creation time and tag are the same identity.
    pub proof fn lemma_view_injective(a: CellId, b: CellId)
        ensures
            a@ == b@ <==> a == b,
    {
    }
}

/// The order of identities is total: two identities compare `Equal` exactly when
/// they have the same creation time and tag, swapping them swaps `Less` and
/// `Greater`, and `Less` is transitive.
pub proof fn law_id_order_total(a: (u64, u128), b: (u64, u128), c: (u64, u128))
    ensures
        id_order(a, b) == Ordering::Equal <==> a == b,
        id_order(a, b) == Ordering::Less <==> id_order(b, a) == Ordering::Greater,
        id_order(a, b) == Ordering::Less && id_order(b, c) == Ordering::Less ==> id_order(a, c)
            == Ordering::Less,
{
}

impl PartialOrd for CellId {
    fn partial_cmp(&self, other: &CellId) -> (r: Option<Ordering>) {
        if self.timestamp < other.timestamp {
            Some(Ordering::Less)
        } else if self.timestamp > other.timestamp {
            Some(Ordering::Greater)
        } else if self.id < other.id {
            Some(Ordering::Less)
        } else if self.id > other.id {
            Some(Ordering::Greater)
        } else {
            Some(Ordering::Equal)
        }
    }
}

impl vstd::std_specs::cmp::PartialOrdSpecImpl for CellId {
    open spec fn obeys_partial_cmp_spec() -> bool {
        true
    }

    open spec fn partial_cmp_spec(&self, other: &CellId) -> Option<Ordering> {
        Some(id_order(self@, other@))
    }
}

impl Default for CellId {
    /// An identity with creation time zero and a fresh random tag.
    fn default() -> (id: CellId)
        ensures
            id@.0 == 0,
            is_random_tag(id@.1),
    {
        CellId::at(0)
    }
}

} // verus!
