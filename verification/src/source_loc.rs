//! Source locations and their total order.

use core::cmp::Ordering;
use vstd::prelude::*;
use vstd::std_specs::cmp::PartialEqSpecImpl;
use vstd::std_specs::cmp::PartialOrdSpecImpl;
use vstd::std_specs::convert::FromSpecImpl;

verus! {

/// A source location: an opaque 32-bit code attached to an instruction.
/// The code with all bits set is the default location, meaning "unknown".
#[derive(Clone, Copy, Debug, PartialEq, Eq, Structural, PartialOrd, Ord)]
pub struct SourceLoc(pub u32);

/// The bits of the default source location.
pub const DEFAULT_SOURCE_LOC_BITS: u32 = 0xffff_ffff;

impl SourceLoc {
    /// Creates a source location from its bits.
    pub fn new(bits: u32) -> (loc: SourceLoc)
        ensures
            loc.0 == bits,
    {
        SourceLoc(bits)
    }

    /// Whether this is the default (unknown) location.
    pub open spec fn spec_is_default(self) -> bool {
        self.0 == DEFAULT_SOURCE_LOC_BITS
    }

    /// Whether this is the default (unknown) location.
    pub fn is_default(&self) -> (r: bool)
        ensures
            r == self.spec_is_default(),
    {
        self.0 == DEFAULT_SOURCE_LOC_BITS
    }

    /// The bits of this location.
    pub fn bits(&self) -> (r: u32)
        ensures
            r == self.0,
    {
        self.0
    }
}

impl Default for SourceLoc {
    fn default() -> (loc: SourceLoc)
        ensures
            loc.0 == DEFAULT_SOURCE_LOC_BITS,
    {
        SourceLoc(DEFAULT_SOURCE_LOC_BITS)
    }
}

/// A source location that is ordered by its bits.
#[derive(Clone, Copy, Debug, Eq, Ord)]
pub struct ComparableSourceLoc(pub SourceLoc);

/// The three-way comparison of two integers.
pub open spec fn compare_bits(a: u32, b: u32) -> Ordering {
    if a < b {
        Ordering::Less
    } else if a == b {
        Ordering::Equal
    } else {
        Ordering::Greater
    }
}

impl From<SourceLoc> for ComparableSourceLoc {
    fn from(s: SourceLoc) -> (r: ComparableSourceLoc) {
        ComparableSourceLoc(s)
    }
}

impl FromSpecImpl<SourceLoc> for ComparableSourceLoc {
    open spec fn obeys_from_spec() -> bool {
        true
    }

    open spec fn from_spec(s: SourceLoc) -> ComparableSourceLoc {
        ComparableSourceLoc(s)
    }
}

impl core::ops::Deref for ComparableSourceLoc {
    type Target = SourceLoc;

    fn deref(&self) -> (r: &SourceLoc)
        ensures
            *r == self.0,
    {
        &self.0
    }
}

impl ComparableSourceLoc {
    /// Compares two locations by their bits.
    pub fn cmp(&self, other: &Self) -> (r: Ordering)
        ensures
            r == compare_bits(self.0.0, other.0.0),
    {
        if self.0.0 < other.0.0 {
            Ordering::Less
        } else if self.0.0 == other.0.0 {
            Ordering::Equal
        } else {
            Ordering::Greater
        }
    }
}

/// The later of two locations in the bit order: the second when the first
/// does not compare greater.
pub open spec fn spec_max_loc(a: ComparableSourceLoc, b: ComparableSourceLoc) -> ComparableSourceLoc {
    if a.0.0 <= b.0.0 {
        b
    } else {
        a
    }
}

/// The later of two locations in the bit order.
pub fn max_loc(a: ComparableSourceLoc, b: ComparableSourceLoc) -> (r: ComparableSourceLoc)
    ensures
        r == spec_max_loc(a, b),
{
    match a.cmp(&b) {
        Ordering::Greater => a,
        _ => b,
    }
}

/// The bit order of source locations is a total order: two locations
/// compare equal exactly when they are the same, `a < b` exactly when
/// `b > a`, and the order is transitive; the later of two locations is at
/// least each.
pub proof fn lemma_source_loc_order(a: SourceLoc, b: SourceLoc, c: SourceLoc)
    ensures
        (compare_bits(a.0, b.0) == Ordering::Equal) == (a == b),
        (compare_bits(a.0, b.0) == Ordering::Less) == (compare_bits(b.0, a.0) == Ordering::Greater),
        compare_bits(a.0, b.0) == Ordering::Less && compare_bits(b.0, c.0) == Ordering::Less
            ==> compare_bits(a.0, c.0) == Ordering::Less,
        spec_max_loc(ComparableSourceLoc(a), ComparableSourceLoc(b)).0.0 >= a.0,
        spec_max_loc(ComparableSourceLoc(a), ComparableSourceLoc(b)).0.0 >= b.0,
{
}

impl PartialEq for ComparableSourceLoc {
    fn eq(&self, other: &Self) -> (r: bool) {
        self.0 == other.0
    }
}

impl PartialEqSpecImpl for ComparableSourceLoc {
    open spec fn obeys_eq_spec() -> bool {
        true
    }

    open spec fn eq_spec(&self, other: &Self) -> bool {
        self.0 == other.0
    }
}

impl PartialOrd for ComparableSourceLoc {
    fn partial_cmp(&self, other: &Self) -> (r: Option<Ordering>) {
        Some(self.cmp(other))
    }
}

impl PartialOrdSpecImpl for ComparableSourceLoc {
    open spec fn obeys_partial_cmp_spec() -> bool {
        true
    }

    open spec fn partial_cmp_spec(&self, other: &Self) -> Option<Ordering> {
        Some(compare_bits(self.0.0, other.0.0))
    }
}

} // verus!
