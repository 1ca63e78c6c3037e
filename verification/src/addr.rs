use vstd::prelude::*;

use crate::parse;
use crate::parse::ErrorKind;
use crate::parse::ParseError;
use crate::parse::Severity;
use crate::parse::le_bytes_at;

verus! {

/// A 64-bit virtual memory address or byte count. Immutable once built;
/// arithmetic is exact (the caller rules out overflow and underflow).
#[derive(Clone, Copy, PartialEq, Eq, Structural, Debug, Hash)]
pub struct Addr(pub u64);

impl Addr {
    /// Exact addition of an address and a length.
    pub fn add(self, rhs: Addr) -> (r: Addr)
        requires
            self.0 + rhs.0 <= u64::MAX,
        ensures
            r.0 == self.0 + rhs.0,
    {
        Addr(self.0 + rhs.0)
    }

    /// Exact subtraction, used for segment length arithmetic.
    pub fn sub(self, rhs: Addr) -> (r: Addr)
        requires
            rhs.0 <= self.0,
        ensures
            r.0 == self.0 - rhs.0,
    {
        Addr(self.0 - rhs.0)
    }

    /// Addition that reports overflow instead of requiring its absence.
    pub fn checked_add(self, rhs: Addr) -> (r: Option<Addr>)
        ensures
            self.0 + rhs.0 <= u64::MAX <==> r is Some,
            r matches Some(a) ==> a.0 == self.0 + rhs.0,
    {
        match self.0.checked_add(rhs.0) {
            Some(v) => Some(Addr(v)),
            None => None,
        }
    }

    /// The address as the platform's pointer-sized integer; lossless on the
    /// platforms this loader targets.
    pub fn to_usize(self) -> (r: usize)
        requires
            self.0 <= usize::MAX,
        ensures
            r == self.0,
    {
        self.0 as usize
    }

    /// The raw 64-bit value.
    pub fn to_u64(self) -> (r: u64)
        ensures
            r == self.0,
    {
        self.0
    }

    /// Decode an address from the input: a 64-bit little-endian integer.
    pub fn parse(buf: &[u8], pos: usize) -> (r: Result<(usize, Addr), ParseError>)
        ensures
            pos + 8 <= buf@.len() <==> r is Ok,
            r matches Ok((p, a)) ==> p == pos + 8 && a.0 == le_bytes_at(buf@, pos as int, 8),
            r matches Err(e) ==> e.offset == pos && e.kind == ErrorKind::Truncated
                && e.severity == Severity::Malformed && e.context@.len() == 0,
    {
        match parse::le_u64(buf, pos) {
            Ok((p, v)) => Ok((p, Addr(v))),
            Err(e) => Err(e),
        }
    }
}

impl From<u64> for Addr {
    fn from(x: u64) -> (r: Addr)
        ensures
            r == Addr(x),
    {
        Addr(x)
    }
}

impl vstd::std_specs::convert::FromSpecImpl<u64> for Addr {
    open spec fn obeys_from_spec() -> bool {
        true
    }

    open spec fn from_spec(x: u64) -> Addr {
        Addr(x)
    }
}

impl From<Addr> for u64 {
    fn from(a: Addr) -> (r: u64)
        ensures
            r == a.0,
    {
        a.0
    }
}

impl vstd::std_specs::convert::FromSpecImpl<Addr> for u64 {
    open spec fn obeys_from_spec() -> bool {
        true
    }

    open spec fn from_spec(a: Addr) -> u64 {
        a.0
    }
}

impl PartialOrd for Addr {
    fn partial_cmp(&self, other: &Addr) -> (r: Option<core::cmp::Ordering>) {
        if self.0 < other.0 {
            Some(core::cmp::Ordering::Less)
        } else if self.0 == other.0 {
            Some(core::cmp::Ordering::Equal)
        } else {
            Some(core::cmp::Ordering::Greater)
        }
    }
}

impl vstd::std_specs::cmp::PartialOrdSpecImpl for Addr {
    open spec fn obeys_partial_cmp_spec() -> bool {
        true
    }

    open spec fn partial_cmp_spec(&self, other: &Addr) -> Option<core::cmp::Ordering> {
        if self.0 < other.0 {
            Some(core::cmp::Ordering::Less)
        } else if self.0 == other.0 {
            Some(core::cmp::Ordering::Equal)
        } else {
            Some(core::cmp::Ordering::Greater)
        }
    }
}

/// A half-open range of virtual addresses: the bytes at `start <= a < end`.
#[derive(Clone, Copy, PartialEq, Eq, Structural, Debug)]
pub struct AddrRange {
    pub start: Addr,
    pub end: Addr,
}

impl AddrRange {
    /// A range is well formed when it does not run backwards.
    pub open spec fn wf(self) -> bool {
        self.start.0 <= self.end.0
    }

    /// Two ranges overlap when some address lies in both.
    pub open spec fn overlaps(self, other: AddrRange) -> bool {
        self.start.0 < other.end.0 && other.start.0 < self.end.0
    }

    /// The number of bytes the range covers.
    pub fn len(&self) -> (r: u64)
        requires
            self.wf(),
        ensures
            r == self.end.0 - self.start.0,
    {
        self.end.0 - self.start.0
    }
}

} // verus!
