//! The mechanics of loading a static native executable from user space:
//! parsing its binary container (header fields and the program header table,
//! with positional error reporting), and planning how its loadable segments
//! are mapped into memory — reserve writable, copy, then narrow protections —
//! before control is transferred to the entry point. Every function here is
//! verified; performing the mappings and the jump is the host program's job,
//! driven step by step by the plan this library computes.

use vstd::prelude::*;

pub mod addr;
pub mod codes;
pub mod file;
pub mod loader;
pub mod parse;

pub use addr::Addr;
pub use addr::AddrRange;
pub use codes::Machine;
pub use codes::SegmentFlag;
pub use codes::SegmentFlags;
pub use codes::SegmentType;
pub use codes::Type;
pub use file::File;
pub use file::ProgramHeader;
pub use loader::LoadAction;
pub use loader::LoadError;
pub use loader::Reservations;
pub use parse::HexDump;
pub use parse::ParseError;

verus! {

/// Sum of two sizes; the caller guarantees the sum fits in `usize`.
pub fn add(left: usize, right: usize) -> (r: usize)
    requires
        left + right <= usize::MAX,
    ensures
        r == left + right,
{
    left + right
}

} // verus!

