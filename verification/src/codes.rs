use vstd::prelude::*;

use crate::parse;
use crate::parse::ContextFrame;
use crate::parse::ErrorKind;
use crate::parse::ParseContext;
use crate::parse::ParseError;
use crate::parse::Severity;
use crate::parse::le_bytes_at;

verus! {

/// The kind of object a file is, backed by a 16-bit on-disk code.
#[derive(Clone, Copy, PartialEq, Eq, Structural, Debug, Hash)]
pub enum Type {
    Null,
    Rel,
    Exec,
    Dyn,
    Core,
}

impl Type {
    /// The defined numeric code of each variant.
    pub open spec fn code_spec(self) -> u16 {
        match self {
            Type::Null => 0,
            Type::Rel => 1,
            Type::Exec => 2,
            Type::Dyn => 3,
            Type::Core => 4,
        }
    }

    /// The variant a 16-bit code decodes to, if the code is in the known set.
    pub open spec fn from_code_spec(code: u16) -> Option<Type> {
        if code == 0 {
            Some(Type::Null)
        } else if code == 1 {
            Some(Type::Rel)
        } else if code == 2 {
            Some(Type::Exec)
        } else if code == 3 {
            Some(Type::Dyn)
        } else if code == 4 {
            Some(Type::Core)
        } else {
            None
        }
    }

    pub fn to_u16(&self) -> (r: u16)
        ensures
            r == self.code_spec(),
    {
        match self {
            Type::Null => 0,
            Type::Rel => 1,
            Type::Exec => 2,
            Type::Dyn => 3,
            Type::Core => 4,
        }
    }

    /// Decode a 16-bit code; an unknown code is returned unchanged as the error.
    pub fn from_u16(code: u16) -> (r: Result<Type, u16>)
        ensures
            r is Ok <==> Type::from_code_spec(code) is Some,
            r matches Ok(t) ==> Type::from_code_spec(code) == Some(t),
            r matches Err(c) ==> c == code,
    {
        if code == 0 {
            Ok(Type::Null)
        } else if code == 1 {
            Ok(Type::Rel)
        } else if code == 2 {
            Ok(Type::Exec)
        } else if code == 3 {
            Ok(Type::Dyn)
        } else if code == 4 {
            Ok(Type::Core)
        } else {
            Err(code)
        }
    }

    /// Decode an object type from the input: a 16-bit little-endian code that
    /// must be in the known set. An unknown code fails definitively and the
    /// error preserves the rejected value.
    pub fn parse(buf: &[u8], pos: usize) -> (r: Result<(usize, Type), ParseError>)
        ensures
            r is Ok <==> (pos + 2 <= buf@.len() && Type::from_code_spec(
                le_bytes_at(buf@, pos as int, 2) as u16,
            ) is Some),
            r matches Ok((p, t)) ==> p == pos + 2 && Some(t) == Type::from_code_spec(
                le_bytes_at(buf@, pos as int, 2) as u16,
            ),
            r matches Err(e) ==> e.severity == Severity::Malformed && e.offset == pos
                && e.context@.len() == 1 && e.context@[0] == (ContextFrame {
                label: ParseContext::Type,
                offset: pos,
            }) && e.kind == (if pos + 2 <= buf@.len() {
                ErrorKind::UnknownCode(le_bytes_at(buf@, pos as int, 2) as u64)
            } else {
                ErrorKind::Truncated
            }),
    {
        match parse::le_u16(buf, pos) {
            Ok((p, code)) => match Type::from_u16(code) {
                Ok(t) => Ok((p, t)),
                Err(c) => Err(
                    ParseError::new(ErrorKind::UnknownCode(c as u64), Severity::Malformed, pos)
                        .with_context(ParseContext::Type, pos),
                ),
            },
            Err(e) => Err(e.with_context(ParseContext::Type, pos)),
        }
    }
}

/// Codes round-trip both ways: every variant decodes from its own code, and a
/// code that decodes at all decodes to the variant carrying exactly that code.
pub proof fn lemma_type_code_round_trip(t: Type, code: u16)
    ensures
        Type::from_code_spec(t.code_spec()) == Some(t),
        Type::from_code_spec(code) matches Some(u) ==> u.code_spec() == code,
{
}

/// The instruction-set architecture a file targets, backed by a 16-bit code.
#[derive(Clone, Copy, PartialEq, Eq, Structural, Debug, Hash)]
pub enum Machine {
    X86,
    X86_64,
}

impl Machine {
    /// The defined numeric code of each variant.
    pub open spec fn code_spec(self) -> u16 {
        match self {
            Machine::X86 => 0x03,
            Machine::X86_64 => 0x3e,
        }
    }

    /// The variant a 16-bit code decodes to, if the code is in the known set.
    pub open spec fn from_code_spec(code: u16) -> Option<Machine> {
        if code == 0x03 {
            Some(Machine::X86)
        } else if code == 0x3e {
            Some(Machine::X86_64)
        } else {
            None
        }
    }

    pub fn to_u16(&self) -> (r: u16)
        ensures
            r == self.code_spec(),
    {
        match self {
            Machine::X86 => 0x03,
            Machine::X86_64 => 0x3e,
        }
    }

    /// Decode a 16-bit code; an unknown code is returned unchanged as the error.
    pub fn from_u16(code: u16) -> (r: Result<Machine, u16>)
        ensures
            r is Ok <==> Machine::from_code_spec(code) is Some,
            r matches Ok(m) ==> Machine::from_code_spec(code) == Some(m),
            r matches Err(c) ==> c == code,
    {
        if code == 0x03 {
            Ok(Machine::X86)
        } else if code == 0x3e {
            Ok(Machine::X86_64)
        } else {
            Err(code)
        }
    }

    /// Decode a machine from the input: a 16-bit little-endian code that must
    /// be in the known set. An unknown code fails definitively and the error
    /// preserves the rejected value.
    pub fn parse(buf: &[u8], pos: usize) -> (r: Result<(usize, Machine), ParseError>)
        ensures
            r is Ok <==> (pos + 2 <= buf@.len() && Machine::from_code_spec(
                le_bytes_at(buf@, pos as int, 2) as u16,
            ) is Some),
            r matches Ok((p, m)) ==> p == pos + 2 && Some(m) == Machine::from_code_spec(
                le_bytes_at(buf@, pos as int, 2) as u16,
            ),
            r matches Err(e) ==> e.severity == Severity::Malformed && e.offset == pos
                && e.context@.len() == 1 && e.context@[0] == (ContextFrame {
                label: ParseContext::Machine,
                offset: pos,
            }) && e.kind == (if pos + 2 <= buf@.len() {
                ErrorKind::UnknownCode(le_bytes_at(buf@, pos as int, 2) as u64)
            } else {
                ErrorKind::Truncated
            }),
    {
        match parse::le_u16(buf, pos) {
            Ok((p, code)) => match Machine::from_u16(code) {
                Ok(m) => Ok((p, m)),
                Err(c) => Err(
                    ParseError::new(ErrorKind::UnknownCode(c as u64), Severity::Malformed, pos)
                        .with_context(ParseContext::Machine, pos),
                ),
            },
            Err(e) => Err(e.with_context(ParseContext::Machine, pos)),
        }
    }
}

/// Codes round-trip both ways: every variant decodes from its own code, and a
/// code that decodes at all decodes to the variant carrying exactly that code.
pub proof fn lemma_machine_code_round_trip(m: Machine, code: u16)
    ensures
        Machine::from_code_spec(m.code_spec()) == Some(m),
        Machine::from_code_spec(code) matches Some(n) ==> n.code_spec() == code,
{
}

/// The kind of one program header entry, backed by a 32-bit on-disk code.
/// Only `Load` segments are mapped; the others carry metadata this loader skips.
#[derive(Clone, Copy, PartialEq, Eq, Structural, Debug, Hash)]
pub enum SegmentType {
    Null,
    Load,
    Dynamic,
    Interp,
    Note,
}

impl SegmentType {
    /// The defined numeric code of each variant.
    pub open spec fn code_spec(self) -> u32 {
        match self {
            SegmentType::Null => 0,
            SegmentType::Load => 1,
            SegmentType::Dynamic => 2,
            SegmentType::Interp => 3,
            SegmentType::Note => 4,
        }
    }

    /// The variant a 32-bit code decodes to, if the code is in the known set.
    pub open spec fn from_code_spec(code: u32) -> Option<SegmentType> {
        if code == 0 {
            Some(SegmentType::Null)
        } else if code == 1 {
            Some(SegmentType::Load)
        } else if code == 2 {
            Some(SegmentType::Dynamic)
        } else if code == 3 {
            Some(SegmentType::Interp)
        } else if code == 4 {
            Some(SegmentType::Note)
        } else {
            None
        }
    }

    pub fn to_u32(&self) -> (r: u32)
        ensures
            r == self.code_spec(),
    {
        match self {
            SegmentType::Null => 0,
            SegmentType::Load => 1,
            SegmentType::Dynamic => 2,
            SegmentType::Interp => 3,
            SegmentType::Note => 4,
        }
    }

    /// Decode a 32-bit code; an unknown code is returned unchanged as the error.
    pub fn from_u32(code: u32) -> (r: Result<SegmentType, u32>)
        ensures
            r is Ok <==> SegmentType::from_code_spec(code) is Some,
            r matches Ok(t) ==> SegmentType::from_code_spec(code) == Some(t),
            r matches Err(c) ==> c == code,
    {
        if code == 0 {
            Ok(SegmentType::Null)
        } else if code == 1 {
            Ok(SegmentType::Load)
        } else if code == 2 {
            Ok(SegmentType::Dynamic)
        } else if code == 3 {
            Ok(SegmentType::Interp)
        } else if code == 4 {
            Ok(SegmentType::Note)
        } else {
            Err(code)
        }
    }

    /// Decode a segment type from the input: a 32-bit little-endian code that
    /// must be in the known set. An unknown code fails definitively and the
    /// error preserves the rejected value.
    pub fn parse(buf: &[u8], pos: usize) -> (r: Result<(usize, SegmentType), ParseError>)
        ensures
            r is Ok <==> (pos + 4 <= buf@.len() && SegmentType::from_code_spec(
                le_bytes_at(buf@, pos as int, 4) as u32,
            ) is Some),
            r matches Ok((p, t)) ==> p == pos + 4 && Some(t) == SegmentType::from_code_spec(
                le_bytes_at(buf@, pos as int, 4) as u32,
            ),
            r matches Err(e) ==> e.severity == Severity::Malformed && e.offset == pos
                && e.context@.len() == 1 && e.context@[0] == (ContextFrame {
                label: ParseContext::SegmentType,
                offset: pos,
            }) && e.kind == (if pos + 4 <= buf@.len() {
                ErrorKind::UnknownCode(le_bytes_at(buf@, pos as int, 4) as u64)
            } else {
                ErrorKind::Truncated
            }),
    {
        match parse::le_u32(buf, pos) {
            Ok((p, code)) => match SegmentType::from_u32(code) {
                Ok(t) => Ok((p, t)),
                Err(c) => Err(
                    ParseError::new(ErrorKind::UnknownCode(c as u64), Severity::Malformed, pos)
                        .with_context(ParseContext::SegmentType, pos),
                ),
            },
            Err(e) => Err(e.with_context(ParseContext::SegmentType, pos)),
        }
    }
}

/// Codes round-trip both ways: every variant decodes from its own code, and a
/// code that decodes at all decodes to the variant carrying exactly that code.
pub proof fn lemma_segment_type_code_round_trip(t: SegmentType, code: u32)
    ensures
        SegmentType::from_code_spec(t.code_spec()) == Some(t),
        SegmentType::from_code_spec(code) matches Some(u) ==> u.code_spec() == code,
{
}

/// One memory access right a segment may ask for.
#[derive(Clone, Copy, PartialEq, Eq, Structural, Debug, Hash)]
pub enum SegmentFlag {
    Read,
    Write,
    Execute,
}

/// The set of access rights a segment asks for once mapped. On disk the set
/// is a bit field (execute = bit 0, write = bit 1, read = bit 2); at run time
/// it is translated to the host's own protection representation, which need
/// not use the same bits.
#[derive(Clone, Copy, PartialEq, Eq, Structural, Debug, Hash)]
pub struct SegmentFlags {
    pub read: bool,
    pub write: bool,
    pub execute: bool,
}

impl SegmentFlags {
    /// Whether the set grants one given right.
    pub open spec fn contains_spec(self, f: SegmentFlag) -> bool {
        match f {
            SegmentFlag::Read => self.read,
            SegmentFlag::Write => self.write,
            SegmentFlag::Execute => self.execute,
        }
    }

    /// The set with no rights at all.
    pub fn empty() -> (r: SegmentFlags)
        ensures
            !r.read && !r.write && !r.execute,
    {
        SegmentFlags { read: false, write: false, execute: false }
    }

    /// The set granting exactly the rights either operand grants.
    pub fn union(self, other: SegmentFlags) -> (r: SegmentFlags)
        ensures
            r.read == (self.read || other.read),
            r.write == (self.write || other.write),
            r.execute == (self.execute || other.execute),
    {
        SegmentFlags {
            read: self.read || other.read,
            write: self.write || other.write,
            execute: self.execute || other.execute,
        }
    }

    pub fn contains(self, f: SegmentFlag) -> (r: bool)
        ensures
            r == self.contains_spec(f),
    {
        match f {
            SegmentFlag::Read => self.read,
            SegmentFlag::Write => self.write,
            SegmentFlag::Execute => self.execute,
        }
    }

    /// Decode the on-disk bit field. Unknown bits are ignored: the set is
    /// closed over {read, write, execute}.
    pub fn from_u32(bits: u32) -> (r: SegmentFlags)
        ensures
            r.execute == (bits & 1 != 0),
            r.write == (bits & 2 != 0),
            r.read == (bits & 4 != 0),
    {
        SegmentFlags { read: bits & 4 != 0, write: bits & 2 != 0, execute: bits & 1 != 0 }
    }

    /// Decode a flag set from the input: a 32-bit little-endian bit field.
    /// Every in-range value decodes; only a short input fails.
    pub fn parse(buf: &[u8], pos: usize) -> (r: Result<(usize, SegmentFlags), ParseError>)
        ensures
            pos + 4 <= buf@.len() <==> r is Ok,
            r matches Ok((p, f)) ==> p == pos + 4
                && f.execute == ((le_bytes_at(buf@, pos as int, 4) as u32) & 1 != 0)
                && f.write == ((le_bytes_at(buf@, pos as int, 4) as u32) & 2 != 0)
                && f.read == ((le_bytes_at(buf@, pos as int, 4) as u32) & 4 != 0),
            r matches Err(e) ==> e.severity == Severity::Malformed && e.offset == pos
                && e.kind == ErrorKind::Truncated && e.context@.len() == 1 && e.context@[0] == (
            ContextFrame { label: ParseContext::SegmentFlags, offset: pos }),
    {
        match parse::le_u32(buf, pos) {
            Ok((p, bits)) => Ok((p, SegmentFlags::from_u32(bits))),
            Err(e) => Err(e.with_context(ParseContext::SegmentFlags, pos)),
        }
    }
}

} // verus!
