use vstd::prelude::*;

use crate::addr::Addr;
use crate::addr::AddrRange;
use crate::codes::Machine;
use crate::codes::SegmentFlags;
use crate::codes::SegmentType;
use crate::codes::Type;
use crate::parse;
use crate::parse::ErrorKind;
use crate::parse::ParseContext;
use crate::parse::ParseError;
use crate::parse::Severity;
use crate::parse::le_bytes_at;
use crate::parse::tag_matches;

verus! {

/// One row of the program header table: what kind of segment it describes,
/// the access rights it asks for, the virtual byte range it occupies once
/// mapped, and the exact on-disk bytes to copy into the start of that range.
#[derive(Debug)]
pub struct ProgramHeader {
    pub segment_type: SegmentType,
    pub flags: SegmentFlags,
    pub vaddr: Addr,
    pub mem_size: Addr,
    pub data: Vec<u8>,
}

impl ProgramHeader {
    /// The virtual range neither wraps the address space nor is shorter than
    /// the on-disk bytes to be copied into it (the rest is zero fill).
    pub open spec fn wf(self) -> bool {
        &&& self.vaddr.0 + self.mem_size.0 <= u64::MAX
        &&& self.data@.len() <= self.mem_size.0
    }

    /// The virtual byte range the segment occupies once mapped.
    pub fn mem_range(&self) -> (r: AddrRange)
        requires
            self.vaddr.0 + self.mem_size.0 <= u64::MAX,
        ensures
            r.start == self.vaddr,
            r.end.0 == self.vaddr.0 + self.mem_size.0,
    {
        AddrRange { start: self.vaddr, end: self.vaddr.add(self.mem_size) }
    }
}

/// The parsed executable: object and machine kind, entry point, and the
/// program header table in on-disk order.
#[derive(Debug)]
pub struct File {
    pub object_type: Type,
    pub machine: Machine,
    pub entry_point: Addr,
    pub program_headers: Vec<ProgramHeader>,
}

/// The fixed four-byte magic signature that opens a well-formed input.
pub open spec fn magic_spec() -> Seq<u8> {
    seq![0x7f, 0x45, 0x4c, 0x46]
}

/// Whether the input opens with the magic signature.
pub open spec fn magic_ok(s: Seq<u8>) -> bool {
    tag_matches(s, 0, magic_spec())
}

/// Where program header entry `j` starts: the fixed header takes 18 bytes
/// (magic, object type, machine, entry point, entry count) and each entry 40.
pub open spec fn entry_pos(j: int) -> int {
    18 + 40 * j
}

/// The number of program header entries the input declares.
pub open spec fn phnum_spec(s: Seq<u8>) -> int {
    le_bytes_at(s, 16, 2)
}

pub open spec fn entry_type_code(s: Seq<u8>, j: int) -> int {
    le_bytes_at(s, entry_pos(j), 4)
}

pub open spec fn entry_flag_bits(s: Seq<u8>, j: int) -> int {
    le_bytes_at(s, entry_pos(j) + 4, 4)
}

pub open spec fn entry_vaddr(s: Seq<u8>, j: int) -> int {
    le_bytes_at(s, entry_pos(j) + 8, 8)
}

pub open spec fn entry_mem_size(s: Seq<u8>, j: int) -> int {
    le_bytes_at(s, entry_pos(j) + 16, 8)
}

pub open spec fn entry_offset(s: Seq<u8>, j: int) -> int {
    le_bytes_at(s, entry_pos(j) + 24, 8)
}

pub open spec fn entry_file_size(s: Seq<u8>, j: int) -> int {
    le_bytes_at(s, entry_pos(j) + 32, 8)
}

/// Entry `j` is acceptable: a known segment type code, no more on-disk bytes
/// than the virtual range holds, a virtual range that does not wrap, and an
/// on-disk extent that lies inside the input.
pub open spec fn entry_ok(s: Seq<u8>, j: int) -> bool {
    &&& SegmentType::from_code_spec(entry_type_code(s, j) as u32) is Some
    &&& entry_file_size(s, j) <= entry_mem_size(s, j)
    &&& entry_vaddr(s, j) + entry_mem_size(s, j) <= u64::MAX
    &&& entry_offset(s, j) + entry_file_size(s, j) <= s.len()
}

/// The whole input parses: magic present, known object and machine codes, the
/// declared table lies inside the input, and every entry is acceptable.
pub open spec fn parse_ok(s: Seq<u8>) -> bool {
    &&& magic_ok(s)
    &&& s.len() >= 18
    &&& Type::from_code_spec(le_bytes_at(s, 4, 2) as u16) is Some
    &&& Machine::from_code_spec(le_bytes_at(s, 6, 2) as u16) is Some
    &&& entry_pos(phnum_spec(s)) <= s.len()
    &&& forall|j: int| 0 <= j < phnum_spec(s) ==> entry_ok(s, j)
}

/// The parsed header `ph` is exactly what entry `j` of the input declares.
pub open spec fn header_matches(s: Seq<u8>, j: int, ph: ProgramHeader) -> bool {
    &&& Some(ph.segment_type) == SegmentType::from_code_spec(entry_type_code(s, j) as u32)
    &&& ph.flags.execute == ((entry_flag_bits(s, j) as u32) & 1 != 0)
    &&& ph.flags.write == ((entry_flag_bits(s, j) as u32) & 2 != 0)
    &&& ph.flags.read == ((entry_flag_bits(s, j) as u32) & 4 != 0)
    &&& ph.vaddr.0 == entry_vaddr(s, j)
    &&& ph.mem_size.0 == entry_mem_size(s, j)
    &&& ph.data@ == s.subrange(entry_offset(s, j), entry_offset(s, j) + entry_file_size(s, j))
}

/// The parsed file `f` is exactly what the input declares.
pub open spec fn file_matches(s: Seq<u8>, f: File) -> bool {
    &&& Some(f.object_type) == Type::from_code_spec(le_bytes_at(s, 4, 2) as u16)
    &&& Some(f.machine) == Machine::from_code_spec(le_bytes_at(s, 6, 2) as u16)
    &&& f.entry_point.0 == le_bytes_at(s, 8, 8)
    &&& f.program_headers@.len() == phnum_spec(s)
    &&& forall|j: int|
        0 <= j < phnum_spec(s) ==> header_matches(s, j, #[trigger] f.program_headers@[j])
            && f.program_headers@[j].wf()
}

impl File {
    /// Parse the whole header region of a raw input. On success the result
    /// carries the position just past the table (trailing segment data is
    /// valid input, not an error) and the structured description; on failure,
    /// a definitive error with the failing offset and its context stack. No
    /// partial `File` is ever produced.
    #[verifier::loop_isolation(false)]
    #[verifier::rlimit(30)]
    pub fn parse(buf: &[u8]) -> (r: Result<(usize, File), ParseError>)
        ensures
            r is Ok <==> parse_ok(buf@),
            r matches Ok((consumed, f)) ==> consumed == entry_pos(phnum_spec(buf@))
                && file_matches(buf@, f),
            r matches Err(e) ==> e.severity == Severity::Malformed,
            !magic_ok(buf@) ==> (r matches Err(e) && e.offset == 0),
            magic_ok(buf@) && buf@.len() >= 6 && Type::from_code_spec(
                le_bytes_at(buf@, 4, 2) as u16,
            ) is None ==> (r matches Err(e) && e.offset == 4 && e.kind == ErrorKind::UnknownCode(
                le_bytes_at(buf@, 4, 2) as u64,
            )),
            magic_ok(buf@) && buf@.len() >= 8 && Type::from_code_spec(
                le_bytes_at(buf@, 4, 2) as u16,
            ) is Some && Machine::from_code_spec(le_bytes_at(buf@, 6, 2) as u16) is None ==> (
            r matches Err(e) && e.offset == 6 && e.kind == ErrorKind::UnknownCode(
                le_bytes_at(buf@, 6, 2) as u64,
            )),
            magic_ok(buf@) && buf@.len() < 18 && Type::from_code_spec(
                le_bytes_at(buf@, 4, 2) as u16,
            ) is Some && Machine::from_code_spec(le_bytes_at(buf@, 6, 2) as u16) is Some ==> (
            r matches Err(e) && e.kind == ErrorKind::Truncated),
    {
        let magic: Vec<u8> = vec![0x7f, 0x45, 0x4c, 0x46];
        proof {
            assert(magic@ =~= magic_spec());
        }
        let pos: usize = match parse::tag(buf, 0, magic.as_slice()) {
            Ok(p) => p,
            Err(e) => {
                return Err(e.with_context(ParseContext::Magic, 0));
            },
        };
        let (pos, object_type) = match Type::parse(buf, pos) {
            Ok(x) => x,
            Err(e) => {
                return Err(e);
            },
        };
        let (pos, machine) = match Machine::parse(buf, pos) {
            Ok(x) => x,
            Err(e) => {
                return Err(e);
            },
        };
        let (pos, entry_point) = match Addr::parse(buf, pos) {
            Ok(x) => x,
            Err(e) => {
                return Err(e.with_context(ParseContext::Entry, 8));
            },
        };
        let (pos, phnum) = match parse::le_u16(buf, pos) {
            Ok(x) => x,
            Err(e) => {
                return Err(e.with_context(ParseContext::HeaderCount, 16));
            },
        };
        let mut headers: Vec<ProgramHeader> = Vec::new();
        let mut j: usize = 0;
        while j < phnum as usize
            invariant
                j <= phnum,
                headers@.len() == j,
                j > 0 ==> entry_pos(j as int) <= buf@.len(),
                forall|m: int| 0 <= m < j ==> #[trigger] entry_ok(buf@, m),
                forall|m: int|
                    0 <= m < j ==> header_matches(buf@, m, #[trigger] headers@[m])
                        && headers@[m].wf(),
            decreases phnum - j,
        {
            let e_pos: usize = 18 + 40 * j;
            proof {
                assert(entry_pos(phnum_spec(buf@)) >= e_pos + 40);
            }
            let (p, segment_type) = match SegmentType::parse(buf, e_pos) {
                Ok(x) => x,
                Err(e) => {
                    proof {
                        assert(e_pos + 4 > buf@.len() || !entry_ok(buf@, j as int));
                    }
                    return Err(e.with_context(ParseContext::ProgramHeader, e_pos));
                },
            };
            let (p, flags) = match SegmentFlags::parse(buf, p) {
                Ok(x) => x,
                Err(e) => {
                    return Err(e.with_context(ParseContext::ProgramHeader, e_pos));
                },
            };
            let (p, vaddr_val) = match parse::le_u64(buf, p) {
                Ok(x) => x,
                Err(e) => {
                    return Err(
                        e.with_context(ParseContext::VirtualRange, e_pos).with_context(
                            ParseContext::ProgramHeader,
                            e_pos,
                        ),
                    );
                },
            };
            let (p, memsz_val) = match parse::le_u64(buf, p) {
                Ok(x) => x,
                Err(e) => {
                    return Err(
                        e.with_context(ParseContext::VirtualRange, e_pos).with_context(
                            ParseContext::ProgramHeader,
                            e_pos,
                        ),
                    );
                },
            };
            let (p, off_val) = match parse::le_u64(buf, p) {
                Ok(x) => x,
                Err(e) => {
                    return Err(
                        e.with_context(ParseContext::DataExtent, e_pos).with_context(
                            ParseContext::ProgramHeader,
                            e_pos,
                        ),
                    );
                },
            };
            let (_p, filesz_val) = match parse::le_u64(buf, p) {
                Ok(x) => x,
                Err(e) => {
                    return Err(
                        e.with_context(ParseContext::DataExtent, e_pos).with_context(
                            ParseContext::ProgramHeader,
                            e_pos,
                        ),
                    );
                },
            };
            if filesz_val > memsz_val || vaddr_val > u64::MAX - memsz_val {
                proof {
                    assert(!entry_ok(buf@, j as int));
                }
                return Err(
                    ParseError::new(ErrorKind::BadSegmentBounds, Severity::Malformed, e_pos)
                        .with_context(ParseContext::VirtualRange, e_pos).with_context(
                        ParseContext::ProgramHeader,
                        e_pos,
                    ),
                );
            }
            if off_val > buf.len() as u64 || filesz_val > buf.len() as u64 - off_val {
                proof {
                    assert(!entry_ok(buf@, j as int));
                }
                return Err(
                    ParseError::new(ErrorKind::Truncated, Severity::Malformed, e_pos)
                        .with_context(ParseContext::DataExtent, e_pos).with_context(
                        ParseContext::ProgramHeader,
                        e_pos,
                    ),
                );
            }
            let data: Vec<u8> = match parse::take(buf, off_val as usize, filesz_val as usize) {
                Ok((_, d)) => d,
                Err(e) => {
                    proof {
                        assert(false);
                    }
                    return Err(e);
                },
            };
            let ph = ProgramHeader {
                segment_type,
                flags,
                vaddr: Addr(vaddr_val),
                mem_size: Addr(memsz_val),
                data,
            };
            proof {
                assert(entry_pos(j as int) == e_pos);
                assert(entry_ok(buf@, j as int));
                assert(header_matches(buf@, j as int, ph));
                assert(ph.wf());
            }
            headers.push(ph);
            j = j + 1;
        }
        Ok(
            (
                18 + 40 * (phnum as usize),
                File { object_type, machine, entry_point, program_headers: headers },
            ),
        )
    }
}

} // verus!
