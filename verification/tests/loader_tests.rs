use delf::Addr;
use delf::AddrRange;
use delf::File;
use delf::LoadAction;
use delf::LoadError;
use delf::Machine;
use delf::ProgramHeader;
use delf::Reservations;
use delf::SegmentFlags;
use delf::SegmentType;
use delf::Type;
use delf::loader::load_plan;

fn flags(read: bool, write: bool, execute: bool) -> SegmentFlags {
    SegmentFlags { read, write, execute }
}

fn load_header(vaddr: u64, mem_size: u64, data: Vec<u8>, f: SegmentFlags) -> ProgramHeader {
    ProgramHeader {
        segment_type: SegmentType::Load,
        flags: f,
        vaddr: Addr(vaddr),
        mem_size: Addr(mem_size),
        data,
    }
}

fn file_of(headers: Vec<ProgramHeader>) -> File {
    File {
        object_type: Type::Exec,
        machine: Machine::X86_64,
        entry_point: Addr(0x401000),
        program_headers: headers,
    }
}

#[test]
fn single_load_segment_plans_one_mapping_with_exact_protection() {
    let payload: Vec<u8> = (0u8..16).collect();
    let file = file_of(vec![load_header(0x400000, 0x1000, payload.clone(), flags(true, false, true))]);
    let plan = load_plan(&file).unwrap();
    assert_eq!(plan.len(), 3);
    match &plan[0] {
        LoadAction::Reserve { range, prot } => {
            assert_eq!(range.start, Addr(0x400000));
            assert_eq!(range.end, Addr(0x401000));
            // Writable for the copy, regardless of the declared flags.
            assert_eq!(*prot, flags(false, true, false));
        },
        _ => panic!("expected a reservation first"),
    }
    match &plan[1] {
        LoadAction::CopyData { start, data } => {
            assert_eq!(*start, Addr(0x400000));
            assert_eq!(*data, payload);
        },
        _ => panic!("expected the copy second"),
    }
    match &plan[2] {
        LoadAction::Protect { range, prot } => {
            assert_eq!(range.start, Addr(0x400000));
            assert_eq!(range.end, Addr(0x401000));
            // Exactly Read+Execute, never Read+Write+Execute.
            assert_eq!(*prot, flags(true, false, true));
        },
        _ => panic!("expected the protection change third"),
    }
}

#[test]
fn non_load_segments_produce_no_mapping() {
    let note = ProgramHeader {
        segment_type: SegmentType::Note,
        flags: flags(true, false, false),
        vaddr: Addr(0x100),
        mem_size: Addr(0x10),
        data: vec![1, 2],
    };
    let dynamic = ProgramHeader {
        segment_type: SegmentType::Dynamic,
        flags: flags(true, true, false),
        vaddr: Addr(0x200),
        mem_size: Addr(0x10),
        data: vec![],
    };
    let file = file_of(vec![
        note,
        load_header(0x400000, 0x1000, vec![7], flags(true, false, true)),
        dynamic,
    ]);
    // All three rows stay in the parsed description ...
    assert_eq!(file.program_headers.len(), 3);
    // ... but only the Load row is mapped.
    let plan = load_plan(&file).unwrap();
    assert_eq!(plan.len(), 3);
    match &plan[0] {
        LoadAction::Reserve { range, .. } => assert_eq!(range.start, Addr(0x400000)),
        _ => panic!("expected a reservation first"),
    }
}

#[test]
fn overlapping_segments_fail_deterministically() {
    let file = file_of(vec![
        load_header(0x400000, 0x1000, vec![], flags(true, false, false)),
        load_header(0x400800, 0x1000, vec![], flags(true, false, false)),
    ]);
    let err = load_plan(&file).unwrap_err();
    assert_eq!(
        err,
        LoadError::AddressConflict {
            range: AddrRange { start: Addr(0x400800), end: Addr(0x401800) },
        },
    );

    // The same address twice is the sharpest conflict.
    let file = file_of(vec![
        load_header(0x400000, 0x1000, vec![], flags(true, false, false)),
        load_header(0x400000, 0x1000, vec![], flags(true, true, false)),
    ]);
    assert!(matches!(load_plan(&file), Err(LoadError::AddressConflict { .. })));

    // Touching ranges do not overlap: a half-open range ends before the next.
    let file = file_of(vec![
        load_header(0x400000, 0x1000, vec![], flags(true, false, false)),
        load_header(0x401000, 0x1000, vec![], flags(true, false, false)),
    ]);
    assert_eq!(load_plan(&file).unwrap().len(), 6);
}

#[test]
fn reservations_never_overwrite() {
    let mut resv = Reservations::new();
    let first = AddrRange { start: Addr(0x400000), end: Addr(0x401000) };
    assert_eq!(resv.reserve(first), Ok(()));
    assert_eq!(
        resv.reserve(first),
        Err(LoadError::AddressConflict { range: first }),
    );
    let inside = AddrRange { start: Addr(0x400fff), end: Addr(0x402000) };
    assert_eq!(
        resv.reserve(inside),
        Err(LoadError::AddressConflict { range: inside }),
    );
    let beyond = AddrRange { start: Addr(0x401000), end: Addr(0x402000) };
    assert_eq!(resv.reserve(beyond), Ok(()));
    let empty = AddrRange { start: Addr(0x500000), end: Addr(0x500000) };
    assert_eq!(resv.reserve(empty), Err(LoadError::EmptyRange { start: Addr(0x500000) }));
}

#[test]
fn unmappable_segments_fail_with_their_own_error() {
    let file = file_of(vec![load_header(0x400000, 0, vec![], flags(true, false, false))]);
    assert_eq!(load_plan(&file).unwrap_err(), LoadError::EmptyRange { start: Addr(0x400000) });

    let file = file_of(vec![load_header(u64::MAX - 1, 0x10, vec![], flags(true, false, false))]);
    assert_eq!(
        load_plan(&file).unwrap_err(),
        LoadError::RangeWrap { start: Addr(u64::MAX - 1), length: Addr(0x10) },
    );

    let file = file_of(vec![load_header(0x400000, 2, vec![1, 2, 3], flags(true, false, false))]);
    assert_eq!(
        load_plan(&file).unwrap_err(),
        LoadError::DataExceedsRange { start: Addr(0x400000) },
    );
}

#[test]
fn parse_then_plan_covers_the_whole_pipeline() {
    let payload: Vec<u8> = (0u8..16).collect();
    let mut input = vec![0x7f, 0x45, 0x4c, 0x46];
    input.extend_from_slice(&2u16.to_le_bytes()); // Exec
    input.extend_from_slice(&0x3eu16.to_le_bytes()); // X86_64
    input.extend_from_slice(&0x401000u64.to_le_bytes()); // entry point
    input.extend_from_slice(&2u16.to_le_bytes()); // two program headers
    // A Note row: present in the description, never mapped.
    input.extend_from_slice(&4u32.to_le_bytes());
    input.extend_from_slice(&4u32.to_le_bytes());
    input.extend_from_slice(&0u64.to_le_bytes());
    input.extend_from_slice(&0u64.to_le_bytes());
    input.extend_from_slice(&0u64.to_le_bytes());
    input.extend_from_slice(&0u64.to_le_bytes());
    // The Load row.
    input.extend_from_slice(&1u32.to_le_bytes());
    input.extend_from_slice(&5u32.to_le_bytes()); // Read + Execute
    input.extend_from_slice(&0x400000u64.to_le_bytes());
    input.extend_from_slice(&0x1000u64.to_le_bytes());
    input.extend_from_slice(&98u64.to_le_bytes()); // data offset: past the table
    input.extend_from_slice(&16u64.to_le_bytes());
    assert_eq!(input.len(), 98);
    input.extend_from_slice(&payload);

    let (consumed, file) = File::parse(&input).unwrap();
    assert_eq!(consumed, 98);
    assert_eq!(file.program_headers.len(), 2);
    assert_eq!(file.program_headers[0].segment_type, SegmentType::Note);
    assert_eq!(file.entry_point, Addr(0x401000));

    let plan = load_plan(&file).unwrap();
    assert_eq!(plan.len(), 3);
    match &plan[1] {
        LoadAction::CopyData { start, data } => {
            assert_eq!(*start, Addr(0x400000));
            assert_eq!(*data, payload);
        },
        _ => panic!("expected the copy second"),
    }
}

#[test]
fn addresses_order_convert_and_do_exact_arithmetic() {
    let a = Addr(0x400000);
    let b = Addr(0x1000);
    assert_eq!(a.add(b), Addr(0x401000));
    assert_eq!(a.sub(b), Addr(0x3ff000));
    assert_eq!(a.checked_add(b), Some(Addr(0x401000)));
    assert_eq!(Addr(u64::MAX).checked_add(Addr(1)), None);
    assert!(b < a);
    assert!(a <= a && a == a);
    assert_eq!(Addr::from(7u64), Addr(7));
    assert_eq!(u64::from(Addr(7)), 7);
    assert_eq!(a.to_u64(), 0x400000);
    assert_eq!(a.to_usize(), 0x400000);
    let range = AddrRange { start: b, end: a };
    assert_eq!(range.len(), 0x400000 - 0x1000);

    let bytes = 0x401000u64.to_le_bytes();
    assert_eq!(Addr::parse(&bytes, 0), Ok((8, Addr(0x401000))));
    let err = Addr::parse(&bytes[..5], 0).unwrap_err();
    assert_eq!(err.offset, 0);
}
