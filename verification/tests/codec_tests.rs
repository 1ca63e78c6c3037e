use delf::Machine;
use delf::SegmentFlag;
use delf::SegmentFlags;
use delf::SegmentType;
use delf::Type;
use delf::parse::ErrorKind;
use delf::parse::ParseContext;

#[test]
fn try_enums() {
    assert_eq!(Machine::X86_64.to_u16(), 0x3E);
    assert_eq!(Machine::from_u16(0x3E), Ok(Machine::X86_64));
    assert_eq!(Machine::from_u16(0xFA), Err(0xFA));
}

#[test]
fn unknown_codes_round_trip_into_the_error() {
    assert_eq!(Type::from_u16(5), Err(5));
    assert_eq!(Type::from_u16(0xFFFF), Err(0xFFFF));
    assert_eq!(Machine::from_u16(0), Err(0));
    assert_eq!(Machine::from_u16(0x3D), Err(0x3D));
    assert_eq!(SegmentType::from_u32(5), Err(5));
    assert_eq!(SegmentType::from_u32(0x6474_E551), Err(0x6474_E551));
}

#[test]
fn known_codes_decode_to_the_matching_variant() {
    let types = [Type::Null, Type::Rel, Type::Exec, Type::Dyn, Type::Core];
    for t in types {
        assert_eq!(Type::from_u16(t.to_u16()), Ok(t));
    }
    let machines = [Machine::X86, Machine::X86_64];
    for m in machines {
        assert_eq!(Machine::from_u16(m.to_u16()), Ok(m));
    }
    let segment_types = [
        SegmentType::Null,
        SegmentType::Load,
        SegmentType::Dynamic,
        SegmentType::Interp,
        SegmentType::Note,
    ];
    for st in segment_types {
        assert_eq!(SegmentType::from_u32(st.to_u32()), Ok(st));
    }
    assert_eq!(Type::Exec.to_u16(), 2);
    assert_eq!(Machine::X86.to_u16(), 3);
    assert_eq!(SegmentType::Load.to_u32(), 1);
}

#[test]
fn flag_sets_decode_combine_and_answer_contains() {
    let rx = SegmentFlags::from_u32(4 | 1);
    assert!(rx.read && !rx.write && rx.execute);
    assert!(rx.contains(SegmentFlag::Read));
    assert!(!rx.contains(SegmentFlag::Write));
    assert!(rx.contains(SegmentFlag::Execute));

    let w = SegmentFlags::from_u32(2);
    assert_eq!(w, SegmentFlags { read: false, write: true, execute: false });

    let rwx = rx.union(w);
    assert_eq!(rwx, SegmentFlags { read: true, write: true, execute: true });

    let none = SegmentFlags::empty();
    assert_eq!(none.union(none), none);
    assert_eq!(rx.union(none), rx);

    // Unknown on-disk bits are outside the closed set and are dropped.
    let high = SegmentFlags::from_u32(0xF0);
    assert_eq!(high, none);
}

#[test]
fn codec_parsers_decode_and_preserve_rejected_codes() {
    let buf = [2u8, 0, 0x3e, 0];
    assert_eq!(Type::parse(&buf, 0), Ok((2, Type::Exec)));
    assert_eq!(Machine::parse(&buf, 2), Ok((4, Machine::X86_64)));

    let err = Type::parse(&[9, 0], 0).unwrap_err();
    assert_eq!(err.kind, ErrorKind::UnknownCode(9));
    assert_eq!(err.offset, 0);
    assert_eq!(err.context[0].label, ParseContext::Type);
    assert!(err.is_definitive());

    let err = Machine::parse(&[1], 0).unwrap_err();
    assert_eq!(err.kind, ErrorKind::Truncated);
    assert_eq!(err.context[0].label, ParseContext::Machine);

    let buf32 = [1u8, 0, 0, 0, 5, 0, 0, 0];
    assert_eq!(SegmentType::parse(&buf32, 0), Ok((4, SegmentType::Load)));
    let (p, f) = SegmentFlags::parse(&buf32, 4).unwrap();
    assert_eq!(p, 8);
    assert_eq!(f, SegmentFlags { read: true, write: false, execute: true });

    let err = SegmentType::parse(&[99, 0, 0, 0], 0).unwrap_err();
    assert_eq!(err.kind, ErrorKind::UnknownCode(99));
    assert_eq!(err.context[0].label, ParseContext::SegmentType);
}
