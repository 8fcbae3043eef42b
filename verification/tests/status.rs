use bups::config::USB_READ_SIZE;
use bups::device::Series;
use bups::status::{MediaType, PhaseType, Status, StatusType};

/// A frame with the mandatory header bytes and everything else zeroed.
fn frame() -> [u8; USB_READ_SIZE] {
    let mut f = [0u8; USB_READ_SIZE];
    f[0] = 0x80; // print head mark
    f[1] = 0x20; // size
    f[2] = b'B';
    f[3] = b'0';
    f
}

#[test]
fn rejects_a_frame_without_the_magic_header() {
    let mut f = frame();
    f[0] = 0x00;
    assert!(Status::parse(f, Series::Pt).is_none());
    let mut f = frame();
    f[1] = 0x21;
    assert!(Status::parse(f, Series::Ql).is_none());
}

#[test]
fn accepts_a_bare_valid_frame() {
    assert!(Status::parse(frame(), Series::Pt).is_some());
    assert!(Status::parse(frame(), Series::Ql).is_some());
}

/// Offsets against the manufacturer references, one distinct value per
/// field so a transposition cannot pass.
#[test]
fn reads_every_field_from_its_documented_offset() {
    let mut f = frame();
    f[8] = 0x01; // error information 1
    f[9] = 0x10; // error information 2
    f[10] = 24; // media width
    f[11] = 0x01; // media type, PT laminated
    f[17] = 42; // media length
    f[18] = 0x02; // status type, error occurred
    f[19] = 0x01; // phase type, printing
    f[20] = 0x00; // phase number, high byte
    f[21] = 0x14; // phase number, low byte
    f[24] = 0x04; // tape colour
    f[25] = 0x08; // text colour

    let s = Status::parse(f, Series::Pt).expect("valid frame");
    assert_eq!(s.error1, 0x01);
    assert_eq!(s.error2, 0x10);
    assert_eq!(s.media_width, 24);
    assert_eq!(s.media_length, 42);
    assert_eq!(s.media_type, MediaType::LaminatedTape);
    assert_eq!(s.kind, StatusType::ErrorOccurred);
    assert_eq!(s.phase_type, PhaseType::Printing);
    assert_eq!(s.phase_number, 20);
    assert_eq!(s.tape_color, Some(0x04));
    assert_eq!(s.text_color, Some(0x08));
}

/// Byte 19 is the phase type; 20 and 21 are the phase number.
#[test]
fn phase_type_and_phase_number_are_separate_fields() {
    let mut f = frame();
    f[19] = 0x01;
    f[20] = 0x00;
    f[21] = 0x0A;
    let s = Status::parse(f, Series::Pt).expect("valid frame");
    assert_eq!(s.phase_type, PhaseType::Printing);
    assert_eq!(s.phase_number, 10);
}

#[test]
fn ql_leaves_the_reserved_colour_bytes_alone() {
    let mut f = frame();
    f[24] = 0xAB;
    f[25] = 0xCD;
    let s = Status::parse(f, Series::Ql).expect("valid frame");
    assert_eq!(s.tape_color, None);
    assert_eq!(s.text_color, None);
}

#[test]
fn media_type_tables_differ_between_the_series() {
    let mut f = frame();

    f[11] = 0x01;
    assert_eq!(
        Status::parse(f, Series::Pt).unwrap().media_type,
        MediaType::LaminatedTape
    );
    // 0x01 is not in the QL table.
    assert_eq!(
        Status::parse(f, Series::Ql).unwrap().media_type,
        MediaType::Unknown(0x01)
    );

    f[11] = 0x4B;
    assert_eq!(
        Status::parse(f, Series::Ql).unwrap().media_type,
        MediaType::DieCutLabels
    );
    // 0x4B is not in the PT table.
    assert_eq!(
        Status::parse(f, Series::Pt).unwrap().media_type,
        MediaType::Unknown(0x4B)
    );

    // 0x00 is the one value both share.
    f[11] = 0x00;
    assert_eq!(
        Status::parse(f, Series::Pt).unwrap().media_type,
        MediaType::NoMedia
    );
    assert_eq!(
        Status::parse(f, Series::Ql).unwrap().media_type,
        MediaType::NoMedia
    );
}

#[test]
fn pt_error_bits_match_the_pt_reference() {
    let cases: &[(usize, u8, &str)] = &[
        (8, 0x01, "no media"),
        (8, 0x04, "cutter jam"),
        (8, 0x08, "weak batteries"),
        (8, 0x40, "high-voltage adapter"),
        (9, 0x01, "wrong media"),
        (9, 0x10, "cover open"),
        (9, 0x20, "overheating"),
    ];
    for (offset, mask, name) in cases {
        let mut f = frame();
        f[*offset] = *mask;
        let s = Status::parse(f, Series::Pt).expect("valid frame");
        assert!(s.has_error(), "{name}: has_error");
        assert_eq!(s.errors(), vec![(*name).to_owned()], "{name}");
    }
}

#[test]
fn ql_error_bits_match_the_ql_reference() {
    let cases: &[(usize, u8, &str)] = &[
        (8, 0x01, "no media"),
        (8, 0x02, "end of media"),
        (8, 0x04, "cutter jam"),
        (8, 0x10, "printer in use"),
        (8, 0x20, "printer turned off"),
        (9, 0x01, "replace media"),
        (9, 0x02, "expansion buffer full"),
        (9, 0x04, "communication error"),
        (9, 0x10, "cover open"),
        (9, 0x40, "media cannot be fed"),
        (9, 0x80, "system error"),
    ];
    for (offset, mask, name) in cases {
        let mut f = frame();
        f[*offset] = *mask;
        let s = Status::parse(f, Series::Ql).expect("valid frame");
        assert!(s.has_error(), "{name}: has_error");
        assert_eq!(s.errors(), vec![(*name).to_owned()], "{name}");
    }
}

/// A QL reporting "printer turned off" sets error1 bit 5, which on PT is
/// documented as not used.
#[test]
fn a_switched_off_ql_names_its_cause() {
    let mut f = frame();
    f[8] = 0x20;
    let s = Status::parse(f, Series::Ql).expect("valid frame");
    assert!(s.has_error());
    assert_eq!(s.errors(), vec!["printer turned off".to_owned()]);
    assert!(s.to_string().contains("printer turned off"));
}

/// An error bit with no documented meaning must still be reported.
#[test]
fn undocumented_bits_are_reported_rather_than_dropped() {
    let mut f = frame();
    f[8] = 0x80; // PT: "not used"
    let s = Status::parse(f, Series::Pt).expect("valid frame");
    assert!(s.has_error());
    assert_eq!(s.errors(), vec!["undocumented error1 bits 0x80".to_owned()]);
    assert!(
        !s.errors().is_empty(),
        "has_error must never imply an empty cause list"
    );
}

/// Whatever the bits are, the two must not disagree.
#[test]
fn has_error_and_errors_never_contradict_each_other() {
    for series in [Series::Pt, Series::Ql] {
        for e1 in 0u16..=255 {
            for e2 in [0u8, 0x01, 0x02, 0x04, 0x10, 0x20, 0x40, 0x80] {
                let mut f = frame();
                let e1 = e1 as u8;
                f[8] = e1;
                f[9] = e2;
                let s = Status::parse(f, series).expect("valid frame");
                assert_eq!(
                    s.has_error(),
                    !s.errors().is_empty(),
                    "{series:?} error1={e1:#04x} error2={e2:#04x}"
                );
            }
        }
    }
}

#[test]
fn media_description_shows_length_only_when_it_carries_information() {
    let mut f = frame();
    f[10] = 62;
    f[11] = 0x4A; // continuous, length fixed at 0
    let s = Status::parse(f, Series::Ql).expect("valid frame");
    assert_eq!(s.media_description(), "continuous length tape, 62mm");

    f[11] = 0x4B; // die-cut
    f[17] = 29;
    let s = Status::parse(f, Series::Ql).expect("valid frame");
    assert_eq!(s.media_description(), "die-cut labels, 62x29mm");
}

#[test]
fn status_type_covers_the_documented_values() {
    for (v, want) in [
        (0x00, StatusType::ReplyToRequest),
        (0x01, StatusType::PrintingCompleted),
        (0x02, StatusType::ErrorOccurred),
        (0x03, StatusType::ExitIfMode),
        (0x04, StatusType::TurnedOff),
        (0x05, StatusType::Notification),
        (0x06, StatusType::PhaseChange),
        (0x77, StatusType::Unknown(0x77)),
    ] {
        let mut f = frame();
        f[18] = v;
        assert_eq!(
            Status::parse(f, Series::Pt).expect("valid frame").kind,
            want
        );
    }
}

#[test]
fn display_reads_as_ready_when_no_bit_is_set() {
    let mut f = frame();
    f[10] = 12;
    f[11] = 0x01;
    let s = Status::parse(f, Series::Pt).expect("valid frame");
    assert!(!s.has_error());
    assert_eq!(s.to_string(), "READY (laminated tape, 12mm)");
}

// ---------------------------------------------------------------------------
// Further cases
// ---------------------------------------------------------------------------

#[test]
fn several_causes_are_listed_in_table_order_and_joined() {
    let mut f = frame();
    f[8] = 0x01 | 0x04 | 0x80; // no media, cutter jam, one undocumented bit
    f[9] = 0x10 | 0x02; // cover open, one undocumented bit
    let s = Status::parse(f, Series::Pt).expect("valid frame");
    assert_eq!(
        s.errors(),
        vec![
            "no media".to_owned(),
            "cutter jam".to_owned(),
            "cover open".to_owned(),
            "undocumented error1 bits 0x80".to_owned(),
            "undocumented error2 bits 0x02".to_owned(),
        ]
    );
    assert_eq!(
        s.to_string(),
        "ERROR: no media, cutter jam, cover open, undocumented error1 bits 0x80, undocumented error2 bits 0x02"
    );
}

#[test]
fn undocumented_bits_are_written_as_two_hex_digits() {
    let mut f = frame();
    f[9] = 0x08; // QL error2: not used
    let s = Status::parse(f, Series::Ql).expect("valid frame");
    assert_eq!(s.errors(), vec!["undocumented error2 bits 0x08".to_owned()]);
    let mut f = frame();
    f[8] = 0xc8; // QL error1: 0x08, 0x40, 0x80 are not used
    let s = Status::parse(f, Series::Ql).expect("valid frame");
    assert_eq!(s.errors(), vec!["undocumented error1 bits 0xc8".to_owned()]);
}

#[test]
fn phase_number_is_big_endian() {
    let mut f = frame();
    f[20] = 0x12;
    f[21] = 0x34;
    let s = Status::parse(f, Series::Ql).expect("valid frame");
    assert_eq!(s.phase_number, 0x1234);
    assert_eq!(s.phase_type, PhaseType::Editing);
    f[19] = 0x09;
    let s = Status::parse(f, Series::Ql).expect("valid frame");
    assert_eq!(s.phase_type, PhaseType::Unknown(0x09));
}

#[test]
fn every_media_type_has_its_label() {
    let cases = [
        (Series::Pt, 0x00, MediaType::NoMedia, "no media"),
        (Series::Pt, 0x01, MediaType::LaminatedTape, "laminated tape"),
        (Series::Pt, 0x03, MediaType::NonLaminatedTape, "non-laminated tape"),
        (Series::Pt, 0x11, MediaType::HeatShrinkTube21, "heat-shrink tube 2:1"),
        (Series::Pt, 0x17, MediaType::HeatShrinkTube31, "heat-shrink tube 3:1"),
        (Series::Pt, 0xFF, MediaType::IncompatibleTape, "incompatible tape"),
        (Series::Ql, 0x4A, MediaType::ContinuousLength, "continuous length tape"),
        (Series::Ql, 0x4B, MediaType::DieCutLabels, "die-cut labels"),
        (Series::Ql, 0xFF, MediaType::Unknown(0xFF), "unknown"),
    ];
    for (series, v, want, label) in cases {
        let m = MediaType::parse(series, v);
        assert_eq!(m, want);
        assert_eq!(m.label(), label);
    }
}

#[test]
fn wide_media_numbers_are_written_in_full() {
    let mut f = frame();
    f[10] = 255;
    f[11] = 0x4B;
    f[17] = 100;
    let s = Status::parse(f, Series::Ql).expect("valid frame");
    assert_eq!(s.media_description(), "die-cut labels, 255x100mm");
    f[10] = 0;
    f[11] = 0x00;
    f[17] = 0;
    let s = Status::parse(f, Series::Ql).expect("valid frame");
    assert_eq!(s.media_description(), "no media, 0mm");
}

#[test]
fn error_tables_match_the_references() {
    let (pt1, pt2) = bups::status::error_tables(Series::Pt);
    assert_eq!(pt1.len(), 4);
    assert_eq!(pt2, vec![(0x01, "wrong media"), (0x10, "cover open"), (0x20, "overheating")]);
    let (ql1, ql2) = bups::status::error_tables(Series::Ql);
    assert_eq!(ql1[4], (0x20, "printer turned off"));
    assert_eq!(ql2.len(), 6);
}

#[test]
fn status_and_phase_types_convert_from_bytes() {
    assert_eq!(StatusType::from(0x04), StatusType::TurnedOff);
    assert_eq!(StatusType::from(0x07), StatusType::Unknown(0x07));
    assert_eq!(PhaseType::from(0x00), PhaseType::Editing);
    assert_eq!(PhaseType::from(0x02), PhaseType::Unknown(0x02));
}

#[test]
fn the_causes_follow_the_error_bytes_alone() {
    let mut f = frame();
    f[8] = 0x05;
    f[9] = 0x30;
    let a = Status::parse(f, Series::Ql).unwrap();
    f[10] = 62;
    f[11] = 0x0a;
    f[18] = 0x06;
    f[19] = 0x01;
    let b = Status::parse(f, Series::Ql).unwrap();
    assert_ne!(a, b);
    assert_eq!(a.errors(), b.errors());
}

#[test]
fn every_bit_set_lists_each_cause_once_and_no_more_than_the_bits() {
    for series in [Series::Pt, Series::Ql] {
        for (e1, e2) in [(0xffu8, 0xffu8), (0x01, 0x01), (0x80, 0x00), (0x5a, 0xa5)] {
            let mut f = frame();
            f[8] = e1;
            f[9] = e2;
            let errors = Status::parse(f, series).unwrap().errors();
            for (i, x) in errors.iter().enumerate() {
                assert!(!errors[i + 1..].contains(x), "{x} listed twice");
            }
            assert!(errors.len() as u32 <= e1.count_ones() + e2.count_ones());
        }
    }
}

#[test]
fn the_series_share_three_error_entries() {
    let (pt1, pt2) = bups::status::error_tables(Series::Pt);
    let (ql1, ql2) = bups::status::error_tables(Series::Ql);
    let shared1: Vec<_> = pt1.iter().filter(|e| ql1.contains(e)).copied().collect();
    let shared2: Vec<_> = pt2.iter().filter(|e| ql2.contains(e)).copied().collect();
    assert_eq!(shared1, vec![(0x01, "no media"), (0x04, "cutter jam")]);
    assert_eq!(shared2, vec![(0x10, "cover open")]);
    for table in [&pt1, &pt2, &ql1, &ql2] {
        for (i, (m, _)) in table.iter().enumerate() {
            assert_eq!(m.count_ones(), 1);
            assert!(table[i + 1..].iter().all(|(n, _)| n != m));
        }
    }
}
