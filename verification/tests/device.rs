use bups::device::{Capabilities, Device, Series, DEFAULT_CAPS};

/// Every device the table knows, for the exhaustiveness checks below.
const ALL: &[Device] = &[
    Device::Pt18R,
    Device::Pt1230Pc,
    Device::Pt2300,
    Device::Pt2420Pc,
    Device::Pt2430Pc,
    Device::Pt2730,
    Device::Pt7600,
    Device::PtD600,
    Device::PtE550W,
    Device::PtP700,
    Device::PtP750W,
    Device::PtP900,
    Device::Ql500,
    Device::Ql550,
    Device::Ql560,
    Device::Ql570,
    Device::Ql600,
    Device::Ql650Td,
    Device::Ql700,
    Device::Ql710W,
    Device::Ql720NW,
    Device::Ql800,
    Device::Ql810W,
    Device::Ql820NWB,
    Device::Ql1050,
    Device::Ql1060N,
    Device::Ql1100,
    Device::Ql1110NWB,
    Device::Ql1115NWB,
];

#[test]
fn an_unknown_product_id_is_not_a_device() {
    assert_eq!(Device::from_pid(0x0000), None);
    assert_eq!(Device::from_pid(0xffff), None);
    // A Brother device that is not a supported label printer.
    assert_eq!(Device::from_pid(0x0180), None);
}

#[test]
fn known_product_ids_round_trip() {
    assert_eq!(Device::from_pid(0x2060), Some(Device::PtE550W));
    assert_eq!(Device::from_pid(0x2042), Some(Device::Ql700));
    assert_eq!(Device::from_pid(0x209d), Some(Device::Ql820NWB));
    // Untested against hardware, so the table entry is the only thing under
    // test here.
    assert_eq!(Device::from_pid(0x208e), Some(Device::PtP900));
}

/// A duplicated product ID would make the earlier arm shadow the later one.
#[test]
fn no_product_id_is_claimed_by_two_devices() {
    for (i, a) in ALL.iter().enumerate() {
        for b in &ALL[i + 1..] {
            assert_ne!(
                Device::product_id(*a),
                Device::product_id(*b),
                "{a:?} and {b:?} share a product ID"
            );
        }
    }
}

#[test]
fn every_device_resolves_back_from_its_own_product_id() {
    for d in ALL {
        assert_eq!(
            Device::from_pid(Device::product_id(*d)),
            Some(*d),
            "{d:?} does not round-trip"
        );
    }
}

#[test]
fn model_names_are_present_and_unique() {
    let mut seen: Vec<&str> = Vec::new();
    for d in ALL {
        let name = d.model_name();
        assert!(!name.is_empty(), "{d:?} has no model name");
        assert!(!seen.contains(&name), "duplicate model name {name}");
        seen.push(name);
    }
}

/// The series decides how the status frame is read.
#[test]
fn the_series_follows_the_model_name() {
    for d in ALL {
        let expected = if d.model_name().starts_with("QL-") {
            Series::Ql
        } else {
            Series::Pt
        };
        assert_eq!(
            d.series(),
            expected,
            "{} has the wrong series",
            d.model_name()
        );
    }
}

/// Both documented names of a dual-named model match.
#[test]
fn both_names_of_a_dual_named_model_match() {
    let d = Device::Pt2300;
    for q in [
        "PT-2300/2310",
        "PT-2300",
        "PT-2310",
        "pt-2310",
        "2300",
        "2310",
    ] {
        assert!(d.matches(q), "{q} should match {}", d.model_name());
    }
}

#[test]
fn every_model_matches_its_own_name_and_its_bare_number() {
    for d in ALL {
        let name = d.model_name();
        assert!(d.matches(name), "{name} does not match itself");
        assert!(d.matches(&name.to_lowercase()), "{name} is case sensitive");
        if let Some((_, bare)) = name.split_once('-') {
            let first = bare.split('/').next().unwrap_or(bare);
            assert!(d.matches(first), "{name} does not match {first}");
        }
    }
}

#[test]
fn a_query_must_not_match_a_different_model() {
    assert!(!Device::Ql700.matches("QL-710W"));
    assert!(!Device::PtP700.matches("PT-P750W"));
    // A prefix of a real name is not a match.
    assert!(!Device::Ql1100.matches("QL-110"));
    assert!(!Device::Ql700.matches(""));
    assert!(!Device::Ql700.matches("   "));
}

/// No query may select two devices at once.
#[test]
fn no_query_selects_two_devices() {
    let mut queries: Vec<String> = Vec::new();
    for d in ALL {
        let name = d.model_name();
        queries.push(name.to_owned());
        for part in name.split('/') {
            queries.push(part.to_owned());
            if let Some((_, bare)) = part.split_once('-') {
                queries.push(bare.to_owned());
            }
        }
    }
    for q in &queries {
        let hits: Vec<&str> = ALL
            .iter()
            .filter(|d| d.matches(q))
            .map(|d| d.model_name())
            .collect();
        assert_eq!(hits.len(), 1, "query {q:?} matches {hits:?}");
    }
}

#[test]
fn every_device_advertises_at_least_the_default_capabilities() {
    for d in ALL {
        assert!(
            d.capabilities().contains(DEFAULT_CAPS),
            "{} lacks the default capabilities",
            d.model_name()
        );
    }
}

#[test]
fn colour_is_claimed_only_by_the_models_that_have_it() {
    for d in ALL {
        let colour = d.capabilities().contains(Capabilities::COLOR);
        let expected = matches!(d, Device::Ql800 | Device::Ql810W | Device::Ql820NWB);
        assert_eq!(colour, expected, "{} colour capability", d.model_name());
    }
}

// ---------------------------------------------------------------------------
// Further cases
// ---------------------------------------------------------------------------

#[test]
fn queries_are_trimmed_of_unicode_white_space() {
    assert!(Device::PtE550W.matches("\tPT-E550W\n"));
    assert!(Device::PtE550W.matches("\u{3000}e550w\u{a0}"));
    assert!(!Device::PtE550W.matches("PT-E550W x"));
    assert!(!Device::PtE550W.matches("PT E550W"));
}

#[test]
fn the_prefix_alone_or_a_part_of_a_number_is_no_match() {
    assert!(!Device::Pt2300.matches("PT"));
    assert!(!Device::Pt2300.matches("PT-"));
    assert!(!Device::Pt2300.matches("2300/2310"));
    assert!(!Device::Ql1115NWB.matches("1115"));
    assert!(Device::Ql1115NWB.matches("ql-1115nwb"));
}

#[test]
fn non_ascii_letters_are_not_folded() {
    // The dotless capital I is not an ASCII letter, so it matches nothing.
    assert!(!Device::Ql1110NWB.matches("QL-1110NW\u{0130}"));
}

#[test]
fn capability_flags_combine() {
    let c = Device::Ql800.capabilities();
    assert_eq!(c.bits, DEFAULT_CAPS | Capabilities::COLOR);
    assert!(c.contains(Capabilities::BINARY | Capabilities::TRANSPARENT));
    assert!(!c.contains(Capabilities::DUPLEX));
    let d = Device::PtP900.capabilities().union(Capabilities::TBCP);
    assert!(d.contains(Capabilities::TBCP));
    assert!(d.contains(DEFAULT_CAPS));
}
