use bups::device::Device;
use bups::health::Reconnect;
use bups::mdns::{host_fqdn, hostname, readvertise, service_name, txt_properties};
use bups::net::{snmp_address, tcp_address};
use bups::pid::{already_running, recorded_pid, PidFileGuard};
use bups::usb::{identify, read_step, select_printer, supported_printers, ReadOutcome, ReadStep, UsbDeviceInfo};

// --- PID file ---

#[test]
fn a_pid_file_is_read_as_a_trimmed_i32() {
    assert_eq!(recorded_pid("1234\n"), Some(1234));
    assert_eq!(recorded_pid("  +42 "), Some(42));
    assert_eq!(recorded_pid("-7"), Some(-7));
    assert_eq!(recorded_pid("2147483647"), Some(i32::MAX));
    assert_eq!(recorded_pid("-2147483648"), Some(i32::MIN));
    assert_eq!(recorded_pid("2147483648"), None);
    assert_eq!(recorded_pid("99999999999999999999"), None);
    assert_eq!(recorded_pid(""), None);
    assert_eq!(recorded_pid("-"), None);
    assert_eq!(recorded_pid("12a"), None);
    assert_eq!(recorded_pid("1 2"), None);
}

#[test]
fn a_running_instance_is_named_in_the_refusal() {
    assert_eq!(already_running(4711), "another instance already running (PID 4711)");
    assert_eq!(already_running(-3), "another instance already running (PID -3)");
    assert_eq!(already_running(i32::MIN), "another instance already running (PID -2147483648)");
}

#[test]
fn a_written_pid_reads_back() {
    for pid in [1u32, 9, 10, 4711, 2147483647] {
        assert_eq!(recorded_pid(&pid.to_string()), Some(pid as i32));
    }
    let g = PidFileGuard::new("/run/bups.pid".to_owned());
    assert_eq!(g.path(), "/run/bups.pid");
}

// --- USB ---

fn info(vendor_id: u16, product_id: u16, serial: Option<&str>) -> UsbDeviceInfo {
    UsbDeviceInfo { vendor_id, product_id, serial: serial.map(|s| s.to_owned()) }
}

#[test]
fn only_brother_label_printers_are_supported() {
    assert_eq!(identify(0x04f9, 0x2060), Some(Device::PtE550W));
    assert_eq!(identify(0x1234, 0x2060), None);
    assert_eq!(identify(0x04f9, 0x0180), None);
    let found = vec![
        info(0x04f9, 0x2060, Some("A1")),
        info(0x1234, 0x2042, Some("X")),
        info(0x04f9, 0x2042, None),
    ];
    assert_eq!(
        supported_printers(&found),
        vec![(Device::PtE550W, "A1".to_owned()), (Device::Ql700, "Unknown".to_owned())]
    );
}

#[test]
fn the_first_printer_passing_the_filters_is_opened() {
    let printers = vec![
        (Device::Ql700, "S1".to_owned()),
        (Device::Pt2300, "S2".to_owned()),
        (Device::Pt2300, "S3".to_owned()),
    ];
    assert_eq!(select_printer(&printers, None, None), Some(0));
    assert_eq!(select_printer(&printers, Some("PT-2310"), None), Some(1));
    assert_eq!(select_printer(&printers, Some("2300"), Some("S3")), Some(2));
    assert_eq!(select_printer(&printers, None, Some("S9")), None);
    assert_eq!(select_printer(&printers, Some("QL-800"), None), None);
    assert_eq!(select_printer(&[].to_vec(), None, None), None);
}

#[test]
fn a_status_read_keeps_only_a_framed_reply() {
    let mut data = vec![0u8; 40];
    data[0] = 0x80;
    data[1] = 0x20;
    data[31] = 7;
    data[35] = 9;
    match read_step(ReadOutcome::Data(data)) {
        ReadStep::Frame(f) => {
            assert_eq!(f[31], 7);
            assert_eq!(f.len(), 32);
        }
        other => panic!("{other:?}"),
    }
    let short = vec![0x80, 0x20, 5];
    match read_step(ReadOutcome::Data(short)) {
        ReadStep::Frame(f) => {
            assert_eq!(f[2], 5);
            assert_eq!(f[3], 0);
        }
        other => panic!("{other:?}"),
    }
    assert_eq!(read_step(ReadOutcome::Data(vec![0x1b, 0x40])), ReadStep::Retry);
    assert_eq!(read_step(ReadOutcome::Data(vec![])), ReadStep::Retry);
    assert_eq!(read_step(ReadOutcome::TimedOut), ReadStep::Retry);
    assert_eq!(read_step(ReadOutcome::Failed), ReadStep::Fail);
}

// --- Health ---

#[test]
fn reconnecting_stops_at_the_limit() {
    let mut r = Reconnect::new(2);
    assert!(r.next_attempt());
    assert!(r.next_attempt());
    assert!(!r.next_attempt());
    assert_eq!(r.attempts(), 2);
    r.printer_lost();
    assert!(r.next_attempt());
    r.printer_found();
    assert_eq!(r.attempts(), 0);
}

#[test]
fn without_a_limit_reconnecting_never_stops() {
    let mut r = Reconnect::new(0);
    for _ in 0..100 {
        assert!(r.next_attempt());
    }
    assert_eq!(r.attempts(), 100);
}

// --- mDNS ---

#[test]
fn the_hostname_comes_from_the_serial_unless_configured() {
    assert_eq!(hostname("000e9z-93:1020", None), "BRN000E9Z931020");
    assert_eq!(hostname("abc", Some("MyLabelPrinter")), "MyLabelPrinter");
    assert_eq!(host_fqdn("BRN1"), "BRN1.local.");
    assert_eq!(service_name(Device::PtP900), "bups PT-P900");
}

#[test]
fn the_txt_record_describes_the_printer() {
    let txt = txt_properties(Device::Ql820NWB, "BRNX");
    let get = |k: &str| txt.iter().find(|(key, _)| key == k).map(|(_, v)| v.clone());
    assert_eq!(txt.len(), 16);
    assert_eq!(txt[0], ("txtvers".to_owned(), "1".to_owned()));
    assert_eq!(get("pdl").as_deref(), Some("application/vnd.brother-hbp"));
    assert_eq!(get("product").as_deref(), Some("(QL-820NWB)"));
    assert_eq!(get("adminurl").as_deref(), Some("http://BRNX.local./"));
    assert_eq!(get("Color").as_deref(), Some("T"));
    assert_eq!(get("Duplex").as_deref(), Some("F"));
    assert_eq!(get("Binary").as_deref(), Some("T"));
    let txt = txt_properties(Device::Ql700, "h");
    assert_eq!(txt[9], ("Color".to_owned(), "F".to_owned()));
}

#[test]
fn an_unchanged_printer_is_not_readvertised() {
    let a = Some((Device::Ql700, "S1".to_owned()));
    let b = Some((Device::Ql700, "S2".to_owned()));
    assert!(!readvertise(&a, &a.clone()));
    assert!(readvertise(&a, &b));
    assert!(readvertise(&a, &None));
    assert!(readvertise(&None, &a));
    assert!(!readvertise(&None, &None));
}

// --- Addresses ---

#[test]
fn the_servers_bind_where_asked() {
    assert_eq!(tcp_address("[::]", 9100), "[::]:9100");
    assert_eq!(snmp_address("[::]", 161), ":::161");
    assert_eq!(snmp_address("0.0.0.0", 1161), "0.0.0.0:1161");
    assert_eq!(snmp_address("[[fe80::1]]", 0), "fe80::1:0");
}
