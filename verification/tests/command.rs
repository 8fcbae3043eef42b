use bups::command::{handle_command, parse_command, status_answer, Command, CommandAction};
use bups::config::USB_READ_SIZE;
use bups::device::Device;

fn answer(data: &[u8]) -> Option<String> {
    match handle_command(data, false) {
        Some(CommandAction::Answer(t)) => Some(t),
        Some(CommandAction::QueryPrinter) => Some("query".to_owned()),
        None => None,
    }
}

#[test]
fn status_is_recognised_and_answered_without_a_printer() {
    let out = answer(b"STATUS\n");
    assert_eq!(out.as_deref(), Some("STATUS: No printer connected\n"));
}

#[test]
fn commands_are_case_insensitive_and_trimmed() {
    for raw in ["status", "  Status \r\n", "STATUS"] {
        let out = answer(raw.as_bytes());
        assert!(out.is_some(), "{raw:?} was not recognised");
    }
}

#[test]
fn help_lists_the_commands() {
    let out = answer(b"HELP\n").expect("HELP is a command");
    assert!(out.contains("STATUS"));
    assert!(out.contains("HELP"));
}

/// Anything that is not a command must fall through to the data path.
#[test]
fn print_data_is_not_mistaken_for_a_command() {
    assert!(answer(b"\x1b@\x00\x01\x02").is_none());
    assert!(answer(b"PRINT").is_none());
    assert!(answer(b"").is_none());
    // Invalid UTF-8 must not panic.
    assert!(answer(&[0xff, 0xfe, 0xfd]).is_none());
}

/// A command is a short line.
#[test]
fn a_long_chunk_is_never_a_command() {
    let mut long = b"STATUS".to_vec();
    long.resize(65, b' ');
    assert_eq!(long.len(), 65);
    assert!(answer(&long).is_none());

    let mut short = b"STATUS".to_vec();
    short.resize(64, b' ');
    assert!(
        answer(&short).is_some(),
        "64 bytes is still within the command window"
    );
}

// ---------------------------------------------------------------------------
// Further cases
// ---------------------------------------------------------------------------

#[test]
fn status_with_a_printer_asks_it() {
    assert_eq!(handle_command(b"status", true), Some(CommandAction::QueryPrinter));
    assert_eq!(parse_command(b"help"), Some(Command::Help));
    assert_eq!(parse_command(b"\tHeLp\n"), Some(Command::Help));
}

#[test]
fn upper_casing_follows_unicode() {
    // The long s upper-cases to S, as `str::to_uppercase` does.
    assert_eq!(parse_command("\u{17f}tatus".as_bytes()), Some(Command::Status));
    assert_eq!(parse_command("st atus".as_bytes()), None);
}

#[test]
fn help_text_is_exact() {
    assert_eq!(
        answer(b"HELP").as_deref(),
        Some("Commands:\n  STATUS - Get printer status\n  HELP   - Show this help\n  <data> - Send raw print data\n")
    );
}

fn frame() -> [u8; USB_READ_SIZE] {
    let mut f = [0u8; USB_READ_SIZE];
    f[0] = 0x80;
    f[1] = 0x20;
    f
}

#[test]
fn status_answer_reports_ready() {
    let mut f = frame();
    f[10] = 62;
    f[11] = 0x4A;
    assert_eq!(
        status_answer(Device::Ql700, Some(f)),
        "STATUS: READY\nModel: QL-700\nMedia: continuous length tape, 62mm\nError: None\n"
    );
}

#[test]
fn status_answer_reports_errors() {
    let mut f = frame();
    f[8] = 0x01;
    f[9] = 0x10;
    f[10] = 12;
    f[11] = 0x01;
    assert_eq!(
        status_answer(Device::PtE550W, Some(f)),
        "STATUS: ERROR\nModel: PT-E550W\nMedia: laminated tape, 12mm\nError: no media, cover open\n"
    );
}

#[test]
fn status_answer_reports_failures() {
    assert_eq!(status_answer(Device::PtP700, None), "STATUS: Read failed\n");
    let mut f = frame();
    f[0] = 0;
    assert_eq!(status_answer(Device::PtP700, Some(f)), "STATUS: Unknown\n");
}
