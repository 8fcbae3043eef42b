//! The text commands a TCP client may send instead of print data, and what
//! each is answered.
//!
//! The first chunk a client sends decides what the connection is. A short
//! chunk that spells `STATUS` or `HELP` (in any case, with white space around
//! it) is a command and is answered without the printer being taken for a
//! job; everything else is print data.
use vstd::prelude::*;
use vstd::string::StringExecFns;
use vstd::utf8::valid_utf8;
use vstd::utf8::decode_utf8;
use vstd::utf8::is_ascii_chars;
use vstd::utf8::char_u32_cast;
use crate::config::{COMMAND_WINDOW, USB_READ_SIZE};
use crate::device::{Device, Series};
use crate::status::{frame_status, has_magic, lemma_named_bit_listed, Status};
use crate::text::{
    ascii_fold, ascii_upper, chars_of, eq_ignore_ascii_case, is_ascii_upper_of, join,
    lemma_trim_is_range, push_joined, same_chars, string_of, to_uppercase, trim, trimmed,
    unicode_uppercase, utf8_decode,
};

verus! {

/// A text command.
#[derive(Clone, Copy, Debug, PartialEq, Eq, Structural)]
pub enum Command {
    /// Report the printer's status.
    Status,
    /// List the commands.
    Help,
}

/// What a command needs next.
#[derive(Clone, Debug, PartialEq, Eq)]
pub enum CommandAction {
    /// Send this text and close the connection.
    Answer(String),
    /// Ask the printer for its status and answer with [`status_answer`].
    QueryPrinter,
}

/// The text a chunk spells once decoded, trimmed and upper-cased, when it is
/// short enough to be a command and valid UTF-8.
pub open spec fn command_text(data: Seq<u8>) -> Option<Seq<char>> {
    if data.len() <= COMMAND_WINDOW && valid_utf8(data) {
        Some(unicode_uppercase(trim(decode_utf8(data))))
    } else {
        None
    }
}

/// The command a chunk spells, if any.
pub open spec fn command_of(data: Seq<u8>) -> Option<Command> {
    match command_text(data) {
        Some(t) => if t == "STATUS"@ {
            Some(Command::Status)
        } else if t == "HELP"@ {
            Some(Command::Help)
        } else {
            None
        },
        None => None,
    }
}

/// The help text.
pub open spec fn help_text() -> Seq<char> {
    "Commands:\n  STATUS - Get printer status\n  HELP   - Show this help\n  <data> - Send raw print data\n"@
}

/// The answer to `STATUS` when no printer is attached.
pub open spec fn no_printer_text() -> Seq<char> {
    "STATUS: No printer connected\n"@
}

/// Sent to a client refused because the connection limit is reached.
pub const TOO_MANY_CONNECTIONS: &'static str = "ERROR: Too many connections\n";

/// Sent to a client whose print data arrives while no printer is attached.
pub const NO_PRINTER_FOR_DATA: &'static str = "ERROR: No printer connected\n";

/// Sent to a client when forwarding its print data to the printer failed.
pub const USB_WRITE_FAILED: &'static str = "ERROR: USB write failed\n";

/// `true` when the characters of `s` are those of `lit`.
fn text_is(s: &String, lit: &str) -> (r: bool)
    ensures
        r == (s@ == lit@),
{
    same_chars(&chars_of(s.as_str()), &chars_of(lit))
}

/// Reads the command a chunk spells.
///
/// Only a short chunk can be a command: anything longer than the command
/// window is print data and is not decoded at all.
pub fn parse_command(data: &[u8]) -> (r: Option<Command>)
    ensures
        r == command_of(data@),
        // Commands are read without regard to ASCII case or surrounding white
        // space: short ASCII text is `STATUS` or `HELP` exactly when,
        // trimmed, it equals that word ignoring ASCII case.
        data@.len() <= COMMAND_WINDOW && valid_utf8(data@) && is_ascii_chars(decode_utf8(data@))
            ==> ((r == Some(Command::Status)) <==> eq_ignore_ascii_case(
            trim(decode_utf8(data@)),
            "STATUS"@,
        )) && ((r == Some(Command::Help)) <==> eq_ignore_ascii_case(
            trim(decode_utf8(data@)),
            "HELP"@,
        )),
{
    if data.len() > COMMAND_WINDOW {
        return None;
    }
    let decoded = match utf8_decode(data) {
        Some(s) => s,
        None => return None,
    };
    let t = string_of(&trimmed(&chars_of(decoded.as_str())));
    let cmd = to_uppercase(t.as_str());
    proof {
        if is_ascii_chars(decode_utf8(data@)) {
            lemma_trim_ascii(decode_utf8(data@));
            lemma_ascii_command(t@, cmd@);
        }
        reveal_strlit("STATUS");
        reveal_strlit("HELP");
        assert("STATUS"@ != "HELP"@) by {
            assert("STATUS"@.len() != "HELP"@.len());
        }
    }
    if text_is(&cmd, "STATUS") {
        Some(Command::Status)
    } else if text_is(&cmd, "HELP") {
        Some(Command::Help)
    } else {
        None
    }
}

/// Decides what a first chunk is: `None` for print data, otherwise the
/// answer to the command or the request to ask the printer first.
pub fn handle_command(data: &[u8], printer_present: bool) -> (r: Option<CommandAction>)
    ensures
        match command_of(data@) {
            None => r is None,
            Some(Command::Help) => r matches Some(CommandAction::Answer(t)) && t@ == help_text(),
            Some(Command::Status) => if printer_present {
                r == Some(CommandAction::QueryPrinter)
            } else {
                r matches Some(CommandAction::Answer(t)) && t@ == no_printer_text()
            },
        },
        // Which short ASCII texts are commands: trimmed, `STATUS` or `HELP`
        // in any ASCII case.
        data@.len() <= COMMAND_WINDOW && valid_utf8(data@) && is_ascii_chars(decode_utf8(data@))
            ==> ((command_of(data@) == Some(Command::Status)) <==> eq_ignore_ascii_case(
            trim(decode_utf8(data@)),
            "STATUS"@,
        )) && ((command_of(data@) == Some(Command::Help)) <==> eq_ignore_ascii_case(
            trim(decode_utf8(data@)),
            "HELP"@,
        )),
{
    match parse_command(data) {
        None => None,
        Some(Command::Help) => Some(
            CommandAction::Answer(
                String::from_str(
                    "Commands:\n  STATUS - Get printer status\n  HELP   - Show this help\n  <data> - Send raw print data\n",
                ),
            ),
        ),
        Some(Command::Status) => {
            if printer_present {
                Some(CommandAction::QueryPrinter)
            } else {
                Some(CommandAction::Answer(String::from_str("STATUS: No printer connected\n")))
            }
        },
    }
}

/// The answer to `STATUS` for a printer of model `model`, given what its
/// status read gave: nothing when the read failed, else the raw frame.
pub open spec fn status_text(device: Device, read: Option<Seq<u8>>) -> Seq<char> {
    match read {
        None => "STATUS: Read failed\n"@,
        Some(raw) => if !has_magic(raw) {
            "STATUS: Unknown\n"@
        } else {
            let s = frame_status(raw, device.family());
            let errors = s.error_list();
            "STATUS: "@ + (if s.in_error() {
                "ERROR"@
            } else {
                "READY"@
            }) + "\nModel: "@ + device.name() + "\nMedia: "@ + s.media_text() + "\nError: "@ + (
            if errors.len() == 0 {
                "None"@
            } else {
                join(errors, ", "@)
            }) + "\n"@
        },
    }
}

/// The STATUS answer to a frame with the header is the frame read for the
/// device's own series: READY or ERROR by whether any error bit is set, the
/// model, the media, and on the Error line exactly the causes of that frame
/// for that series. So a QL printer reporting error 1 bit 0x02 is out of
/// labels ("end of media"), and a PT printer reporting error 1 bit 0x08 has
/// weak batteries.
pub proof fn lemma_status_answer_reads_own_series(device: Device, raw: Seq<u8>)
    requires
        has_magic(raw),
    ensures
        ({
            let s = frame_status(raw, device.family());
            let causes = s.error_list();
            &&& status_text(device, Some(raw)) == "STATUS: "@ + (if raw[8] != 0 || raw[9] != 0 {
                "ERROR"@
            } else {
                "READY"@
            }) + "\nModel: "@ + device.name() + "\nMedia: "@ + s.media_text() + "\nError: "@ + (
            if causes.len() == 0 {
                "None"@
            } else {
                join(causes, ", "@)
            }) + "\n"@
            &&& device.family() == Series::Ql && raw[8] & 0x02 != 0 ==> causes.contains("end of media"@)
            &&& device.family() == Series::Pt && raw[8] & 0x08 != 0 ==> causes.contains(
                "weak batteries"@,
            )
        }),
{
    let s = frame_status(raw, device.family());
    if device.family() == Series::Ql && raw[8] & 0x02 != 0 {
        lemma_named_bit_listed(s, false, 1);
    }
    if device.family() == Series::Pt && raw[8] & 0x08 != 0 {
        lemma_named_bit_listed(s, false, 2);
    }
}

/// The answer to `STATUS` once the printer has been asked.
pub fn status_answer(device: Device, read: Option<[u8; USB_READ_SIZE]>) -> (r: String)
    ensures
        r@ == status_text(
            device,
            match read {
                Some(raw) => Some(raw@),
                None => None,
            },
        ),
{
    let raw = match read {
        Some(raw) => raw,
        None => return String::from_str("STATUS: Read failed\n"),
    };
    let s = match Status::parse(raw, device.series()) {
        Some(s) => s,
        None => return String::from_str("STATUS: Unknown\n"),
    };
    let mut out = String::from_str("STATUS: ");
    if s.has_error() {
        out.append("ERROR");
    } else {
        out.append("READY");
    }
    out.append("\nModel: ");
    out.append(device.model_name());
    out.append("\nMedia: ");
    let media = s.media_description();
    out.append(media.as_str());
    out.append("\nError: ");
    let errors = s.errors();
    if errors.len() == 0 {
        out.append("None");
    } else {
        push_joined(&mut out, &errors, ", ");
    }
    out.append("\n");
    assert(out@ =~= status_text(device, Some(raw@)));
    out
}

/// A chunk longer than the command window is never a command: it is print
/// data, whatever it spells.
pub proof fn lemma_long_chunk_is_data(data: Seq<u8>)
    requires
        data.len() > COMMAND_WINDOW,
    ensures
        command_of(data) is None,
{
}

/// For ASCII text `t` with upper-case form `u`, `u` is `STATUS` or `HELP`
/// exactly when `t` equals that word ignoring ASCII case.
proof fn lemma_ascii_command(t: Seq<char>, u: Seq<char>)
    requires
        is_ascii_upper_of(u, t),
    ensures
        (u == "STATUS"@) <==> eq_ignore_ascii_case(t, "STATUS"@),
        (u == "HELP"@) <==> eq_ignore_ascii_case(t, "HELP"@),
{
    reveal_strlit("STATUS");
    reveal_strlit("HELP");
    let st = "STATUS"@;
    let hp = "HELP"@;
    if u == st {
        assert forall|i: int| 0 <= i < t.len() implies #[trigger] ascii_fold(t[i]) == ascii_fold(
            st[i],
        ) by {
            assert(u[i] as u32 == ascii_upper(t[i]));
        }
    }
    if eq_ignore_ascii_case(t, st) {
        assert forall|i: int| 0 <= i < u.len() implies u[i] == st[i] by {
            assert(ascii_fold(t[i]) == ascii_fold(st[i]));
            assert(u[i] as u32 == ascii_upper(t[i]));
            char_u32_cast(u[i], u[i] as u32);
            char_u32_cast(st[i], st[i] as u32);
        }
        assert(u =~= st);
    }
    if u == hp {
        assert forall|i: int| 0 <= i < t.len() implies #[trigger] ascii_fold(t[i]) == ascii_fold(
            hp[i],
        ) by {
            assert(u[i] as u32 == ascii_upper(t[i]));
        }
    }
    if eq_ignore_ascii_case(t, hp) {
        assert forall|i: int| 0 <= i < u.len() implies u[i] == hp[i] by {
            assert(ascii_fold(t[i]) == ascii_fold(hp[i]));
            assert(u[i] as u32 == ascii_upper(t[i]));
            char_u32_cast(u[i], u[i] as u32);
            char_u32_cast(hp[i], hp[i] as u32);
        }
        assert(u =~= hp);
    }
}

/// The trimmed form of ASCII text is ASCII.
proof fn lemma_trim_ascii(s: Seq<char>)
    requires
        is_ascii_chars(s),
    ensures
        is_ascii_chars(trim(s)),
{
    let (a, b) = lemma_trim_is_range(s);
    let t = trim(s);
    assert forall|i: int| 0 <= i < t.len() implies (#[trigger] t[i] as u32) < 128 by {
        assert(t[i] == s[a + i]);
    }
}

} // verus!
