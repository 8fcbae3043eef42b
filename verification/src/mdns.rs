//! What the mDNS/Bonjour advertisement of a printer says.
//!
//! The printer is announced as `_pdl-datastream._tcp` for automatic
//! discovery by macOS, iOS and other Bonjour-aware clients. The daemon that
//! sends the records is the program's; the names and TXT properties are
//! decided here.
use vstd::prelude::*;
use vstd::string::StringExecFns;
use crate::config::BROTHER_PDL;
use crate::device::{Capabilities, Device};
use crate::text::{
    ascii_upper, chars_of, is_ascii_upper_of, same_chars, string_of, to_uppercase, unicode_uppercase,
};
use vstd::utf8::is_ascii_chars;
use vstd::utf8::char_u32_cast;

verus! {

/// `s` without the characters `-` and `:`.
pub open spec fn without_separators(s: Seq<char>) -> Seq<char>
    decreases s.len(),
{
    if s.len() == 0 {
        seq![]
    } else if s.last() == '-' || s.last() == ':' {
        without_separators(s.drop_last())
    } else {
        without_separators(s.drop_last()).push(s.last())
    }
}

/// The host name used when none is configured: `BRN` and the serial number,
/// separators removed, upper-cased.
pub open spec fn default_hostname_text(serial: Seq<char>) -> Seq<char> {
    "BRN"@ + unicode_uppercase(without_separators(serial))
}

/// The host name a printer is advertised under: the configured one, else
/// one made from its serial number.
pub fn hostname(serial: &str, configured: Option<&str>) -> (r: String)
    ensures
        r@ == match configured {
            Some(h) => h@,
            None => default_hostname_text(serial@),
        },
        // An ASCII serial keeps every character but the separators, each
        // upper-cased, after `BRN`.
        configured is None && is_ascii_chars(serial@) ==> {
            &&& r@.len() == 3 + without_separators(serial@).len()
            &&& r@.take(3) == "BRN"@
            &&& is_ascii_upper_of(r@.skip(3), without_separators(serial@))
        },
        // In particular a serial of upper-case letters and digits is taken
        // whole.
        configured is None && (forall|i: int|
            0 <= i < serial@.len() ==> ('A' <= #[trigger] serial@[i] <= 'Z' || '0' <= serial@[i] <= '9'))
            ==> r@ == "BRN"@ + serial@,
{
    match configured {
        Some(h) => String::from_str(h),
        None => {
            let chars = chars_of(serial);
            let mut kept: Vec<char> = Vec::new();
            let n = chars.len();
            for i in 0..n
                invariant
                    n == chars.len(),
                    kept@ == without_separators(chars@.take(i as int)),
            {
                assert(chars@.take(i + 1).drop_last() =~= chars@.take(i as int));
                let c = chars[i];
                if c != '-' && c != ':' {
                    kept.push(c);
                }
            }
            assert(chars@.take(n as int) =~= chars@);
            let stripped = string_of(&kept);
            let upper = to_uppercase(stripped.as_str());
            let mut s = String::from_str("BRN");
            s.append(upper.as_str());
            proof {
                reveal_strlit("BRN");
                lemma_without_separators_from(serial@);
                assert(s@.take(3) =~= "BRN"@);
                assert(s@.skip(3) =~= upper@);
                if forall|i: int|
                    0 <= i < serial@.len() ==> ('A' <= #[trigger] serial@[i] <= 'Z' || '0' <= serial@[i]
                        <= '9') {
                    assert(is_ascii_chars(serial@)) by {
                        assert forall|i: int| 0 <= i < serial@.len() implies '\0' <= #[trigger] serial@[i]
                            <= '\u{7f}' by {
                            assert('A' <= serial@[i] <= 'Z' || '0' <= serial@[i] <= '9');
                        }
                    }
                    lemma_without_separators_keeps_the_rest(serial@);
                    assert(is_ascii_upper_of(upper@, serial@));
                    assert(upper@ =~= serial@) by {
                        assert forall|i: int| 0 <= i < serial@.len() implies upper@[i] == serial@[i] by {
                            let c = serial@[i];
                            assert('A' <= c <= 'Z' || '0' <= c <= '9');
                            assert((upper@[i] as u32) == ascii_upper(c));
                            assert(ascii_upper(c) == c as u32);
                            char_u32_cast(upper@[i], upper@[i] as u32);
                            char_u32_cast(c, c as u32);
                        }
                    }
                }
            }
            s
        },
    }
}

/// Every character kept by `without_separators` is a character of `s`.
proof fn lemma_without_separators_from(s: Seq<char>)
    ensures
        forall|k: int| 0 <= k < without_separators(s).len() ==> s.contains(
            #[trigger] without_separators(s)[k],
        ),
        is_ascii_chars(s) ==> is_ascii_chars(without_separators(s)),
    decreases s.len(),
{
    if s.len() > 0 {
        let t = s.drop_last();
        lemma_without_separators_from(t);
        let w = without_separators(s);
        assert forall|k: int| 0 <= k < w.len() implies s.contains(#[trigger] w[k]) by {
            if k < without_separators(t).len() {
                let j = choose|j: int| 0 <= j < t.len() && t[j] == without_separators(t)[k];
                assert(s[j] == t[j]);
            } else {
                assert(s[s.len() - 1] == w[k]);
            }
        }
        if is_ascii_chars(s) {
            assert forall|k: int| 0 <= k < w.len() implies '\0' <= #[trigger] w[k] <= '\u{7f}' by {
                assert(s.contains(w[k]));
            }
        }
    }
}

/// Dropping the separators of a string that has none leaves it whole:
/// nothing else is dropped, nothing is cut short.
pub proof fn lemma_without_separators_keeps_the_rest(s: Seq<char>)
    requires
        forall|i: int| 0 <= i < s.len() ==> #[trigger] s[i] != '-' && s[i] != ':',
    ensures
        without_separators(s) == s,
    decreases s.len(),
{
    if s.len() > 0 {
        let t = s.drop_last();
        assert forall|i: int| 0 <= i < t.len() implies #[trigger] t[i] != '-' && t[i] != ':' by {
            assert(t[i] == s[i]);
        }
        lemma_without_separators_keeps_the_rest(t);
        assert(s[s.len() - 1] != '-' && s[s.len() - 1] != ':');
        assert(t.push(s.last()) =~= s);
    }
}

/// The service instance name: `bups` and the model.
pub open spec fn service_name_text(device: Device) -> Seq<char> {
    "bups "@ + device.name()
}

/// The service instance name of a printer.
pub fn service_name(device: Device) -> (r: String)
    ensures
        r@ == service_name_text(device),
{
    let mut s = String::from_str("bups ");
    s.append(device.model_name());
    s
}

/// The fully qualified host name: the host name in `local.`.
pub fn host_fqdn(hostname: &str) -> (r: String)
    ensures
        r@ == hostname@ + ".local."@,
{
    let mut s = String::from_str(hostname);
    s.append(".local.");
    s
}

/// `T` when the capability flag is set, `F` when not.
pub open spec fn flag_text(caps: u8, flag: u8) -> Seq<char> {
    if caps & flag == flag {
        "T"@
    } else {
        "F"@
    }
}

/// The TXT record of a printer advertised under `hostname`, in order.
pub open spec fn txt_view(device: Device, hostname: Seq<char>) -> Seq<(Seq<char>, Seq<char>)> {
    let model = device.name();
    let caps = device.capability_bits();
    seq![
        ("txtvers"@, "1"@),
        ("qtotal"@, "1"@),
        ("pdl"@, BROTHER_PDL@),
        ("ty"@, model),
        ("product"@, "("@ + model + ")"@),
        ("adminurl"@, "http://"@ + hostname + ".local./"@),
        ("priority"@, "25"@),
        ("usb_MFG"@, "Brother"@),
        ("usb_MDL"@, model),
        ("Color"@, flag_text(caps, Capabilities::COLOR)),
        ("Copies"@, flag_text(caps, Capabilities::COPIES)),
        ("Duplex"@, flag_text(caps, Capabilities::DUPLEX)),
        ("PaperCustom"@, flag_text(caps, Capabilities::PAPER_CUSTOM)),
        ("Binary"@, flag_text(caps, Capabilities::BINARY)),
        ("Transparent"@, flag_text(caps, Capabilities::TRANSPARENT)),
        ("TBCP"@, flag_text(caps, Capabilities::TBCP)),
    ]
}

/// `txt` holds the property `key`, and every entry under `key` reads `value`.
pub open spec fn txt_says(txt: Seq<(Seq<char>, Seq<char>)>, key: Seq<char>, value: Seq<char>) -> bool {
    &&& exists|i: int| 0 <= i < txt.len() && #[trigger] txt[i].0 == key
    &&& forall|i: int| 0 <= i < txt.len() && #[trigger] txt[i].0 == key ==> txt[i].1 == value
}

/// `T` for yes, `F` for no.
pub open spec fn yes_no(b: bool) -> Seq<char> {
    if b {
        "T"@
    } else {
        "F"@
    }
}

/// Each capability property of a printer's TXT record reports its own flag:
/// `T` exactly when the device has it (Color 0x01, Copies 0x02, Duplex 0x04,
/// PaperCustom 0x08, Binary 0x10, Transparent 0x20, TBCP 0x40). Every device
/// has the default capabilities, so Binary and Transparent always read `T`.
pub proof fn lemma_txt_capability_flags(device: Device, hostname: Seq<char>)
    ensures
        ({
            let txt = txt_view(device, hostname);
            let caps = device.capability_bits();
            &&& txt_says(txt, "Color"@, yes_no(caps & 0x01 != 0))
            &&& txt_says(txt, "Copies"@, yes_no(caps & 0x02 != 0))
            &&& txt_says(txt, "Duplex"@, yes_no(caps & 0x04 != 0))
            &&& txt_says(txt, "PaperCustom"@, yes_no(caps & 0x08 != 0))
            &&& txt_says(txt, "Binary"@, yes_no(caps & 0x10 != 0))
            &&& txt_says(txt, "Transparent"@, yes_no(caps & 0x20 != 0))
            &&& txt_says(txt, "TBCP"@, yes_no(caps & 0x40 != 0))
            &&& txt_says(txt, "Binary"@, "T"@)
            &&& txt_says(txt, "Transparent"@, "T"@)
        }),
{
    reveal_strlit("txtvers");
    reveal_strlit("qtotal");
    reveal_strlit("pdl");
    reveal_strlit("ty");
    reveal_strlit("product");
    reveal_strlit("adminurl");
    reveal_strlit("priority");
    reveal_strlit("usb_MFG");
    reveal_strlit("usb_MDL");
    reveal_strlit("Color");
    reveal_strlit("Copies");
    reveal_strlit("Duplex");
    reveal_strlit("PaperCustom");
    reveal_strlit("Binary");
    reveal_strlit("Transparent");
    reveal_strlit("TBCP");
    let txt = txt_view(device, hostname);
    let caps = device.capability_bits();
    assert((0x30u8 | 0x01u8) == 0x31u8) by (bit_vector);
    assert(caps == 0x30 || caps == 0x31);
    assert((caps == 0x30 || caps == 0x31) ==> caps & 0x10 != 0 && caps & 0x20 != 0) by (bit_vector);
    assert({
        &&& (caps & 0x01 == 0x01) == (caps & 0x01 != 0)
        &&& (caps & 0x02 == 0x02) == (caps & 0x02 != 0)
        &&& (caps & 0x04 == 0x04) == (caps & 0x04 != 0)
        &&& (caps & 0x08 == 0x08) == (caps & 0x08 != 0)
        &&& (caps & 0x10 == 0x10) == (caps & 0x10 != 0)
        &&& (caps & 0x20 == 0x20) == (caps & 0x20 != 0)
        &&& (caps & 0x40 == 0x40) == (caps & 0x40 != 0)
    }) by (bit_vector);
    let keys = txt.map_values(|p: (Seq<char>, Seq<char>)| p.0);
    assert(keys =~= seq!["txtvers"@, "qtotal"@, "pdl"@, "ty"@, "product"@, "adminurl"@, "priority"@,
        "usb_MFG"@, "usb_MDL"@, "Color"@, "Copies"@, "Duplex"@, "PaperCustom"@, "Binary"@,
        "Transparent"@, "TBCP"@]);
    assert forall|i: int, j: int| 0 <= i < 16 && 0 <= j < 16 && i != j implies keys[i] != keys[j] by {
        if keys[i].len() == keys[j].len() {
            assert(keys[i][0] != keys[j][0] || keys[i][5] != keys[j][5]);
        }
    }
    assert(forall|i: int| 0 <= i < txt.len() ==> #[trigger] txt[i].0 == keys[i]);
    assert(txt[9].0 == "Color"@ && txt[10].0 == "Copies"@ && txt[11].0 == "Duplex"@);
    assert(txt[12].0 == "PaperCustom"@ && txt[13].0 == "Binary"@ && txt[14].0 == "Transparent"@);
    assert(txt[15].0 == "TBCP"@);
}

/// The view of key and value strings.
pub open spec fn pairs_view(v: Seq<(String, String)>) -> Seq<(Seq<char>, Seq<char>)> {
    v.map_values(|p: (String, String)| (p.0@, p.1@))
}

fn flag(caps: Capabilities, f: u8) -> (r: String)
    ensures
        r@ == flag_text(caps.bits, f),
{
    if caps.contains(f) {
        String::from_str("T")
    } else {
        String::from_str("F")
    }
}

fn pair(k: &str, v: String) -> (r: (String, String))
    ensures
        r.0@ == k@,
        r.1@ == v@,
{
    (String::from_str(k), v)
}

/// The TXT record properties of a printer advertised under `hostname`.
pub fn txt_properties(device: Device, hostname: &str) -> (r: Vec<(String, String)>)
    ensures
        pairs_view(r@) == txt_view(device, hostname@),
{
    let model = device.model_name();
    let caps = device.capabilities();
    let mut product = String::from_str("(");
    product.append(model);
    product.append(")");
    let mut adminurl = String::from_str("http://");
    adminurl.append(hostname);
    adminurl.append(".local./");
    let mut v: Vec<(String, String)> = Vec::new();
    v.push(pair("txtvers", String::from_str("1")));
    v.push(pair("qtotal", String::from_str("1")));
    v.push(pair("pdl", String::from_str(BROTHER_PDL)));
    v.push(pair("ty", String::from_str(model)));
    v.push(pair("product", product));
    v.push(pair("adminurl", adminurl));
    v.push(pair("priority", String::from_str("25")));
    v.push(pair("usb_MFG", String::from_str("Brother")));
    v.push(pair("usb_MDL", String::from_str(model)));
    v.push(pair("Color", flag(caps, Capabilities::COLOR)));
    v.push(pair("Copies", flag(caps, Capabilities::COPIES)));
    v.push(pair("Duplex", flag(caps, Capabilities::DUPLEX)));
    v.push(pair("PaperCustom", flag(caps, Capabilities::PAPER_CUSTOM)));
    v.push(pair("Binary", flag(caps, Capabilities::BINARY)));
    v.push(pair("Transparent", flag(caps, Capabilities::TRANSPARENT)));
    v.push(pair("TBCP", flag(caps, Capabilities::TBCP)));
    assert(pairs_view(v@) =~= txt_view(device, hostname@));
    v
}

/// The view of the printer the advertisement is for.
pub open spec fn advertised_view(p: Option<(Device, String)>) -> Option<(Device, Seq<char>)> {
    match p {
        Some((d, s)) => Some((d, s@)),
        None => None,
    }
}

/// Whether the advertisement has to change: the printer it is for differs
/// from the one now connected (or one of them is none).
pub fn readvertise(current: &Option<(Device, String)>, next: &Option<(Device, String)>) -> (r:
    bool)
    ensures
        r == (advertised_view(*current) != advertised_view(*next)),
{
    match (current, next) {
        (None, None) => false,
        (Some((d1, s1)), Some((d2, s2))) => {
            let same_device = *d1 == *d2;
            let same_serial = same_chars(&chars_of(s1.as_str()), &chars_of(s2.as_str()));
            !(same_device && same_serial)
        },
        _ => true,
    }
}

} // verus!
