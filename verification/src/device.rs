//! The supported Brother PT/QL label printers.
//!
//! Product IDs come from <http://www.linux-usb.org/usb.ids>. Every lookup
//! below is a match over the same list of devices; the laws here and in
//! `names` show that product IDs and model names tell the devices apart.
use vstd::prelude::*;
use crate::text::{
    ascii_fold, chars_of, char_views, eq_ignore_ascii_case, find_from, lemma_first_index,
    same_ignoring_ascii_case, slice_chars, split, split_chars, split_once, trim, trimmed,
};

verus! {

/// Printer family.
///
/// The two families share the 32-byte status frame but assign several fields
/// different meanings, so status parsing has to know which one it reads.
#[derive(Copy, Clone, Debug, PartialEq, Eq, Structural)]
pub enum Series {
    /// `P-touch`, `TZe` tape.
    Pt,
    /// `QL`, continuous tape and die-cut labels.
    Ql,
}

/// Printer capabilities advertised via mDNS TXT records, one bit each.
///
/// The flags are the associated constants; a set of them is their bitwise or.
#[derive(Copy, Clone, Debug, PartialEq, Eq, Structural)]
pub struct Capabilities {
    pub bits: u8,
}

impl Capabilities {
    pub const COLOR: u8 = 0b0000_0001;
    pub const COPIES: u8 = 0b0000_0010;
    pub const DUPLEX: u8 = 0b0000_0100;
    pub const PAPER_CUSTOM: u8 = 0b0000_1000;
    pub const BINARY: u8 = 0b0001_0000;
    pub const TRANSPARENT: u8 = 0b0010_0000;
    pub const TBCP: u8 = 0b0100_0000;

    /// Every flag in `flags` is set in `self`.
    pub open spec fn has(self, flags: u8) -> bool {
        self.bits & flags == flags
    }

    /// `true` when every flag in `flags` is set.
    pub fn contains(self, flags: u8) -> (r: bool)
        ensures
            r == self.has(flags),
    {
        self.bits & flags == flags
    }

    /// The flags of `self` together with `flags`.
    pub fn union(self, flags: u8) -> (r: Capabilities)
        ensures
            r.bits == self.bits | flags,
    {
        Capabilities { bits: self.bits | flags }
    }
}

/// Default capabilities shared by all current Brother label printers.
pub const DEFAULT_CAPS: u8 = 0b0011_0000;

/// Supported Brother printer devices.
#[derive(Copy, Clone, Debug, PartialEq, Eq, Structural)]
pub enum Device {
    Pt18R,
    Pt1230Pc,
    Pt2300,
    Pt2420Pc,
    Pt2430Pc,
    Pt2730,
    Pt7600,
    PtD600,
    PtE550W,
    PtP700,
    PtP750W,
    PtP900,
    Ql500,
    Ql550,
    Ql560,
    Ql570,
    Ql600,
    Ql650Td,
    Ql700,
    Ql710W,
    Ql720NW,
    Ql800,
    Ql810W,
    Ql820NWB,
    Ql1050,
    Ql1060N,
    Ql1100,
    Ql1110NWB,
    Ql1115NWB,
}

impl Device {
    /// The USB product ID of the device.
    pub open spec fn pid(self) -> u16 {
        match self {
            Device::Pt18R => 0x201a,
            Device::Pt1230Pc => 0x202c,
            Device::Pt2300 => 0x2004,
            Device::Pt2420Pc => 0x2007,
            Device::Pt2430Pc => 0x202d,
            Device::Pt2730 => 0x2041,
            Device::Pt7600 => 0x202b,
            Device::PtD600 => 0x2074,
            Device::PtE550W => 0x2060,
            Device::PtP700 => 0x2061,
            Device::PtP750W => 0x2065,
            Device::PtP900 => 0x208e,
            Device::Ql500 => 0x2015,
            Device::Ql550 => 0x2016,
            Device::Ql560 => 0x2027,
            Device::Ql570 => 0x2028,
            Device::Ql600 => 0x20c0,
            Device::Ql650Td => 0x201b,
            Device::Ql700 => 0x2042,
            Device::Ql710W => 0x2043,
            Device::Ql720NW => 0x2044,
            Device::Ql800 => 0x209b,
            Device::Ql810W => 0x209c,
            Device::Ql820NWB => 0x209d,
            Device::Ql1050 => 0x2020,
            Device::Ql1060N => 0x202a,
            Device::Ql1100 => 0x20a7,
            Device::Ql1110NWB => 0x20a8,
            Device::Ql1115NWB => 0x20ab,
        }
    }

    /// The model name, as advertised.
    pub open spec fn name(self) -> Seq<char> {
        match self {
            Device::Pt18R => "PT-18R"@,
            Device::Pt1230Pc => "PT-1230PC"@,
            Device::Pt2300 => "PT-2300/2310"@,
            Device::Pt2420Pc => "PT-2420PC"@,
            Device::Pt2430Pc => "PT-2430PC"@,
            Device::Pt2730 => "PT-2730"@,
            Device::Pt7600 => "PT-7600"@,
            Device::PtD600 => "PT-D600"@,
            Device::PtE550W => "PT-E550W"@,
            Device::PtP700 => "PT-P700"@,
            Device::PtP750W => "PT-P750W"@,
            Device::PtP900 => "PT-P900"@,
            Device::Ql500 => "QL-500"@,
            Device::Ql550 => "QL-550"@,
            Device::Ql560 => "QL-560"@,
            Device::Ql570 => "QL-570"@,
            Device::Ql600 => "QL-600"@,
            Device::Ql650Td => "QL-650TD"@,
            Device::Ql700 => "QL-700"@,
            Device::Ql710W => "QL-710W"@,
            Device::Ql720NW => "QL-720NW"@,
            Device::Ql800 => "QL-800"@,
            Device::Ql810W => "QL-810W"@,
            Device::Ql820NWB => "QL-820NWB"@,
            Device::Ql1050 => "QL-1050"@,
            Device::Ql1060N => "QL-1060N"@,
            Device::Ql1100 => "QL-1100"@,
            Device::Ql1110NWB => "QL-1110NWB"@,
            Device::Ql1115NWB => "QL-1115NWB"@,
        }
    }

    /// The printer family.
    pub open spec fn family(self) -> Series {
        match self {
            Device::Pt18R => Series::Pt,
            Device::Pt1230Pc => Series::Pt,
            Device::Pt2300 => Series::Pt,
            Device::Pt2420Pc => Series::Pt,
            Device::Pt2430Pc => Series::Pt,
            Device::Pt2730 => Series::Pt,
            Device::Pt7600 => Series::Pt,
            Device::PtD600 => Series::Pt,
            Device::PtE550W => Series::Pt,
            Device::PtP700 => Series::Pt,
            Device::PtP750W => Series::Pt,
            Device::PtP900 => Series::Pt,
            Device::Ql500 => Series::Ql,
            Device::Ql550 => Series::Ql,
            Device::Ql560 => Series::Ql,
            Device::Ql570 => Series::Ql,
            Device::Ql600 => Series::Ql,
            Device::Ql650Td => Series::Ql,
            Device::Ql700 => Series::Ql,
            Device::Ql710W => Series::Ql,
            Device::Ql720NW => Series::Ql,
            Device::Ql800 => Series::Ql,
            Device::Ql810W => Series::Ql,
            Device::Ql820NWB => Series::Ql,
            Device::Ql1050 => Series::Ql,
            Device::Ql1060N => Series::Ql,
            Device::Ql1100 => Series::Ql,
            Device::Ql1110NWB => Series::Ql,
            Device::Ql1115NWB => Series::Ql,
        }
    }

    /// The capability flags advertised for the device.
    pub open spec fn capability_bits(self) -> u8 {
        match self {
            Device::Pt18R => DEFAULT_CAPS,
            Device::Pt1230Pc => DEFAULT_CAPS,
            Device::Pt2300 => DEFAULT_CAPS,
            Device::Pt2420Pc => DEFAULT_CAPS,
            Device::Pt2430Pc => DEFAULT_CAPS,
            Device::Pt2730 => DEFAULT_CAPS,
            Device::Pt7600 => DEFAULT_CAPS,
            Device::PtD600 => DEFAULT_CAPS,
            Device::PtE550W => DEFAULT_CAPS,
            Device::PtP700 => DEFAULT_CAPS,
            Device::PtP750W => DEFAULT_CAPS,
            Device::PtP900 => DEFAULT_CAPS,
            Device::Ql500 => DEFAULT_CAPS,
            Device::Ql550 => DEFAULT_CAPS,
            Device::Ql560 => DEFAULT_CAPS,
            Device::Ql570 => DEFAULT_CAPS,
            Device::Ql600 => DEFAULT_CAPS,
            Device::Ql650Td => DEFAULT_CAPS,
            Device::Ql700 => DEFAULT_CAPS,
            Device::Ql710W => DEFAULT_CAPS,
            Device::Ql720NW => DEFAULT_CAPS,
            Device::Ql800 => DEFAULT_CAPS | Capabilities::COLOR,
            Device::Ql810W => DEFAULT_CAPS | Capabilities::COLOR,
            Device::Ql820NWB => DEFAULT_CAPS | Capabilities::COLOR,
            Device::Ql1050 => DEFAULT_CAPS,
            Device::Ql1060N => DEFAULT_CAPS,
            Device::Ql1100 => DEFAULT_CAPS,
            Device::Ql1110NWB => DEFAULT_CAPS,
            Device::Ql1115NWB => DEFAULT_CAPS,
        }
    }

    /// The device declared with product ID `pid`, if any.
    pub open spec fn with_pid(pid: u16) -> Option<Device> {
        if exists|d: Device| #[trigger] d.pid() == pid {
            Some(choose|d: Device| #[trigger] d.pid() == pid)
        } else {
            None
        }
    }

    /// Look up the device from its USB product ID.
    pub fn from_pid(pid: u16) -> (r: Option<Device>)
        ensures
            r == Device::with_pid(pid),
            match r {
                Some(d) => d.pid() == pid,
                None => forall|d: Device| #[trigger] d.pid() != pid,
            },
    {
        let r = match pid {
            0x201a => Some(Device::Pt18R),
            0x202c => Some(Device::Pt1230Pc),
            0x2004 => Some(Device::Pt2300),
            0x2007 => Some(Device::Pt2420Pc),
            0x202d => Some(Device::Pt2430Pc),
            0x2041 => Some(Device::Pt2730),
            0x202b => Some(Device::Pt7600),
            0x2074 => Some(Device::PtD600),
            0x2060 => Some(Device::PtE550W),
            0x2061 => Some(Device::PtP700),
            0x2065 => Some(Device::PtP750W),
            0x208e => Some(Device::PtP900),
            0x2015 => Some(Device::Ql500),
            0x2016 => Some(Device::Ql550),
            0x2027 => Some(Device::Ql560),
            0x2028 => Some(Device::Ql570),
            0x20c0 => Some(Device::Ql600),
            0x201b => Some(Device::Ql650Td),
            0x2042 => Some(Device::Ql700),
            0x2043 => Some(Device::Ql710W),
            0x2044 => Some(Device::Ql720NW),
            0x209b => Some(Device::Ql800),
            0x209c => Some(Device::Ql810W),
            0x209d => Some(Device::Ql820NWB),
            0x2020 => Some(Device::Ql1050),
            0x202a => Some(Device::Ql1060N),
            0x20a7 => Some(Device::Ql1100),
            0x20a8 => Some(Device::Ql1110NWB),
            0x20ab => Some(Device::Ql1115NWB),
            _ => None,
        };
        proof {
            lemma_product_ids_distinct();
            if let Some(d) = r {
                assert(d.pid() == pid);
            }
        }
        r
    }

    /// The product ID this device is declared with.
    pub fn product_id(self) -> (r: u16)
        ensures
            r == self.pid(),
    {
        match self {
            Device::Pt18R => 0x201a,
            Device::Pt1230Pc => 0x202c,
            Device::Pt2300 => 0x2004,
            Device::Pt2420Pc => 0x2007,
            Device::Pt2430Pc => 0x202d,
            Device::Pt2730 => 0x2041,
            Device::Pt7600 => 0x202b,
            Device::PtD600 => 0x2074,
            Device::PtE550W => 0x2060,
            Device::PtP700 => 0x2061,
            Device::PtP750W => 0x2065,
            Device::PtP900 => 0x208e,
            Device::Ql500 => 0x2015,
            Device::Ql550 => 0x2016,
            Device::Ql560 => 0x2027,
            Device::Ql570 => 0x2028,
            Device::Ql600 => 0x20c0,
            Device::Ql650Td => 0x201b,
            Device::Ql700 => 0x2042,
            Device::Ql710W => 0x2043,
            Device::Ql720NW => 0x2044,
            Device::Ql800 => 0x209b,
            Device::Ql810W => 0x209c,
            Device::Ql820NWB => 0x209d,
            Device::Ql1050 => 0x2020,
            Device::Ql1060N => 0x202a,
            Device::Ql1100 => 0x20a7,
            Device::Ql1110NWB => 0x20a8,
            Device::Ql1115NWB => 0x20ab,
        }
    }

    /// Human-readable model name.
    pub fn model_name(self) -> (r: &'static str)
        ensures
            r@ == self.name(),
    {
        match self {
            Device::Pt18R => "PT-18R",
            Device::Pt1230Pc => "PT-1230PC",
            Device::Pt2300 => "PT-2300/2310",
            Device::Pt2420Pc => "PT-2420PC",
            Device::Pt2430Pc => "PT-2430PC",
            Device::Pt2730 => "PT-2730",
            Device::Pt7600 => "PT-7600",
            Device::PtD600 => "PT-D600",
            Device::PtE550W => "PT-E550W",
            Device::PtP700 => "PT-P700",
            Device::PtP750W => "PT-P750W",
            Device::PtP900 => "PT-P900",
            Device::Ql500 => "QL-500",
            Device::Ql550 => "QL-550",
            Device::Ql560 => "QL-560",
            Device::Ql570 => "QL-570",
            Device::Ql600 => "QL-600",
            Device::Ql650Td => "QL-650TD",
            Device::Ql700 => "QL-700",
            Device::Ql710W => "QL-710W",
            Device::Ql720NW => "QL-720NW",
            Device::Ql800 => "QL-800",
            Device::Ql810W => "QL-810W",
            Device::Ql820NWB => "QL-820NWB",
            Device::Ql1050 => "QL-1050",
            Device::Ql1060N => "QL-1060N",
            Device::Ql1100 => "QL-1100",
            Device::Ql1110NWB => "QL-1110NWB",
            Device::Ql1115NWB => "QL-1115NWB",
        }
    }

    /// Capabilities for mDNS advertisement.
    pub fn capabilities(self) -> (r: Capabilities)
        ensures
            r.bits == self.capability_bits(),
    {
        match self {
            Device::Pt18R => Capabilities { bits: DEFAULT_CAPS },
            Device::Pt1230Pc => Capabilities { bits: DEFAULT_CAPS },
            Device::Pt2300 => Capabilities { bits: DEFAULT_CAPS },
            Device::Pt2420Pc => Capabilities { bits: DEFAULT_CAPS },
            Device::Pt2430Pc => Capabilities { bits: DEFAULT_CAPS },
            Device::Pt2730 => Capabilities { bits: DEFAULT_CAPS },
            Device::Pt7600 => Capabilities { bits: DEFAULT_CAPS },
            Device::PtD600 => Capabilities { bits: DEFAULT_CAPS },
            Device::PtE550W => Capabilities { bits: DEFAULT_CAPS },
            Device::PtP700 => Capabilities { bits: DEFAULT_CAPS },
            Device::PtP750W => Capabilities { bits: DEFAULT_CAPS },
            Device::PtP900 => Capabilities { bits: DEFAULT_CAPS },
            Device::Ql500 => Capabilities { bits: DEFAULT_CAPS },
            Device::Ql550 => Capabilities { bits: DEFAULT_CAPS },
            Device::Ql560 => Capabilities { bits: DEFAULT_CAPS },
            Device::Ql570 => Capabilities { bits: DEFAULT_CAPS },
            Device::Ql600 => Capabilities { bits: DEFAULT_CAPS },
            Device::Ql650Td => Capabilities { bits: DEFAULT_CAPS },
            Device::Ql700 => Capabilities { bits: DEFAULT_CAPS },
            Device::Ql710W => Capabilities { bits: DEFAULT_CAPS },
            Device::Ql720NW => Capabilities { bits: DEFAULT_CAPS },
            Device::Ql800 => Capabilities { bits: DEFAULT_CAPS | Capabilities::COLOR },
            Device::Ql810W => Capabilities { bits: DEFAULT_CAPS | Capabilities::COLOR },
            Device::Ql820NWB => Capabilities { bits: DEFAULT_CAPS | Capabilities::COLOR },
            Device::Ql1050 => Capabilities { bits: DEFAULT_CAPS },
            Device::Ql1060N => Capabilities { bits: DEFAULT_CAPS },
            Device::Ql1100 => Capabilities { bits: DEFAULT_CAPS },
            Device::Ql1110NWB => Capabilities { bits: DEFAULT_CAPS },
            Device::Ql1115NWB => Capabilities { bits: DEFAULT_CAPS },
        }
    }

    /// Printer family, which decides how the status frame is read.
    pub fn series(self) -> (r: Series)
        ensures
            r == self.family(),
    {
        match self {
            Device::Pt18R => Series::Pt,
            Device::Pt1230Pc => Series::Pt,
            Device::Pt2300 => Series::Pt,
            Device::Pt2420Pc => Series::Pt,
            Device::Pt2430Pc => Series::Pt,
            Device::Pt2730 => Series::Pt,
            Device::Pt7600 => Series::Pt,
            Device::PtD600 => Series::Pt,
            Device::PtE550W => Series::Pt,
            Device::PtP700 => Series::Pt,
            Device::PtP750W => Series::Pt,
            Device::PtP900 => Series::Pt,
            Device::Ql500 => Series::Ql,
            Device::Ql550 => Series::Ql,
            Device::Ql560 => Series::Ql,
            Device::Ql570 => Series::Ql,
            Device::Ql600 => Series::Ql,
            Device::Ql650Td => Series::Ql,
            Device::Ql700 => Series::Ql,
            Device::Ql710W => Series::Ql,
            Device::Ql720NW => Series::Ql,
            Device::Ql800 => Series::Ql,
            Device::Ql810W => Series::Ql,
            Device::Ql820NWB => Series::Ql,
            Device::Ql1050 => Series::Ql,
            Device::Ql1060N => Series::Ql,
            Device::Ql1100 => Series::Ql,
            Device::Ql1110NWB => Series::Ql,
            Device::Ql1115NWB => Series::Ql,
        }
    }
}

/// No two devices are declared with the same product ID, so a product ID
/// identifies at most one device.
pub proof fn lemma_product_ids_distinct()
    ensures
        forall|a: Device, b: Device| #[trigger] a.pid() == #[trigger] b.pid() ==> a == b,
{
    assert forall|a: Device, b: Device| #[trigger] a.pid() == #[trigger] b.pid() implies a == b by {
        match a {
            Device::Pt18R => {},
            Device::Pt1230Pc => {},
            Device::Pt2300 => {},
            Device::Pt2420Pc => {},
            Device::Pt2430Pc => {},
            Device::Pt2730 => {},
            Device::Pt7600 => {},
            Device::PtD600 => {},
            Device::PtE550W => {},
            Device::PtP700 => {},
            Device::PtP750W => {},
            Device::PtP900 => {},
            Device::Ql500 => {},
            Device::Ql550 => {},
            Device::Ql560 => {},
            Device::Ql570 => {},
            Device::Ql600 => {},
            Device::Ql650Td => {},
            Device::Ql700 => {},
            Device::Ql710W => {},
            Device::Ql720NW => {},
            Device::Ql800 => {},
            Device::Ql810W => {},
            Device::Ql820NWB => {},
            Device::Ql1050 => {},
            Device::Ql1060N => {},
            Device::Ql1100 => {},
            Device::Ql1110NWB => {},
            Device::Ql1115NWB => {},
        }
    }
}

/// The family prefix of a model name: what precedes its first `-`.
pub open spec fn model_prefix(full: Seq<char>) -> Seq<char> {
    match split_once(full, '-') {
        Some((p, _)) => p,
        None => seq![],
    }
}

/// Part `i` of a model name with the family prefix put back: `2310` of
/// `PT-2300/2310` reads `PT-2310`. The first part carries it already.
pub open spec fn qualified(prefix: Seq<char>, i: int, part: Seq<char>) -> Seq<char> {
    if i == 0 || prefix.len() == 0 {
        part
    } else {
        prefix + seq!['-'] + part
    }
}

/// `q` names part `i` of a model name: the part as written, the part with
/// its family prefix, or its bare number after the prefix.
pub open spec fn part_matches(prefix: Seq<char>, i: int, part: Seq<char>, q: Seq<char>) -> bool {
    let full = qualified(prefix, i, part);
    ||| eq_ignore_ascii_case(part, q)
    ||| eq_ignore_ascii_case(full, q)
    ||| match split_once(full, '-') {
        Some((_, bare)) => eq_ignore_ascii_case(bare, q),
        None => false,
    }
}

/// `query` names the model `full`: once trimmed it is not empty and equals,
/// ignoring ASCII case, the whole name or one of its slash-separated parts,
/// with or without the family prefix.
pub open spec fn name_matches(full: Seq<char>, query: Seq<char>) -> bool {
    let q = trim(query);
    let parts = split(full, '/');
    &&& q.len() > 0
    &&& (eq_ignore_ascii_case(full, q) || exists|i: int|
        0 <= i < parts.len() && #[trigger] part_matches(model_prefix(full), i, parts[i], q))
}

/// The characters of `v` before its first `c`, and those after it.
fn split_once_chars(v: &Vec<char>, c: char) -> (r: Option<(Vec<char>, Vec<char>)>)
    ensures
        match r {
            Some((a, b)) => split_once(v@, c) == Some((a@, b@)),
            None => split_once(v@, c) is None,
        },
{
    let k = find_from(v, c, 0);
    assert(v@.skip(0) =~= v@);
    proof {
        lemma_first_index(v@, c);
    }
    if k < v.len() {
        let a = slice_chars(v, 0, k);
        let b = slice_chars(v, k + 1, v.len());
        assert(a@ =~= v@.take(k as int));
        assert(b@ =~= v@.skip(k + 1));
        Some((a, b))
    } else {
        None
    }
}

fn part_matches_exec(prefix: &Vec<char>, i: usize, part: &Vec<char>, q: &Vec<char>) -> (r: bool)
    ensures
        r == part_matches(prefix@, i as int, part@, q@),
{
    if same_ignoring_ascii_case(part, q) {
        return true;
    }
    let mut full: Vec<char> = Vec::new();
    if i == 0 || prefix.len() == 0 {
        full = slice_chars(part, 0, part.len());
    } else {
        full = slice_chars(prefix, 0, prefix.len());
        full.push('-');
        let mut k: usize = 0;
        while k < part.len()
            invariant
                k <= part.len(),
                full@ == prefix@ + seq!['-'] + part@.take(k as int),
            decreases part.len() - k,
        {
            full.push(part[k]);
            k = k + 1;
            assert(full@ =~= prefix@ + seq!['-'] + part@.take(k as int));
        }
    }
    assert(full@ =~= qualified(prefix@, i as int, part@));
    if same_ignoring_ascii_case(&full, q) {
        return true;
    }
    match split_once_chars(&full, '-') {
        Some((_, bare)) => same_ignoring_ascii_case(&bare, q),
        None => false,
    }
}

impl Device {
    /// Does `query` name this device?
    ///
    /// A model name may cover more than one marketing name, as
    /// `PT-2300/2310` does, so each slash-separated part counts on its own.
    /// The `PT-` or `QL-` prefix is optional, because people write
    /// `--model 2300`.
    pub fn matches(self, query: &str) -> (r: bool)
        ensures
            r == name_matches(self.name(), query@),
    {
        let q = trimmed(&chars_of(query));
        if q.len() == 0 {
            return false;
        }
        let full = chars_of(self.model_name());
        if same_ignoring_ascii_case(&full, &q) {
            return true;
        }
        let prefix = match split_once_chars(&full, '-') {
            Some((p, _)) => p,
            None => Vec::new(),
        };
        assert(prefix@ =~= model_prefix(full@));
        let parts = split_chars(&full, '/');
        let n = parts.len();
        for i in 0..n
            invariant
                n == parts.len(),
                q@ == trim(query@),
                q@.len() > 0,
                full@ == self.name(),
                char_views(parts@) == split(full@, '/'),
                prefix@ == model_prefix(full@),
                forall|j: int|
                    0 <= j < i ==> !#[trigger] part_matches(
                        model_prefix(full@),
                        j,
                        split(full@, '/')[j],
                        q@,
                    ),
        {
            assert(parts@[i as int]@ == split(full@, '/')[i as int]);
            if part_matches_exec(&prefix, i, &parts[i], &q) {
                assert(part_matches(model_prefix(full@), i as int, split(full@, '/')[i as int], q@));
                return true;
            }
        }
        false
    }
}

/// The family follows the model name: exactly the `QL-` models are QL.
pub proof fn lemma_series_follows_name(d: Device)
    ensures
        (d.family() == Series::Ql) <==> d.name().take(3) == "QL-"@,
{
    reveal_strlit("QL-");
    match d {
            Device::Pt18R => {
                reveal_strlit("PT-18R");
                assert(d.name().take(3)[0] != "QL-"@[0]);
            },
            Device::Pt1230Pc => {
                reveal_strlit("PT-1230PC");
                assert(d.name().take(3)[0] != "QL-"@[0]);
            },
            Device::Pt2300 => {
                reveal_strlit("PT-2300/2310");
                assert(d.name().take(3)[0] != "QL-"@[0]);
            },
            Device::Pt2420Pc => {
                reveal_strlit("PT-2420PC");
                assert(d.name().take(3)[0] != "QL-"@[0]);
            },
            Device::Pt2430Pc => {
                reveal_strlit("PT-2430PC");
                assert(d.name().take(3)[0] != "QL-"@[0]);
            },
            Device::Pt2730 => {
                reveal_strlit("PT-2730");
                assert(d.name().take(3)[0] != "QL-"@[0]);
            },
            Device::Pt7600 => {
                reveal_strlit("PT-7600");
                assert(d.name().take(3)[0] != "QL-"@[0]);
            },
            Device::PtD600 => {
                reveal_strlit("PT-D600");
                assert(d.name().take(3)[0] != "QL-"@[0]);
            },
            Device::PtE550W => {
                reveal_strlit("PT-E550W");
                assert(d.name().take(3)[0] != "QL-"@[0]);
            },
            Device::PtP700 => {
                reveal_strlit("PT-P700");
                assert(d.name().take(3)[0] != "QL-"@[0]);
            },
            Device::PtP750W => {
                reveal_strlit("PT-P750W");
                assert(d.name().take(3)[0] != "QL-"@[0]);
            },
            Device::PtP900 => {
                reveal_strlit("PT-P900");
                assert(d.name().take(3)[0] != "QL-"@[0]);
            },
            Device::Ql500 => {
                reveal_strlit("QL-500");
                assert(d.name().take(3) =~= "QL-"@);
            },
            Device::Ql550 => {
                reveal_strlit("QL-550");
                assert(d.name().take(3) =~= "QL-"@);
            },
            Device::Ql560 => {
                reveal_strlit("QL-560");
                assert(d.name().take(3) =~= "QL-"@);
            },
            Device::Ql570 => {
                reveal_strlit("QL-570");
                assert(d.name().take(3) =~= "QL-"@);
            },
            Device::Ql600 => {
                reveal_strlit("QL-600");
                assert(d.name().take(3) =~= "QL-"@);
            },
            Device::Ql650Td => {
                reveal_strlit("QL-650TD");
                assert(d.name().take(3) =~= "QL-"@);
            },
            Device::Ql700 => {
                reveal_strlit("QL-700");
                assert(d.name().take(3) =~= "QL-"@);
            },
            Device::Ql710W => {
                reveal_strlit("QL-710W");
                assert(d.name().take(3) =~= "QL-"@);
            },
            Device::Ql720NW => {
                reveal_strlit("QL-720NW");
                assert(d.name().take(3) =~= "QL-"@);
            },
            Device::Ql800 => {
                reveal_strlit("QL-800");
                assert(d.name().take(3) =~= "QL-"@);
            },
            Device::Ql810W => {
                reveal_strlit("QL-810W");
                assert(d.name().take(3) =~= "QL-"@);
            },
            Device::Ql820NWB => {
                reveal_strlit("QL-820NWB");
                assert(d.name().take(3) =~= "QL-"@);
            },
            Device::Ql1050 => {
                reveal_strlit("QL-1050");
                assert(d.name().take(3) =~= "QL-"@);
            },
            Device::Ql1060N => {
                reveal_strlit("QL-1060N");
                assert(d.name().take(3) =~= "QL-"@);
            },
            Device::Ql1100 => {
                reveal_strlit("QL-1100");
                assert(d.name().take(3) =~= "QL-"@);
            },
            Device::Ql1110NWB => {
                reveal_strlit("QL-1110NWB");
                assert(d.name().take(3) =~= "QL-"@);
            },
            Device::Ql1115NWB => {
                reveal_strlit("QL-1115NWB");
                assert(d.name().take(3) =~= "QL-"@);
            },
    }
}

/// A product ID looks up the device declared with it: every device is found
/// again from its own product ID.
pub proof fn lemma_pid_round_trip(d: Device)
    ensures
        Device::with_pid(d.pid()) == Some(d),
{
    lemma_product_ids_distinct();
    assert(exists|x: Device| #[trigger] x.pid() == d.pid());
}

/// The product-ID table as documented: each listed USB product ID looks up
/// its model, and no other product ID names a device.
pub proof fn lemma_documented_product_ids()
    ensures
        Device::with_pid(0x201a) == Some(Device::Pt18R),
        Device::with_pid(0x202c) == Some(Device::Pt1230Pc),
        Device::with_pid(0x2004) == Some(Device::Pt2300),
        Device::with_pid(0x2007) == Some(Device::Pt2420Pc),
        Device::with_pid(0x202d) == Some(Device::Pt2430Pc),
        Device::with_pid(0x2041) == Some(Device::Pt2730),
        Device::with_pid(0x202b) == Some(Device::Pt7600),
        Device::with_pid(0x2074) == Some(Device::PtD600),
        Device::with_pid(0x2060) == Some(Device::PtE550W),
        Device::with_pid(0x2061) == Some(Device::PtP700),
        Device::with_pid(0x2065) == Some(Device::PtP750W),
        Device::with_pid(0x208e) == Some(Device::PtP900),
        Device::with_pid(0x2015) == Some(Device::Ql500),
        Device::with_pid(0x2016) == Some(Device::Ql550),
        Device::with_pid(0x2027) == Some(Device::Ql560),
        Device::with_pid(0x2028) == Some(Device::Ql570),
        Device::with_pid(0x20c0) == Some(Device::Ql600),
        Device::with_pid(0x201b) == Some(Device::Ql650Td),
        Device::with_pid(0x2042) == Some(Device::Ql700),
        Device::with_pid(0x2043) == Some(Device::Ql710W),
        Device::with_pid(0x2044) == Some(Device::Ql720NW),
        Device::with_pid(0x209b) == Some(Device::Ql800),
        Device::with_pid(0x209c) == Some(Device::Ql810W),
        Device::with_pid(0x209d) == Some(Device::Ql820NWB),
        Device::with_pid(0x2020) == Some(Device::Ql1050),
        Device::with_pid(0x202a) == Some(Device::Ql1060N),
        Device::with_pid(0x20a7) == Some(Device::Ql1100),
        Device::with_pid(0x20a8) == Some(Device::Ql1110NWB),
        Device::with_pid(0x20ab) == Some(Device::Ql1115NWB),
        forall|pid: u16| Device::with_pid(pid) is Some ==> pid == 0x201a || pid == 0x202c || pid == 0x2004 || pid == 0x2007
            || pid == 0x202d || pid == 0x2041 || pid == 0x202b || pid == 0x2074
            || pid == 0x2060 || pid == 0x2061 || pid == 0x2065 || pid == 0x208e
            || pid == 0x2015 || pid == 0x2016 || pid == 0x2027 || pid == 0x2028
            || pid == 0x20c0 || pid == 0x201b || pid == 0x2042 || pid == 0x2043
            || pid == 0x2044 || pid == 0x209b || pid == 0x209c || pid == 0x209d
            || pid == 0x2020 || pid == 0x202a || pid == 0x20a7 || pid == 0x20a8
            || pid == 0x20ab,
{
    lemma_pid_round_trip(Device::Pt18R);
    lemma_pid_round_trip(Device::Pt1230Pc);
    lemma_pid_round_trip(Device::Pt2300);
    lemma_pid_round_trip(Device::Pt2420Pc);
    lemma_pid_round_trip(Device::Pt2430Pc);
    lemma_pid_round_trip(Device::Pt2730);
    lemma_pid_round_trip(Device::Pt7600);
    lemma_pid_round_trip(Device::PtD600);
    lemma_pid_round_trip(Device::PtE550W);
    lemma_pid_round_trip(Device::PtP700);
    lemma_pid_round_trip(Device::PtP750W);
    lemma_pid_round_trip(Device::PtP900);
    lemma_pid_round_trip(Device::Ql500);
    lemma_pid_round_trip(Device::Ql550);
    lemma_pid_round_trip(Device::Ql560);
    lemma_pid_round_trip(Device::Ql570);
    lemma_pid_round_trip(Device::Ql600);
    lemma_pid_round_trip(Device::Ql650Td);
    lemma_pid_round_trip(Device::Ql700);
    lemma_pid_round_trip(Device::Ql710W);
    lemma_pid_round_trip(Device::Ql720NW);
    lemma_pid_round_trip(Device::Ql800);
    lemma_pid_round_trip(Device::Ql810W);
    lemma_pid_round_trip(Device::Ql820NWB);
    lemma_pid_round_trip(Device::Ql1050);
    lemma_pid_round_trip(Device::Ql1060N);
    lemma_pid_round_trip(Device::Ql1100);
    lemma_pid_round_trip(Device::Ql1110NWB);
    lemma_pid_round_trip(Device::Ql1115NWB);
    assert forall|pid: u16| Device::with_pid(pid) is Some implies pid == 0x201a || pid == 0x202c || pid == 0x2004 || pid == 0x2007
            || pid == 0x202d || pid == 0x2041 || pid == 0x202b || pid == 0x2074
            || pid == 0x2060 || pid == 0x2061 || pid == 0x2065 || pid == 0x208e
            || pid == 0x2015 || pid == 0x2016 || pid == 0x2027 || pid == 0x2028
            || pid == 0x20c0 || pid == 0x201b || pid == 0x2042 || pid == 0x2043
            || pid == 0x2044 || pid == 0x209b || pid == 0x209c || pid == 0x209d
            || pid == 0x2020 || pid == 0x202a || pid == 0x20a7 || pid == 0x20a8
            || pid == 0x20ab by {
        let d = choose|d: Device| #[trigger] d.pid() == pid;
        assert(d.pid() == pid);
    }
}

/// The model names as documented, one per device.
pub proof fn lemma_documented_model_names()
    ensures
        Device::Pt18R.name() == "PT-18R"@,
        Device::Pt1230Pc.name() == "PT-1230PC"@,
        Device::Pt2300.name() == "PT-2300/2310"@,
        Device::Pt2420Pc.name() == "PT-2420PC"@,
        Device::Pt2430Pc.name() == "PT-2430PC"@,
        Device::Pt2730.name() == "PT-2730"@,
        Device::Pt7600.name() == "PT-7600"@,
        Device::PtD600.name() == "PT-D600"@,
        Device::PtE550W.name() == "PT-E550W"@,
        Device::PtP700.name() == "PT-P700"@,
        Device::PtP750W.name() == "PT-P750W"@,
        Device::PtP900.name() == "PT-P900"@,
        Device::Ql500.name() == "QL-500"@,
        Device::Ql550.name() == "QL-550"@,
        Device::Ql560.name() == "QL-560"@,
        Device::Ql570.name() == "QL-570"@,
        Device::Ql600.name() == "QL-600"@,
        Device::Ql650Td.name() == "QL-650TD"@,
        Device::Ql700.name() == "QL-700"@,
        Device::Ql710W.name() == "QL-710W"@,
        Device::Ql720NW.name() == "QL-720NW"@,
        Device::Ql800.name() == "QL-800"@,
        Device::Ql810W.name() == "QL-810W"@,
        Device::Ql820NWB.name() == "QL-820NWB"@,
        Device::Ql1050.name() == "QL-1050"@,
        Device::Ql1060N.name() == "QL-1060N"@,
        Device::Ql1100.name() == "QL-1100"@,
        Device::Ql1110NWB.name() == "QL-1110NWB"@,
        Device::Ql1115NWB.name() == "QL-1115NWB"@,
{
}

/// Every device advertises at least the default capabilities.
pub proof fn lemma_default_capabilities(d: Device)
    ensures
        (Capabilities { bits: d.capability_bits() }).has(DEFAULT_CAPS),
{
    let c = Capabilities::COLOR;
    let b = DEFAULT_CAPS;
    assert(b & b == b) by (bit_vector);
    assert((b | c) & b == b) by (bit_vector);
}

/// Colour is claimed by the QL-800, QL-810W and QL-820NWB and by no other
/// device.
pub proof fn lemma_colour_models(d: Device)
    ensures
        (Capabilities { bits: d.capability_bits() }).has(Capabilities::COLOR) <==> (d
            == Device::Ql800 || d == Device::Ql810W || d == Device::Ql820NWB),
{
    let c = Capabilities::COLOR;
    let b = DEFAULT_CAPS;
    assert(b & c != c) by (bit_vector)
        requires
            b == 0x30u8,
            c == 1u8,
    ;
    assert((b | c) & c == c) by (bit_vector);
}

/// Whether a query names a device depends only on the query once trimmed,
/// and not on the ASCII case of its letters.
pub proof fn lemma_match_ignores_case_and_space(full: Seq<char>, q1: Seq<char>, q2: Seq<char>)
    requires
        eq_ignore_ascii_case(trim(q1), trim(q2)),
    ensures
        name_matches(full, q1) == name_matches(full, q2),
{
    let t1 = trim(q1);
    let t2 = trim(q2);
    assert forall|a: Seq<char>| eq_ignore_ascii_case(a, t1) == eq_ignore_ascii_case(a, t2) by {
        if eq_ignore_ascii_case(a, t1) {
            assert forall|i: int| 0 <= i < a.len() implies #[trigger] ascii_fold(a[i]) == ascii_fold(t2[i]) by {
                assert(ascii_fold(t1[i]) == ascii_fold(t2[i]));
            }
        }
        if eq_ignore_ascii_case(a, t2) {
            assert forall|i: int| 0 <= i < a.len() implies #[trigger] ascii_fold(a[i]) == ascii_fold(t1[i]) by {
                assert(ascii_fold(t1[i]) == ascii_fold(t2[i]));
            }
        }
    }
    let parts = split(full, '/');
    let prefix = model_prefix(full);
    assert forall|i: int| 0 <= i < parts.len() implies #[trigger] part_matches(prefix, i, parts[i], t1)
        == part_matches(prefix, i, parts[i], t2) by {
        let qf = qualified(prefix, i, parts[i]);
        assert(eq_ignore_ascii_case(parts[i], t1) == eq_ignore_ascii_case(parts[i], t2));
        assert(eq_ignore_ascii_case(qf, t1) == eq_ignore_ascii_case(qf, t2));
        match split_once(qf, '-') {
            Some((_, bare)) => {
                assert(eq_ignore_ascii_case(bare, t1) == eq_ignore_ascii_case(bare, t2));
            },
            None => {},
        }
    }
    assert(eq_ignore_ascii_case(full, t1) == eq_ignore_ascii_case(full, t2));
    assert(t1.len() == t2.len());
    if exists|i: int| 0 <= i < parts.len() && #[trigger] part_matches(prefix, i, parts[i], t1) {
        let i = choose|i: int| 0 <= i < parts.len() && #[trigger] part_matches(prefix, i, parts[i], t1);
        assert(part_matches(prefix, i, parts[i], t2));
    }
    if exists|i: int| 0 <= i < parts.len() && #[trigger] part_matches(prefix, i, parts[i], t2) {
        let i = choose|i: int| 0 <= i < parts.len() && #[trigger] part_matches(prefix, i, parts[i], t2);
        assert(part_matches(prefix, i, parts[i], t1));
    }
}

} // verus!
