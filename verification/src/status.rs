//! Printer status parsing.
//!
//! Parses the 32-byte status response Brother printers return to `ESC i S`.
//!
//! Both supported families use the same frame, but they are documented in two
//! different manuals and several fields do **not** mean the same thing:
//!
//! - the media type table shares only the value `0x00`
//! - error bits overlap on three of sixteen and otherwise differ entirely
//! - tape and text colour exist on PT only; on QL those bytes are reserved
//!
//! Parsing therefore takes the [`Series`] and dispatches on it. Offsets and
//! values follow the manufacturer references:
//!
//! - PT: Raster Command Reference PT-E550W/P750W/P710BT, rev. 1.02, section 4
//! - QL: Raster Command Reference QL-710W/720NW, rev. 1.0, section 4
use vstd::prelude::*;
use vstd::string::StringExecFns;
use crate::config::{
    STATUS_MAGIC_0, STATUS_MAGIC_1, STATUS_OFF_ERROR1, STATUS_OFF_ERROR2, STATUS_OFF_MEDIA_LENGTH,
    STATUS_OFF_MEDIA_TYPE, STATUS_OFF_MEDIA_WIDTH, STATUS_OFF_PHASE_NUMBER_HI,
    STATUS_OFF_PHASE_NUMBER_LO, STATUS_OFF_PHASE_TYPE, STATUS_OFF_STATUS_TYPE,
    STATUS_OFF_TAPE_COLOR, STATUS_OFF_TEXT_COLOR, USB_READ_SIZE,
};
use crate::device::Series;
use crate::text::{decimal, hex_byte, join, push_decimal, push_hex_byte, push_joined, views};

verus! {

// ---------------------------------------------------------------------------
// Status type, shared
// ---------------------------------------------------------------------------

/// Why the printer sent this frame. Table (5) in both references.
#[derive(Clone, Copy, Debug, PartialEq, Eq)]
pub enum StatusType {
    ReplyToRequest,
    PrintingCompleted,
    ErrorOccurred,
    /// PT only, and marked "not used" even there.
    ExitIfMode,
    TurnedOff,
    Notification,
    PhaseChange,
    Unknown(u8),
}

impl StatusType {
    /// The status type byte `v` stands for.
    pub open spec fn of(v: u8) -> StatusType {
        if v == 0x00 {
            StatusType::ReplyToRequest
        } else if v == 0x01 {
            StatusType::PrintingCompleted
        } else if v == 0x02 {
            StatusType::ErrorOccurred
        } else if v == 0x03 {
            StatusType::ExitIfMode
        } else if v == 0x04 {
            StatusType::TurnedOff
        } else if v == 0x05 {
            StatusType::Notification
        } else if v == 0x06 {
            StatusType::PhaseChange
        } else {
            StatusType::Unknown(v)
        }
    }
}

impl From<u8> for StatusType {
    fn from(v: u8) -> (r: Self) {
        match v {
            0x00 => StatusType::ReplyToRequest,
            0x01 => StatusType::PrintingCompleted,
            0x02 => StatusType::ErrorOccurred,
            0x03 => StatusType::ExitIfMode,
            0x04 => StatusType::TurnedOff,
            0x05 => StatusType::Notification,
            0x06 => StatusType::PhaseChange,
            other => StatusType::Unknown(other),
        }
    }
}

impl vstd::std_specs::convert::FromSpecImpl<u8> for StatusType {
    open spec fn obeys_from_spec() -> bool {
        true
    }

    open spec fn from_spec(v: u8) -> Self {
        StatusType::of(v)
    }
}

// ---------------------------------------------------------------------------
// Phase, shared
// ---------------------------------------------------------------------------

/// Table (6) in both references. The phase *number* is a separate `u16`.
#[derive(Clone, Copy, Debug, PartialEq, Eq)]
pub enum PhaseType {
    Editing,
    Printing,
    Unknown(u8),
}

impl PhaseType {
    /// The phase type byte `v` stands for.
    pub open spec fn of(v: u8) -> PhaseType {
        if v == 0x00 {
            PhaseType::Editing
        } else if v == 0x01 {
            PhaseType::Printing
        } else {
            PhaseType::Unknown(v)
        }
    }
}

impl From<u8> for PhaseType {
    fn from(v: u8) -> (r: Self) {
        match v {
            0x00 => PhaseType::Editing,
            0x01 => PhaseType::Printing,
            other => PhaseType::Unknown(other),
        }
    }
}

impl vstd::std_specs::convert::FromSpecImpl<u8> for PhaseType {
    open spec fn obeys_from_spec() -> bool {
        true
    }

    open spec fn from_spec(v: u8) -> Self {
        PhaseType::of(v)
    }
}

// ---------------------------------------------------------------------------
// Media type, per series
// ---------------------------------------------------------------------------

/// Table (4). The two families share only `0x00`.
#[derive(Clone, Copy, Debug, PartialEq, Eq)]
pub enum MediaType {
    /// No media loaded (`0x00` in both tables).
    NoMedia,
    // PT
    LaminatedTape,
    NonLaminatedTape,
    HeatShrinkTube21,
    HeatShrinkTube31,
    IncompatibleTape,
    // QL
    ContinuousLength,
    DieCutLabels,
    Unknown(u8),
}

impl MediaType {
    /// The media type byte `v` stands for in the table of `series`.
    pub open spec fn of(series: Series, v: u8) -> MediaType {
        if v == 0x00 {
            MediaType::NoMedia
        } else if series == Series::Pt && v == 0x01 {
            MediaType::LaminatedTape
        } else if series == Series::Pt && v == 0x03 {
            MediaType::NonLaminatedTape
        } else if series == Series::Pt && v == 0x11 {
            MediaType::HeatShrinkTube21
        } else if series == Series::Pt && v == 0x17 {
            MediaType::HeatShrinkTube31
        } else if series == Series::Pt && v == 0xFF {
            MediaType::IncompatibleTape
        } else if series == Series::Ql && v == 0x4A {
            MediaType::ContinuousLength
        } else if series == Series::Ql && v == 0x4B {
            MediaType::DieCutLabels
        } else {
            MediaType::Unknown(v)
        }
    }

    /// Reads a media type byte against the table of `series`.
    pub fn parse(series: Series, v: u8) -> (r: MediaType)
        ensures
            r == MediaType::of(series, v),
    {
        match (series, v) {
            (_, 0x00) => MediaType::NoMedia,
            (Series::Pt, 0x01) => MediaType::LaminatedTape,
            (Series::Pt, 0x03) => MediaType::NonLaminatedTape,
            (Series::Pt, 0x11) => MediaType::HeatShrinkTube21,
            (Series::Pt, 0x17) => MediaType::HeatShrinkTube31,
            (Series::Pt, 0xFF) => MediaType::IncompatibleTape,
            (Series::Ql, 0x4A) => MediaType::ContinuousLength,
            (Series::Ql, 0x4B) => MediaType::DieCutLabels,
            (_, other) => MediaType::Unknown(other),
        }
    }

    /// The human-readable name of a media type.
    pub open spec fn name(self) -> Seq<char> {
        match self {
            MediaType::NoMedia => "no media"@,
            MediaType::LaminatedTape => "laminated tape"@,
            MediaType::NonLaminatedTape => "non-laminated tape"@,
            MediaType::HeatShrinkTube21 => "heat-shrink tube 2:1"@,
            MediaType::HeatShrinkTube31 => "heat-shrink tube 3:1"@,
            MediaType::IncompatibleTape => "incompatible tape"@,
            MediaType::ContinuousLength => "continuous length tape"@,
            MediaType::DieCutLabels => "die-cut labels"@,
            MediaType::Unknown(_) => "unknown"@,
        }
    }

    /// Human-readable name for the `STATUS` command and logs.
    pub fn label(self) -> (r: &'static str)
        ensures
            r@ == self.name(),
    {
        match self {
            MediaType::NoMedia => "no media",
            MediaType::LaminatedTape => "laminated tape",
            MediaType::NonLaminatedTape => "non-laminated tape",
            MediaType::HeatShrinkTube21 => "heat-shrink tube 2:1",
            MediaType::HeatShrinkTube31 => "heat-shrink tube 3:1",
            MediaType::IncompatibleTape => "incompatible tape",
            MediaType::ContinuousLength => "continuous length tape",
            MediaType::DieCutLabels => "die-cut labels",
            MediaType::Unknown(_) => "unknown",
        }
    }
}

// ---------------------------------------------------------------------------
// Error bits, per series
// ---------------------------------------------------------------------------

/// One entry per documented error bit: mask and the name it stands for.
pub type ErrorEntry = (u8, &'static str);

/// Tables (1) and (2) of `series`. Entries the reference marks "not used"
/// are absent, so an unmatched bit shows up as a raw value rather than a
/// wrong label.
pub open spec fn error_table(series: Series, second: bool) -> Seq<(u8, Seq<char>)> {
    match (series, second) {
        (Series::Pt, false) => seq![
            (0x01u8, "no media"@),
            (0x04u8, "cutter jam"@),
            (0x08u8, "weak batteries"@),
            (0x40u8, "high-voltage adapter"@),
        ],
        (Series::Pt, true) => seq![
            (0x01u8, "wrong media"@),
            (0x10u8, "cover open"@),
            (0x20u8, "overheating"@),
        ],
        (Series::Ql, false) => seq![
            (0x01u8, "no media"@),
            (0x02u8, "end of media"@),
            (0x04u8, "cutter jam"@),
            (0x10u8, "printer in use"@),
            (0x20u8, "printer turned off"@),
        ],
        (Series::Ql, true) => seq![
            (0x01u8, "replace media"@),
            (0x02u8, "expansion buffer full"@),
            (0x04u8, "communication error"@),
            (0x10u8, "cover open"@),
            (0x40u8, "media cannot be fed"@),
            (0x80u8, "system error"@),
        ],
    }
}

/// The entries of an exec table, names taken by their characters.
pub open spec fn entries(t: Seq<ErrorEntry>) -> Seq<(u8, Seq<char>)> {
    t.map_values(|e: ErrorEntry| (e.0, e.1@))
}

/// The error tables (1) and (2) of `series`.
pub fn error_tables(series: Series) -> (r: (Vec<ErrorEntry>, Vec<ErrorEntry>))
    ensures
        entries(r.0@) == error_table(series, false),
        entries(r.1@) == error_table(series, true),
{
    match series {
        Series::Pt => {
            let t1: Vec<ErrorEntry> = vec![
                (0x01, "no media"),
                (0x04, "cutter jam"),
                (0x08, "weak batteries"),
                (0x40, "high-voltage adapter"),
            ];
            let t2: Vec<ErrorEntry> = vec![
                (0x01, "wrong media"),
                (0x10, "cover open"),
                (0x20, "overheating"),
            ];
            assert(entries(t1@) =~= error_table(series, false));
            assert(entries(t2@) =~= error_table(series, true));
            (t1, t2)
        },
        Series::Ql => {
            let t1: Vec<ErrorEntry> = vec![
                (0x01, "no media"),
                (0x02, "end of media"),
                (0x04, "cutter jam"),
                (0x10, "printer in use"),
                (0x20, "printer turned off"),
            ];
            let t2: Vec<ErrorEntry> = vec![
                (0x01, "replace media"),
                (0x02, "expansion buffer full"),
                (0x04, "communication error"),
                (0x10, "cover open"),
                (0x40, "media cannot be fed"),
                (0x80, "system error"),
            ];
            assert(entries(t1@) =~= error_table(series, false));
            assert(entries(t2@) =~= error_table(series, true));
            (t1, t2)
        },
    }
}

/// The names of the entries of `table` whose mask meets `bits`, in table order.
pub open spec fn named(table: Seq<(u8, Seq<char>)>, bits: u8) -> Seq<Seq<char>>
    decreases table.len(),
{
    if table.len() == 0 {
        seq![]
    } else if bits & table.last().0 != 0 {
        named(table.drop_last(), bits).push(table.last().1)
    } else {
        named(table.drop_last(), bits)
    }
}

/// Every bit that some entry of `table` names.
pub open spec fn table_mask(table: Seq<(u8, Seq<char>)>) -> u8
    decreases table.len(),
{
    if table.len() == 0 {
        0
    } else {
        table_mask(table.drop_last()) | table.last().0
    }
}

/// `m` has exactly one bit set.
pub open spec fn single_bit(m: u8) -> bool {
    m == 1 || m == 2 || m == 4 || m == 8 || m == 16 || m == 32 || m == 64 || m == 128
}

/// Every mask of `table` is a single bit.
pub open spec fn single_bit_masks(table: Seq<(u8, Seq<char>)>) -> bool {
    forall|i: int| 0 <= i < table.len() ==> single_bit(#[trigger] table[i].0)
}

/// The cause reported for error bits no entry names.
pub open spec fn undocumented(second: bool, rest: u8) -> Seq<char> {
    if second {
        "undocumented error2 bits "@ + hex_byte(rest)
    } else {
        "undocumented error1 bits "@ + hex_byte(rest)
    }
}

/// Bits of `bits` that `table` does not name.
pub open spec fn unnamed_bits(table: Seq<(u8, Seq<char>)>, bits: u8) -> u8 {
    bits & !table_mask(table)
}

/// The names of the entries of `table`, in table order.
pub open spec fn table_names(table: Seq<(u8, Seq<char>)>) -> Seq<Seq<char>> {
    table.map_values(|e: (u8, Seq<char>)| e.1)
}

/// Every mask of `table` is a single bit and no two entries share one.
pub open spec fn distinct_single_bits(table: Seq<(u8, Seq<char>)>) -> bool {
    &&& single_bit_masks(table)
    &&& forall|i: int, j: int| 0 <= i < j < table.len() ==> #[trigger] table[i].0 != #[trigger] table[j].0
}

/// Each table names its bits with distinct single-bit masks.
pub proof fn lemma_tables_single_bit(series: Series, second: bool)
    ensures
        distinct_single_bits(error_table(series, second)),
{
    let t = error_table(series, second);
    assert forall|i: int| 0 <= i < t.len() implies single_bit(#[trigger] t[i].0) by {
        if i == 0 {
        } else if i == 1 {
        } else if i == 2 {
        } else if i == 3 {
        } else if i == 4 {
        } else {
        }
    }
}

/// The two tables of a series name no cause twice between them, and each
/// name is at most 21 characters long.
pub proof fn lemma_table_names_distinct(series: Series)
    ensures
        (table_names(error_table(series, false)) + table_names(error_table(series, true))).no_duplicates(),
        forall|second: bool, i: int| 0 <= i < error_table(series, second).len()
            ==> (#[trigger] error_table(series, second)[i]).1.len() <= 21,
{
    reveal_strlit("no media");
    reveal_strlit("cutter jam");
    reveal_strlit("weak batteries");
    reveal_strlit("high-voltage adapter");
    reveal_strlit("wrong media");
    reveal_strlit("cover open");
    reveal_strlit("overheating");
    reveal_strlit("end of media");
    reveal_strlit("printer in use");
    reveal_strlit("printer turned off");
    reveal_strlit("replace media");
    reveal_strlit("expansion buffer full");
    reveal_strlit("communication error");
    reveal_strlit("media cannot be fed");
    reveal_strlit("system error");
    let all = table_names(error_table(series, false)) + table_names(error_table(series, true));
    match series {
        Series::Pt => {
            assert(all =~= seq!["no media"@, "cutter jam"@, "weak batteries"@, "high-voltage adapter"@,
                "wrong media"@, "cover open"@, "overheating"@]);
        },
        Series::Ql => {
            assert(all =~= seq!["no media"@, "end of media"@, "cutter jam"@, "printer in use"@,
                "printer turned off"@, "replace media"@, "expansion buffer full"@,
                "communication error"@, "cover open"@, "media cannot be fed"@, "system error"@]);
        },
    }
    assert forall|i: int, j: int| 0 <= i < all.len() && 0 <= j < all.len() && i != j implies all[i]
        != all[j] by {
        if all[i].len() == all[j].len() {
            assert(all[i][0] != all[j][0] || all[i][1] != all[j][1]);
        }
    }
}

/// The entries of byte 1, and of byte 2, that the two series share are
/// exactly "no media" and "cutter jam" in byte 1 and "cover open" in byte 2,
/// each under the same mask.
pub proof fn lemma_tables_share_three_entries(second: bool, e: (u8, Seq<char>))
    ensures
        (error_table(Series::Pt, second).contains(e) && error_table(Series::Ql, second).contains(e))
            <==> (!second && (e == (0x01u8, "no media"@) || e == (0x04u8, "cutter jam"@))) || (second
            && e == (0x10u8, "cover open"@)),
{
    reveal_strlit("wrong media");
    reveal_strlit("replace media");
    let pt = error_table(Series::Pt, second);
    let ql = error_table(Series::Ql, second);
    if pt.contains(e) && ql.contains(e) {
        let i = choose|i: int| 0 <= i < pt.len() && pt[i] == e;
        let j = choose|j: int| 0 <= j < ql.len() && ql[j] == e;
        assert(pt[i].0 == ql[j].0 && pt[i].1 == ql[j].1);
        if second {
            assert(pt[0].1 == "wrong media"@ && ql[0].1 == "replace media"@);
            assert("wrong media"@.len() == 11 && "replace media"@.len() == 13);
            assert(i == 1 && j == 3) by {
                assert(0 <= i < 3 && 0 <= j < 6);
                if i == 0 {
                    assert(j == 0);
                } else if i == 2 {
                    assert(false);
                }
            }
        } else {
            assert((i == 0 && j == 0) || (i == 1 && j == 2)) by {
                assert(0 <= i < 4 && 0 <= j < 5);
            }
        }
    }
    if !second && e == (0x01u8, "no media"@) {
        assert(pt[0] == e && ql[0] == e);
    }
    if !second && e == (0x04u8, "cutter jam"@) {
        assert(pt[1] == e && ql[2] == e);
    }
    if second && e == (0x10u8, "cover open"@) {
        assert(pt[1] == e && ql[3] == e);
    }
}

/// The number of set bits of `b`.
pub open spec fn bit_count(b: u8) -> int {
    (b & 1) + ((b >> 1u8) & 1) + ((b >> 2u8) & 1) + ((b >> 3u8) & 1) + ((b >> 4u8) & 1) + ((b
        >> 5u8) & 1) + ((b >> 6u8) & 1) + ((b >> 7u8) & 1)
}

proof fn lemma_bit_count_facts(bits: u8, tm: u8, m: u8)
    ensures
        bit_count(0) == 0,
        bit_count(bits) == bit_count(bits & tm) + bit_count(bits & !tm),
        bits != 0 ==> bit_count(bits) >= 1,
        single_bit(m) && tm & m == 0 ==> bit_count(bits & (tm | m)) == bit_count(bits & tm) + (if bits
            & m != 0 {
            1int
        } else {
            0int
        }),
{
    assert(bit_count(0) == 0) by (bit_vector);
    assert(bit_count(bits) == bit_count(bits & tm) + bit_count(bits & !tm)) by (bit_vector);
    assert(bits != 0 ==> bit_count(bits) >= 1) by (bit_vector);
    assert(single_bit(m) && tm & m == 0 ==> bit_count(bits & (tm | m)) == bit_count(bits & tm) + (
    if bits & m != 0 {
        1int
    } else {
        0int
    })) by (bit_vector);
}

/// Two different single bits do not meet.
proof fn lemma_single_bits_disjoint(a: u8, b: u8)
    requires
        single_bit(a),
        single_bit(b),
        a != b,
    ensures
        a & b == 0,
{
    assert(single_bit(a) && single_bit(b) && a != b ==> a & b == 0) by (bit_vector);
}

/// A bit that no mask of `table` meets is not in its mask.
proof fn lemma_mask_excludes(table: Seq<(u8, Seq<char>)>, m: u8)
    requires
        forall|i: int| 0 <= i < table.len() ==> #[trigger] table[i].0 & m == 0,
    ensures
        table_mask(table) & m == 0,
    decreases table.len(),
{
    if table.len() == 0 {
        assert(0u8 & m == 0) by (bit_vector);
    } else {
        let t = table.drop_last();
        assert forall|i: int| 0 <= i < t.len() implies #[trigger] t[i].0 & m == 0 by {
            assert(t[i] == table[i]);
        }
        lemma_mask_excludes(t, m);
        let a = table_mask(t);
        let b = table.last().0;
        assert(b == table[table.len() - 1].0);
        assert(a & m == 0 && b & m == 0 ==> (a | b) & m == 0) by (bit_vector);
    }
}

/// With distinct single-bit masks, a table names one cause per set bit it
/// covers.
proof fn lemma_named_len(table: Seq<(u8, Seq<char>)>, bits: u8)
    requires
        distinct_single_bits(table),
    ensures
        named(table, bits).len() == bit_count(bits & table_mask(table)),
    decreases table.len(),
{
    lemma_bit_count_facts(bits, 0, 0);
    if table.len() == 0 {
        assert(bits & 0 == 0) by (bit_vector);
    } else {
        let t = table.drop_last();
        let last = table.len() - 1;
        let m = table[last].0;
        assert(distinct_single_bits(t)) by {
            assert forall|i: int| 0 <= i < t.len() implies single_bit(#[trigger] t[i].0) by {
                assert(t[i] == table[i]);
            }
            assert forall|i: int, j: int| 0 <= i < j < t.len() implies #[trigger] t[i].0
                != #[trigger] t[j].0 by {
                assert(t[i] == table[i] && t[j] == table[j]);
            }
        }
        lemma_named_len(t, bits);
        assert forall|i: int| 0 <= i < t.len() implies #[trigger] t[i].0 & m == 0 by {
            assert(t[i] == table[i]);
            assert(single_bit(table[i].0) && single_bit(table[last].0));
            lemma_single_bits_disjoint(table[i].0, m);
        }
        lemma_mask_excludes(t, m);
        assert(single_bit(table[last].0));
        lemma_bit_count_facts(bits, table_mask(t), m);
    }
}

/// What `named` lists are names of the table, and it lists none twice when
/// the table has none twice.
proof fn lemma_named_from_table(table: Seq<(u8, Seq<char>)>, bits: u8)
    ensures
        forall|k: int| 0 <= k < named(table, bits).len() ==> table_names(table).contains(
            #[trigger] named(table, bits)[k],
        ),
        table_names(table).no_duplicates() ==> named(table, bits).no_duplicates(),
    decreases table.len(),
{
    if table.len() > 0 {
        let t = table.drop_last();
        lemma_named_from_table(t, bits);
        let names = table_names(table);
        assert(table_names(t) =~= names.drop_last());
        let prev = named(t, bits);
        assert forall|k: int| 0 <= k < prev.len() implies names.contains(#[trigger] prev[k]) by {
            let i = choose|i: int| 0 <= i < table_names(t).len() && table_names(t)[i] == prev[k];
            assert(names[i] == prev[k]);
        }
        assert(names[names.len() - 1] == table.last().1);
        if names.no_duplicates() {
            assert(table_names(t).no_duplicates());
            assert forall|k: int| 0 <= k < prev.len() implies #[trigger] prev[k] != table.last().1 by {
                let i = choose|i: int| 0 <= i < table_names(t).len() && table_names(t)[i] == prev[k];
                assert(names[i] == prev[k]);
            }
        }
    }
}

/// Names nothing of `bits` exactly when `bits` meets no mask of `table`.
proof fn lemma_named_empty(table: Seq<(u8, Seq<char>)>, bits: u8)
    ensures
        named(table, bits).len() == 0 <==> bits & table_mask(table) == 0,
    decreases table.len(),
{
    if table.len() == 0 {
        assert(bits & 0 == 0) by (bit_vector);
    } else {
        lemma_named_empty(table.drop_last(), bits);
        let t = table_mask(table.drop_last());
        let m = table.last().0;
        assert(bits & (t | m) == 0 <==> (bits & t == 0 && bits & m == 0)) by (bit_vector);
    }
}

// ---------------------------------------------------------------------------
// Status
// ---------------------------------------------------------------------------

/// A parsed 32-byte status frame.
#[derive(Clone, Debug, PartialEq, Eq)]
pub struct Status {
    pub series: Series,
    pub error1: u8,
    pub error2: u8,
    /// Millimetres. On QL die-cut labels this is the width of the die-cut area.
    pub media_width: u8,
    /// Millimetres. Fixed at 0 for continuous tape; on QL die-cut labels this
    /// is the length of the die-cut area, which is what identifies the label.
    pub media_length: u8,
    pub media_type: MediaType,
    /// Why the printer sent this frame.
    pub kind: StatusType,
    pub phase_type: PhaseType,
    pub phase_number: u16,
    /// PT only. Bytes 24 and 25 are reserved on QL.
    pub tape_color: Option<u8>,
    /// PT only.
    pub text_color: Option<u8>,
}

/// Bytes 0 and 1 carry the print head mark `80h` and the size `20h`.
pub open spec fn has_magic(raw: Seq<u8>) -> bool {
    raw[0] == STATUS_MAGIC_0 && raw[1] == STATUS_MAGIC_1
}

/// The status a frame with the magic header stands for.
pub open spec fn frame_status(raw: Seq<u8>, series: Series) -> Status {
    Status {
        series,
        error1: raw[8],
        error2: raw[9],
        media_width: raw[10],
        media_length: raw[17],
        media_type: MediaType::of(series, raw[11]),
        kind: StatusType::of(raw[18]),
        phase_type: PhaseType::of(raw[19]),
        phase_number: (raw[20] * 256 + raw[21]) as u16,
        tape_color: if series == Series::Pt { Some(raw[24]) } else { None },
        text_color: if series == Series::Pt { Some(raw[25]) } else { None },
    }
}

impl Status {
    /// Parse a status frame. Returns `None` when the magic header is absent.
    pub fn parse(raw: [u8; USB_READ_SIZE], series: Series) -> (r: Option<Status>)
        ensures
            r == (if has_magic(raw@) {
                Some(frame_status(raw@, series))
            } else {
                None
            }),
    {
        if raw[0] != STATUS_MAGIC_0 || raw[1] != STATUS_MAGIC_1 {
            return None;
        }
        let (tape_color, text_color) = match series {
            Series::Pt => (Some(raw[STATUS_OFF_TAPE_COLOR]), Some(raw[STATUS_OFF_TEXT_COLOR])),
            Series::Ql => (None, None),
        };
        let hi = raw[STATUS_OFF_PHASE_NUMBER_HI] as u16;
        let lo = raw[STATUS_OFF_PHASE_NUMBER_LO] as u16;
        Some(
            Status {
                series,
                error1: raw[STATUS_OFF_ERROR1],
                error2: raw[STATUS_OFF_ERROR2],
                media_width: raw[STATUS_OFF_MEDIA_WIDTH],
                media_length: raw[STATUS_OFF_MEDIA_LENGTH],
                media_type: MediaType::parse(series, raw[STATUS_OFF_MEDIA_TYPE]),
                kind: StatusType::from(raw[STATUS_OFF_STATUS_TYPE]),
                phase_type: PhaseType::from(raw[STATUS_OFF_PHASE_TYPE]),
                phase_number: hi * 256 + lo,
                tape_color,
                text_color,
            },
        )
    }

    /// The active error conditions, named per series: the named bits of
    /// error 1, then those of error 2, then one entry for each byte with bits
    /// no entry names.
    pub open spec fn error_list(self) -> Seq<Seq<char>> {
        let t1 = error_table(self.series, false);
        let t2 = error_table(self.series, true);
        let rest1 = unnamed_bits(t1, self.error1);
        let rest2 = unnamed_bits(t2, self.error2);
        named(t1, self.error1) + named(t2, self.error2) + (if rest1 != 0 {
            seq![undocumented(false, rest1)]
        } else {
            seq![]
        }) + (if rest2 != 0 {
            seq![undocumented(true, rest2)]
        } else {
            seq![]
        })
    }

    /// Any error bit is set, named or not.
    pub open spec fn in_error(self) -> bool {
        self.error1 != 0 || self.error2 != 0
    }

    /// Active error conditions, named per series.
    ///
    /// A bit the reference marks "not used" has no name, so it is reported as
    /// its raw value instead of being silently dropped.
    pub fn errors(&self) -> (r: Vec<String>)
        ensures
            views(r@) == self.error_list(),
    {
        let (t1, t2) = error_tables(self.series);
        proof {
            lemma_tables_single_bit(self.series, false);
            lemma_tables_single_bit(self.series, true);
        }
        let mut out: Vec<String> = Vec::new();
        let named1 = collect_named(&t1, self.error1, &mut out);
        let named2 = collect_named(&t2, self.error2, &mut out);
        let ghost before = out@;
        let rest1 = self.error1 & !named1;
        let rest2 = self.error2 & !named2;
        proof {
            let e1 = self.error1;
            let e2 = self.error2;
            let m1 = table_mask(error_table(self.series, false));
            let m2 = table_mask(error_table(self.series, true));
            assert(e1 & !(e1 & m1) == e1 & !m1) by (bit_vector);
            assert(e2 & !(e2 & m2) == e2 & !m2) by (bit_vector);
        }
        if rest1 != 0 {
            let mut msg = String::from_str("undocumented error1 bits ");
            push_hex_byte(&mut msg, rest1);
            out.push(msg);
        }
        if rest2 != 0 {
            let mut msg = String::from_str("undocumented error2 bits ");
            push_hex_byte(&mut msg, rest2);
            out.push(msg);
        }
        assert(views(out@) =~= self.error_list());
        out
    }

    /// `true` when any error bit is set, named or not.
    pub fn has_error(&self) -> (r: bool)
        ensures
            r == self.in_error(),
    {
        self.error1 != 0 || self.error2 != 0
    }

    /// The media description: kind, width and, where it carries
    /// information, length.
    pub open spec fn media_text(self) -> Seq<char> {
        if self.media_length == 0 {
            self.media_type.name() + ", "@ + decimal(self.media_width as nat) + "mm"@
        } else {
            self.media_type.name() + ", "@ + decimal(self.media_width as nat) + "x"@ + decimal(
                self.media_length as nat,
            ) + "mm"@
        }
    }

    /// Media description for the `STATUS` command.
    pub fn media_description(&self) -> (r: String)
        ensures
            r@ == self.media_text(),
    {
        let mut s = String::from_str(self.media_type.label());
        s.append(", ");
        push_decimal(&mut s, self.media_width as u64);
        if self.media_length != 0 {
            s.append("x");
            push_decimal(&mut s, self.media_length as u64);
        }
        s.append("mm");
        assert(s@ =~= self.media_text());
        s
    }

    /// How the status reads as one line: `READY (<media>)` when no error is
    /// listed, else `ERROR: ` and the causes separated by commas.
    pub open spec fn display(self) -> Seq<char> {
        if self.error_list().len() == 0 {
            "READY ("@ + self.media_text() + ")"@
        } else {
            "ERROR: "@ + join(self.error_list(), ", "@)
        }
    }

    /// The status as one line, as it is shown in logs and to clients.
    pub fn to_string(&self) -> (r: String)
        ensures
            r@ == self.display(),
    {
        let errors = self.errors();
        if errors.len() == 0 {
            let mut s = String::from_str("READY (");
            let media = self.media_description();
            s.append(media.as_str());
            s.append(")");
            assert(s@ =~= self.display());
            s
        } else {
            let mut s = String::from_str("ERROR: ");
            push_joined(&mut s, &errors, ", ");
            assert(s@ =~= self.display());
            s
        }
    }
}

/// Appends to `out` the names of the entries of `table` whose mask meets
/// `bits`; returns the union of their masks.
fn collect_named(table: &Vec<ErrorEntry>, bits: u8, out: &mut Vec<String>) -> (r: u8)
    requires
        single_bit_masks(entries(table@)),
    ensures
        views(final(out)@) == views(old(out)@) + named(entries(table@), bits),
        r == bits & table_mask(entries(table@)),
{
    let ghost t = entries(table@);
    let mut found: u8 = 0;
    let n = table.len();
    assert(bits & 0 == 0) by (bit_vector);
    assert(t.take(0) =~= Seq::<(u8, Seq<char>)>::empty());
    for i in 0..n
        invariant
            n == table.len(),
            t == entries(table@),
            single_bit_masks(t),
            views(out@) == views(old(out)@) + named(t.take(i as int), bits),
            found == bits & table_mask(t.take(i as int)),
    {
        let (mask, name) = table[i];
        let ghost prev = t.take(i as int);
        assert(t.take(i + 1).drop_last() =~= prev);
        assert(t.take(i + 1).last() == t[i as int]);
        assert(t[i as int] == (mask, name@));
        let ghost tm = table_mask(prev);
        let ghost out_before = out@;
        if bits & mask != 0 {
            out.push(String::from_str(name));
            assert(views(out@) =~= views(out_before).push(name@));
            proof {
                assert(single_bit(t[i as int].0));
                assert(single_bit(mask) && bits & mask != 0 ==> (bits & tm) | mask == bits & (tm
                    | mask)) by (bit_vector);
            }
            found = found | mask;
        } else {
            proof {
                assert(bits & mask == 0 ==> bits & tm == bits & (tm | mask)) by (bit_vector);
            }
        }
        assert(views(out@) =~= views(old(out)@) + named(t.take(i + 1), bits));
    }
    assert(t.take(n as int) =~= t);
    found
}

/// Whatever the bits are, `has_error` and `errors` agree: an error is
/// reported exactly when the list of causes is not empty.
pub proof fn lemma_has_error_iff_errors_listed(s: Status)
    ensures
        s.in_error() <==> s.error_list().len() > 0,
{
    let t1 = error_table(s.series, false);
    let t2 = error_table(s.series, true);
    lemma_named_empty(t1, s.error1);
    lemma_named_empty(t2, s.error2);
    let e1 = s.error1;
    let e2 = s.error2;
    let m1 = table_mask(t1);
    let m2 = table_mask(t2);
    assert(e1 & m1 == 0 ==> e1 & !m1 == e1) by (bit_vector);
    assert(e2 & m2 == 0 ==> e2 & !m2 == e2) by (bit_vector);
    assert(e1 == 0 ==> e1 & m1 == 0 && e1 & !m1 == 0) by (bit_vector);
    assert(e2 == 0 ==> e2 & m2 == 0 && e2 & !m2 == 0) by (bit_vector);
}

/// The causes listed for a status depend on its series and its two error
/// bytes alone.
pub proof fn lemma_errors_depend_only_on_error_bytes(s: Status, t: Status)
    requires
        s.series == t.series,
        s.error1 == t.error1,
        s.error2 == t.error2,
    ensures
        s.error_list() == t.error_list(),
{
}

/// No cause is listed twice.
pub proof fn lemma_errors_listed_once(s: Status)
    ensures
        s.error_list().no_duplicates(),
{
    let t1 = error_table(s.series, false);
    let t2 = error_table(s.series, true);
    let n1 = table_names(t1);
    let n2 = table_names(t2);
    let a = named(t1, s.error1);
    let b = named(t2, s.error2);
    lemma_table_names_distinct(s.series);
    let both = n1 + n2;
    assert(n1.no_duplicates()) by {
        assert forall|i: int, j: int| 0 <= i < n1.len() && 0 <= j < n1.len() && i != j implies n1[i]
            != n1[j] by {
            assert(both[i] == n1[i] && both[j] == n1[j]);
        }
    }
    assert(n2.no_duplicates()) by {
        assert forall|i: int, j: int| 0 <= i < n2.len() && 0 <= j < n2.len() && i != j implies n2[i]
            != n2[j] by {
            assert(both[n1.len() + i] == n2[i] && both[n1.len() + j] == n2[j]);
        }
    }
    lemma_named_from_table(t1, s.error1);
    lemma_named_from_table(t2, s.error2);
    // Every listed name is a table name, so at most 21 characters long.
    assert forall|k: int| 0 <= k < a.len() implies (#[trigger] a[k]).len() <= 21 by {
        assert(n1.contains(a[k]));
        let i = choose|i: int| 0 <= i < n1.len() && n1[i] == a[k];
        assert(t1[i].1 == n1[i]);
    }
    assert forall|k: int| 0 <= k < b.len() implies (#[trigger] b[k]).len() <= 21 by {
        assert(n2.contains(b[k]));
        let i = choose|i: int| 0 <= i < n2.len() && n2[i] == b[k];
        assert(t2[i].1 == n2[i]);
    }
    assert forall|i: int, j: int| 0 <= i < a.len() && 0 <= j < b.len() implies a[i] != b[j] by {
        assert(n1.contains(a[i]) && n2.contains(b[j]));
        let x = choose|x: int| 0 <= x < n1.len() && n1[x] == a[i];
        let y = choose|y: int| 0 <= y < n2.len() && n2[y] == b[j];
        assert(both[x] == n1[x] && both[n1.len() + y] == n2[y]);
    }
    vstd::seq_lib::lemma_no_dup_in_concat(a, b);
    let named_ab = a + b;
    assert forall|k: int| 0 <= k < named_ab.len() implies (#[trigger] named_ab[k]).len() <= 21 by {
        if k < a.len() {
            assert(named_ab[k] == a[k]);
        } else {
            assert(named_ab[k] == b[k - a.len()]);
        }
    }
    reveal_strlit("undocumented error1 bits ");
    reveal_strlit("undocumented error2 bits ");
    let rest1 = unnamed_bits(t1, s.error1);
    let rest2 = unnamed_bits(t2, s.error2);
    let u1 = undocumented(false, rest1);
    let u2 = undocumented(true, rest2);
    assert(u1.len() == 29 && u2.len() == 29);
    assert(u1[18] == '1' && u2[18] == '2');
    let c: Seq<Seq<char>> = if rest1 != 0 {
        seq![u1]
    } else {
        seq![]
    };
    let d: Seq<Seq<char>> = if rest2 != 0 {
        seq![u2]
    } else {
        seq![]
    };
    vstd::seq_lib::lemma_no_dup_in_concat(named_ab, c);
    let abc = named_ab + c;
    assert forall|k: int| 0 <= k < abc.len() implies #[trigger] abc[k] != u2 by {
        if k < named_ab.len() {
            assert(abc[k] == named_ab[k]);
        } else {
            assert(abc[k] == u1);
        }
    }
    vstd::seq_lib::lemma_no_dup_in_concat(abc, d);
    assert(s.error_list() == abc + d);
}

proof fn lemma_named_lists(table: Seq<(u8, Seq<char>)>, bits: u8, i: int)
    requires
        0 <= i < table.len(),
        bits & table[i].0 != 0,
    ensures
        named(table, bits).contains(table[i].1),
    decreases table.len(),
{
    let last = table.len() - 1;
    if i == last {
        let n = named(table, bits);
        assert(n[n.len() - 1] == table[i].1);
    } else {
        let t = table.drop_last();
        assert(t[i] == table[i]);
        lemma_named_lists(t, bits, i);
        let prev = named(t, bits);
        let k = choose|k: int| 0 <= k < prev.len() && prev[k] == table[i].1;
        if bits & table.last().0 != 0 {
            assert(named(table, bits)[k] == prev[k]);
        }
    }
}

/// Every set error bit that the series' own table names is listed as a
/// cause under that table's name: error 1 of the first table, error 2 of
/// the second.
pub proof fn lemma_named_bit_listed(s: Status, second: bool, i: int)
    requires
        0 <= i < error_table(s.series, second).len(),
        (if second {
            s.error2
        } else {
            s.error1
        }) & error_table(s.series, second)[i].0 != 0,
    ensures
        s.error_list().contains(error_table(s.series, second)[i].1),
{
    let t1 = error_table(s.series, false);
    let t2 = error_table(s.series, true);
    let a = named(t1, s.error1);
    let b = named(t2, s.error2);
    let list = s.error_list();
    let name = error_table(s.series, second)[i].1;
    if second {
        lemma_named_lists(t2, s.error2, i);
        let k = choose|k: int| 0 <= k < b.len() && b[k] == name;
        assert(list[a.len() + k] == name);
    } else {
        lemma_named_lists(t1, s.error1, i);
        let k = choose|k: int| 0 <= k < a.len() && a[k] == name;
        assert(list[k] == name);
    }
}

/// No more causes are listed than error bits are set.
pub proof fn lemma_errors_at_most_set_bits(s: Status)
    ensures
        s.error_list().len() <= bit_count(s.error1) + bit_count(s.error2),
{
    let t1 = error_table(s.series, false);
    let t2 = error_table(s.series, true);
    lemma_tables_single_bit(s.series, false);
    lemma_tables_single_bit(s.series, true);
    lemma_named_len(t1, s.error1);
    lemma_named_len(t2, s.error2);
    let m1 = table_mask(t1);
    let m2 = table_mask(t2);
    lemma_bit_count_facts(s.error1, m1, 0);
    lemma_bit_count_facts(s.error2, m2, 0);
    lemma_bit_count_facts(s.error1 & !m1, 0, 0);
    lemma_bit_count_facts(s.error2 & !m2, 0, 0);
}

/// A status reads `READY (<media>)` exactly when no error bit is set, and
/// `ERROR: ` with its causes otherwise.
pub proof fn lemma_display_ready_iff_no_error(s: Status)
    ensures
        !s.in_error() ==> s.display() == "READY ("@ + s.media_text() + ")"@,
        s.in_error() ==> s.display() == "ERROR: "@ + join(s.error_list(), ", "@),
{
    lemma_has_error_iff_errors_listed(s);
}

} // verus!
