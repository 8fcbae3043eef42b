//! Which model names select which device.
//!
//! Each device answers to a short list of names, compared without regard to
//! ASCII case: its model name, and the number after the family prefix; a
//! dual-named model answers to both of its names in both forms. No two
//! devices share a name, so no query selects two devices.
use vstd::prelude::*;
use crate::device::{model_prefix, name_matches, part_matches, qualified, Device};
use crate::text::{
    ascii_fold, eq_ignore_ascii_case, lemma_first_index_is, lemma_trim_plain, split, split_once,
    trim,
};

verus! {

/// The names that select a device, compared ignoring ASCII case once the
/// query is trimmed.
pub open spec fn accepted_names(d: Device) -> Seq<Seq<char>> {
    match d {
        Device::Pt2300 => seq![d.name(), "PT-2300"@, "2300"@, "2310"@, "PT-2310"@],
        _ => seq![d.name(), d.name().skip(3)],
    }
}

/// `c` occurs in `s`.
pub open spec fn contains_char(s: Seq<char>, c: char) -> bool
    decreases s.len(),
{
    s.len() > 0 && (s[0] == c || contains_char(s.drop_first(), c))
}

proof fn lemma_contains_char(s: Seq<char>, c: char)
    ensures
        !contains_char(s, c) ==> forall|m: int| 0 <= m < s.len() ==> s[m] != c,
    decreases s.len(),
{
    if s.len() > 0 {
        lemma_contains_char(s.drop_first(), c);
        if !contains_char(s, c) {
            assert forall|m: int| 0 <= m < s.len() implies s[m] != c by {
                if m > 0 {
                    assert(s[m] == s.drop_first()[m - 1]);
                }
            }
        }
    }
}

/// A number that two strings share when they are equal ignoring ASCII case:
/// their case-folded characters read as digits in base 2^21.
pub open spec fn fold_key(s: Seq<char>) -> int
    decreases s.len(),
{
    if s.len() == 0 {
        0
    } else {
        fold_key(s.drop_last()) * 0x200000 + ascii_fold(s.last()) as int
    }
}

proof fn lemma_fold_key_ignores_case(a: Seq<char>, b: Seq<char>)
    requires
        eq_ignore_ascii_case(a, b),
    ensures
        fold_key(a) == fold_key(b),
    decreases a.len(),
{
    if a.len() > 0 {
        assert(ascii_fold(a[a.len() - 1]) == ascii_fold(b[b.len() - 1]));
        assert forall|i: int| 0 <= i < a.drop_last().len() implies #[trigger] ascii_fold(
            a.drop_last()[i],
        ) == ascii_fold(b.drop_last()[i]) by {
            assert(ascii_fold(a[i]) == ascii_fold(b[i]));
        }
        lemma_fold_key_ignores_case(a.drop_last(), b.drop_last());
    }
}

proof fn lemma_eq_ignore_case_symmetric(a: Seq<char>, b: Seq<char>)
    requires
        eq_ignore_ascii_case(a, b),
    ensures
        eq_ignore_ascii_case(b, a),
{
    assert forall|i: int| 0 <= i < b.len() implies #[trigger] ascii_fold(b[i]) == ascii_fold(a[i]) by {
        assert(ascii_fold(a[i]) == ascii_fold(b[i]));
    }
}

/// The device whose accepted name has the fold key `k`.
spec fn key_owner(k: int) -> Option<Device> {
    if k == 4543261994984710431673095404126322 {
        Some(Device::Pt18R)
    } else if k == 215504396484722 {
        Some(Device::Pt18R)
    } else if k == 41904195640647020885769864534800776507023139266363491 {
        Some(Device::Pt1230Pc)
    } else if k == 1987677108298989785435156451950691 {
        Some(Device::Pt1230Pc)
    } else if k == 386497986298835530072215998399778860049277794660458912600883446090301488 {
        Some(Device::Pt2300)
    } else if k == 9527910979306175451213318723000808243248 {
        Some(Device::Pt2300)
    } else if k == 461168826143211520048 {
        Some(Device::Pt2300)
    } else if k == 461168826143213617200 {
        Some(Device::Pt2300)
    } else if k == 9527910979306175451213318723000810340400 {
        Some(Device::Pt2300)
    } else if k == 41904195640647020885810429392693696852167130504757347 {
        Some(Device::Pt2420Pc)
    } else if k == 2028241966191910130579147690344547 {
        Some(Device::Pt2420Pc)
    } else if k == 41904195640647020885810429392693706075539167359533155 {
        Some(Device::Pt2430Pc)
    } else if k == 2028241966191919353951184545120355 {
        Some(Device::Pt2430Pc)
    } else if k == 9527910979306175451213318740593000579120 {
        Some(Device::Pt2730)
    } else if k == 461168843735403855920 {
        Some(Device::Pt2730)
    } else if k == 9527910979306175451259435596379221655600 {
        Some(Device::Pt7600)
    } else if k == 507285699521624932400 {
        Some(Device::Pt7600)
    } else if k == 9527910979306175451674487338037686566960 {
        Some(Device::PtD600)
    } else if k == 922337441180089843760 {
        Some(Device::PtD600)
    } else if k == 19981477566073904460849397273830894479446376567 {
        Some(Device::PtE550W)
    } else if k == 1953624613336191796194050167 {
        Some(Device::PtE550W)
    } else if k == 9527910979306175451785167806877990387760 {
        Some(Device::PtP700)
    } else if k == 1033017910020393664560 {
        Some(Device::PtP700)
    } else if k == 19981477566073904461062168236529813287904215159 {
        Some(Device::PtP750W)
    } else if k == 2166395576035110604651888759 {
        Some(Device::PtP750W)
    } else if k == 9527910979306175451785167815674083409968 {
        Some(Device::PtP900)
    } else if k == 1033017918816486686768 {
        Some(Device::PtP900)
    } else if k == 4583826659449508861866047713574960 {
        Some(Device::Ql500)
    } else if k == 233096565751856 {
        Some(Device::Ql500)
    } else if k == 4583826659449508861866047724060720 {
        Some(Device::Ql550)
    } else if k == 233096576237616 {
        Some(Device::Ql550)
    } else if k == 4583826659449508861866047726157872 {
        Some(Device::Ql560)
    } else if k == 233096578334768 {
        Some(Device::Ql560)
    } else if k == 4583826659449508861866047728255024 {
        Some(Device::Ql570)
    } else if k == 233096580431920 {
        Some(Device::Ql570)
    } else if k == 4583826659449508861870445760086064 {
        Some(Device::Ql600)
    } else if k == 237494612262960 {
        Some(Device::Ql600)
    } else if k == 20159882847097415603195643876912643378488803428 {
        Some(Device::Ql650Td)
    } else if k == 1044512396985968666725056612 {
        Some(Device::Ql650Td)
    } else if k == 4583826659449508861874843806597168 {
        Some(Device::Ql700)
    } else if k == 241892658774064 {
        Some(Device::Ql700)
    } else if k == 9612981246517856408698552443090910576759 {
        Some(Device::Ql710W)
    } else if k == 507285677531392376951 {
        Some(Device::Ql710W)
    } else if k == 20159882847097415603214986662356361334707191927 {
        Some(Device::Ql720NW)
    } else if k == 1063855182429686622943445111 {
        Some(Device::Ql720NW)
    } else if k == 4583826659449508861879241853108272 {
        Some(Device::Ql800)
    } else if k == 246290705285168 {
        Some(Device::Ql800)
    } else if k == 9612981246517856408707775815127765352567 {
        Some(Device::Ql810W)
    } else if k == 516509049568247152759 {
        Some(Device::Ql810W)
    } else if k == 42278338632556039327154080528141271226651751466664034 {
        Some(Device::Ql820NWB)
    } else if k == 2271630842750085501526986303996002 {
        Some(Device::Ql820NWB)
    } else if k == 9612981246517856408643212206471745896496 {
        Some(Device::Ql1050)
    } else if k == 451945440912227696688 {
        Some(Device::Ql1050)
    } else if k == 20159882847097415603098929765226639248374890606 {
        Some(Device::Ql1060N)
    } else if k == 947798285299964536611143790 {
        Some(Device::Ql1060N)
    } else if k == 9612981246517856408643212210869781921840 {
        Some(Device::Ql1100)
    } else if k == 451945445310263722032 {
        Some(Device::Ql1100)
    } else if k == 88664102419942162986424340105076081059392192209116739928162 {
        Some(Device::Ql1110NWB)
    } else if k == 4168460982458585133575340698697151283298 {
        Some(Device::Ql1110NWB)
    } else if k == 88664102419942162986424340105076081059438309069301013807202 {
        Some(Device::Ql1115NWB)
    } else if k == 4168460982458585133621457558881425162338 {
        Some(Device::Ql1115NWB)
    } else {
        None
    }
}

/// Every model name but the dual one is a two-letter family, `-`, and a
/// number, with no `/`.
proof fn lemma_name_shape(d: Device)
    ensures
        d != Device::Pt2300 ==> {
            &&& d.name().len() > 3
            &&& d.name()[0] != '-'
            &&& d.name()[1] != '-'
            &&& d.name()[2] == '-'
            &&& !contains_char(d.name(), '/')
        },
{
    reveal_with_fuel(contains_char, 13);
    match d {
        Device::Pt18R => {
            reveal_strlit("PT-18R");
            assert(!contains_char(d.name(), '/'));
        },
        Device::Pt1230Pc => {
            reveal_strlit("PT-1230PC");
            assert(!contains_char(d.name(), '/'));
        },
        Device::Pt2300 => {},
        Device::Pt2420Pc => {
            reveal_strlit("PT-2420PC");
            assert(!contains_char(d.name(), '/'));
        },
        Device::Pt2430Pc => {
            reveal_strlit("PT-2430PC");
            assert(!contains_char(d.name(), '/'));
        },
        Device::Pt2730 => {
            reveal_strlit("PT-2730");
            assert(!contains_char(d.name(), '/'));
        },
        Device::Pt7600 => {
            reveal_strlit("PT-7600");
            assert(!contains_char(d.name(), '/'));
        },
        Device::PtD600 => {
            reveal_strlit("PT-D600");
            assert(!contains_char(d.name(), '/'));
        },
        Device::PtE550W => {
            reveal_strlit("PT-E550W");
            assert(!contains_char(d.name(), '/'));
        },
        Device::PtP700 => {
            reveal_strlit("PT-P700");
            assert(!contains_char(d.name(), '/'));
        },
        Device::PtP750W => {
            reveal_strlit("PT-P750W");
            assert(!contains_char(d.name(), '/'));
        },
        Device::PtP900 => {
            reveal_strlit("PT-P900");
            assert(!contains_char(d.name(), '/'));
        },
        Device::Ql500 => {
            reveal_strlit("QL-500");
            assert(!contains_char(d.name(), '/'));
        },
        Device::Ql550 => {
            reveal_strlit("QL-550");
            assert(!contains_char(d.name(), '/'));
        },
        Device::Ql560 => {
            reveal_strlit("QL-560");
            assert(!contains_char(d.name(), '/'));
        },
        Device::Ql570 => {
            reveal_strlit("QL-570");
            assert(!contains_char(d.name(), '/'));
        },
        Device::Ql600 => {
            reveal_strlit("QL-600");
            assert(!contains_char(d.name(), '/'));
        },
        Device::Ql650Td => {
            reveal_strlit("QL-650TD");
            assert(!contains_char(d.name(), '/'));
        },
        Device::Ql700 => {
            reveal_strlit("QL-700");
            assert(!contains_char(d.name(), '/'));
        },
        Device::Ql710W => {
            reveal_strlit("QL-710W");
            assert(!contains_char(d.name(), '/'));
        },
        Device::Ql720NW => {
            reveal_strlit("QL-720NW");
            assert(!contains_char(d.name(), '/'));
        },
        Device::Ql800 => {
            reveal_strlit("QL-800");
            assert(!contains_char(d.name(), '/'));
        },
        Device::Ql810W => {
            reveal_strlit("QL-810W");
            assert(!contains_char(d.name(), '/'));
        },
        Device::Ql820NWB => {
            reveal_strlit("QL-820NWB");
            assert(!contains_char(d.name(), '/'));
        },
        Device::Ql1050 => {
            reveal_strlit("QL-1050");
            assert(!contains_char(d.name(), '/'));
        },
        Device::Ql1060N => {
            reveal_strlit("QL-1060N");
            assert(!contains_char(d.name(), '/'));
        },
        Device::Ql1100 => {
            reveal_strlit("QL-1100");
            assert(!contains_char(d.name(), '/'));
        },
        Device::Ql1110NWB => {
            reveal_strlit("QL-1110NWB");
            assert(!contains_char(d.name(), '/'));
        },
        Device::Ql1115NWB => {
            reveal_strlit("QL-1115NWB");
            assert(!contains_char(d.name(), '/'));
        },
    }
}

/// Each accepted name of `d` has the fold key the owner table gives `d`,
/// and no white space at its ends.
spec fn accepted_facts(d: Device) -> bool {
    &&& forall|i: int|
        0 <= i < accepted_names(d).len() ==> key_owner(fold_key(#[trigger] accepted_names(d)[i]))
            == Some(d)
    &&& forall|i: int|
        0 <= i < accepted_names(d).len() ==> trim(#[trigger] accepted_names(d)[i])
            == accepted_names(d)[i] && accepted_names(d)[i].len() > 0
}

proof fn lemma_accepted_facts(d: Device)
    ensures
        accepted_facts(d),
{
    match d {
        Device::Pt18R => lemma_facts_pt18_r(),
        Device::Pt1230Pc => lemma_facts_pt1230_pc(),
        Device::Pt2300 => lemma_facts_pt2300(),
        Device::Pt2420Pc => lemma_facts_pt2420_pc(),
        Device::Pt2430Pc => lemma_facts_pt2430_pc(),
        Device::Pt2730 => lemma_facts_pt2730(),
        Device::Pt7600 => lemma_facts_pt7600(),
        Device::PtD600 => lemma_facts_pt_d600(),
        Device::PtE550W => lemma_facts_pt_e550_w(),
        Device::PtP700 => lemma_facts_pt_p700(),
        Device::PtP750W => lemma_facts_pt_p750_w(),
        Device::PtP900 => lemma_facts_pt_p900(),
        Device::Ql500 => lemma_facts_ql500(),
        Device::Ql550 => lemma_facts_ql550(),
        Device::Ql560 => lemma_facts_ql560(),
        Device::Ql570 => lemma_facts_ql570(),
        Device::Ql600 => lemma_facts_ql600(),
        Device::Ql650Td => lemma_facts_ql650_td(),
        Device::Ql700 => lemma_facts_ql700(),
        Device::Ql710W => lemma_facts_ql710_w(),
        Device::Ql720NW => lemma_facts_ql720_n_w(),
        Device::Ql800 => lemma_facts_ql800(),
        Device::Ql810W => lemma_facts_ql810_w(),
        Device::Ql820NWB => lemma_facts_ql820_n_w_b(),
        Device::Ql1050 => lemma_facts_ql1050(),
        Device::Ql1060N => lemma_facts_ql1060_n(),
        Device::Ql1100 => lemma_facts_ql1100(),
        Device::Ql1110NWB => lemma_facts_ql1110_n_w_b(),
        Device::Ql1115NWB => lemma_facts_ql1115_n_w_b(),
    }
}

proof fn lemma_facts_pt18_r()
    ensures
        accepted_facts(Device::Pt18R),
{
    reveal_with_fuel(fold_key, 13);
    let d = Device::Pt18R;
    let a = accepted_names(d);
    reveal_strlit("PT-18R");
    assert(fold_key(a[0]) == 4543261994984710431673095404126322);
    lemma_trim_plain(a[0]);
    assert(fold_key(a[1]) == 215504396484722);
    lemma_trim_plain(a[1]);
    assert forall|i: int| 0 <= i < a.len() implies key_owner(fold_key(#[trigger] a[i])) == Some(d) && trim(a[i]) == a[i] && a[i].len() > 0 by {
        if i == 0 {}
    }
}

proof fn lemma_facts_pt1230_pc()
    ensures
        accepted_facts(Device::Pt1230Pc),
{
    reveal_with_fuel(fold_key, 13);
    let d = Device::Pt1230Pc;
    let a = accepted_names(d);
    reveal_strlit("PT-1230PC");
    assert(fold_key(a[0]) == 41904195640647020885769864534800776507023139266363491);
    lemma_trim_plain(a[0]);
    assert(fold_key(a[1]) == 1987677108298989785435156451950691);
    lemma_trim_plain(a[1]);
    assert forall|i: int| 0 <= i < a.len() implies key_owner(fold_key(#[trigger] a[i])) == Some(d) && trim(a[i]) == a[i] && a[i].len() > 0 by {
        if i == 0 {}
    }
}

proof fn lemma_facts_pt2300()
    ensures
        accepted_facts(Device::Pt2300),
{
    reveal_with_fuel(fold_key, 13);
    let d = Device::Pt2300;
    let a = accepted_names(d);
    reveal_strlit("PT-2300/2310");
    reveal_strlit("PT-2300");
    reveal_strlit("2300");
    reveal_strlit("2310");
    reveal_strlit("PT-2310");
    assert(fold_key(a[0]) == 386497986298835530072215998399778860049277794660458912600883446090301488);
    lemma_trim_plain(a[0]);
    assert(fold_key(a[1]) == 9527910979306175451213318723000808243248);
    lemma_trim_plain(a[1]);
    assert(fold_key(a[2]) == 461168826143211520048);
    lemma_trim_plain(a[2]);
    assert(fold_key(a[3]) == 461168826143213617200);
    lemma_trim_plain(a[3]);
    assert(fold_key(a[4]) == 9527910979306175451213318723000810340400);
    lemma_trim_plain(a[4]);
    assert forall|i: int| 0 <= i < a.len() implies key_owner(fold_key(#[trigger] a[i])) == Some(d) && trim(a[i]) == a[i] && a[i].len() > 0 by {
        if i == 0 {} else if i == 1 {} else if i == 2 {} else if i == 3 {}
    }
}

proof fn lemma_facts_pt2420_pc()
    ensures
        accepted_facts(Device::Pt2420Pc),
{
    reveal_with_fuel(fold_key, 13);
    let d = Device::Pt2420Pc;
    let a = accepted_names(d);
    reveal_strlit("PT-2420PC");
    assert(fold_key(a[0]) == 41904195640647020885810429392693696852167130504757347);
    lemma_trim_plain(a[0]);
    assert(fold_key(a[1]) == 2028241966191910130579147690344547);
    lemma_trim_plain(a[1]);
    assert forall|i: int| 0 <= i < a.len() implies key_owner(fold_key(#[trigger] a[i])) == Some(d) && trim(a[i]) == a[i] && a[i].len() > 0 by {
        if i == 0 {}
    }
}

proof fn lemma_facts_pt2430_pc()
    ensures
        accepted_facts(Device::Pt2430Pc),
{
    reveal_with_fuel(fold_key, 13);
    let d = Device::Pt2430Pc;
    let a = accepted_names(d);
    reveal_strlit("PT-2430PC");
    assert(fold_key(a[0]) == 41904195640647020885810429392693706075539167359533155);
    lemma_trim_plain(a[0]);
    assert(fold_key(a[1]) == 2028241966191919353951184545120355);
    lemma_trim_plain(a[1]);
    assert forall|i: int| 0 <= i < a.len() implies key_owner(fold_key(#[trigger] a[i])) == Some(d) && trim(a[i]) == a[i] && a[i].len() > 0 by {
        if i == 0 {}
    }
}

proof fn lemma_facts_pt2730()
    ensures
        accepted_facts(Device::Pt2730),
{
    reveal_with_fuel(fold_key, 13);
    let d = Device::Pt2730;
    let a = accepted_names(d);
    reveal_strlit("PT-2730");
    assert(fold_key(a[0]) == 9527910979306175451213318740593000579120);
    lemma_trim_plain(a[0]);
    assert(fold_key(a[1]) == 461168843735403855920);
    lemma_trim_plain(a[1]);
    assert forall|i: int| 0 <= i < a.len() implies key_owner(fold_key(#[trigger] a[i])) == Some(d) && trim(a[i]) == a[i] && a[i].len() > 0 by {
        if i == 0 {}
    }
}

proof fn lemma_facts_pt7600()
    ensures
        accepted_facts(Device::Pt7600),
{
    reveal_with_fuel(fold_key, 13);
    let d = Device::Pt7600;
    let a = accepted_names(d);
    reveal_strlit("PT-7600");
    assert(fold_key(a[0]) == 9527910979306175451259435596379221655600);
    lemma_trim_plain(a[0]);
    assert(fold_key(a[1]) == 507285699521624932400);
    lemma_trim_plain(a[1]);
    assert forall|i: int| 0 <= i < a.len() implies key_owner(fold_key(#[trigger] a[i])) == Some(d) && trim(a[i]) == a[i] && a[i].len() > 0 by {
        if i == 0 {}
    }
}

proof fn lemma_facts_pt_d600()
    ensures
        accepted_facts(Device::PtD600),
{
    reveal_with_fuel(fold_key, 13);
    let d = Device::PtD600;
    let a = accepted_names(d);
    reveal_strlit("PT-D600");
    assert(fold_key(a[0]) == 9527910979306175451674487338037686566960);
    lemma_trim_plain(a[0]);
    assert(fold_key(a[1]) == 922337441180089843760);
    lemma_trim_plain(a[1]);
    assert forall|i: int| 0 <= i < a.len() implies key_owner(fold_key(#[trigger] a[i])) == Some(d) && trim(a[i]) == a[i] && a[i].len() > 0 by {
        if i == 0 {}
    }
}

proof fn lemma_facts_pt_e550_w()
    ensures
        accepted_facts(Device::PtE550W),
{
    reveal_with_fuel(fold_key, 13);
    let d = Device::PtE550W;
    let a = accepted_names(d);
    reveal_strlit("PT-E550W");
    assert(fold_key(a[0]) == 19981477566073904460849397273830894479446376567);
    lemma_trim_plain(a[0]);
    assert(fold_key(a[1]) == 1953624613336191796194050167);
    lemma_trim_plain(a[1]);
    assert forall|i: int| 0 <= i < a.len() implies key_owner(fold_key(#[trigger] a[i])) == Some(d) && trim(a[i]) == a[i] && a[i].len() > 0 by {
        if i == 0 {}
    }
}

proof fn lemma_facts_pt_p700()
    ensures
        accepted_facts(Device::PtP700),
{
    reveal_with_fuel(fold_key, 13);
    let d = Device::PtP700;
    let a = accepted_names(d);
    reveal_strlit("PT-P700");
    assert(fold_key(a[0]) == 9527910979306175451785167806877990387760);
    lemma_trim_plain(a[0]);
    assert(fold_key(a[1]) == 1033017910020393664560);
    lemma_trim_plain(a[1]);
    assert forall|i: int| 0 <= i < a.len() implies key_owner(fold_key(#[trigger] a[i])) == Some(d) && trim(a[i]) == a[i] && a[i].len() > 0 by {
        if i == 0 {}
    }
}

proof fn lemma_facts_pt_p750_w()
    ensures
        accepted_facts(Device::PtP750W),
{
    reveal_with_fuel(fold_key, 13);
    let d = Device::PtP750W;
    let a = accepted_names(d);
    reveal_strlit("PT-P750W");
    assert(fold_key(a[0]) == 19981477566073904461062168236529813287904215159);
    lemma_trim_plain(a[0]);
    assert(fold_key(a[1]) == 2166395576035110604651888759);
    lemma_trim_plain(a[1]);
    assert forall|i: int| 0 <= i < a.len() implies key_owner(fold_key(#[trigger] a[i])) == Some(d) && trim(a[i]) == a[i] && a[i].len() > 0 by {
        if i == 0 {}
    }
}

proof fn lemma_facts_pt_p900()
    ensures
        accepted_facts(Device::PtP900),
{
    reveal_with_fuel(fold_key, 13);
    let d = Device::PtP900;
    let a = accepted_names(d);
    reveal_strlit("PT-P900");
    assert(fold_key(a[0]) == 9527910979306175451785167815674083409968);
    lemma_trim_plain(a[0]);
    assert(fold_key(a[1]) == 1033017918816486686768);
    lemma_trim_plain(a[1]);
    assert forall|i: int| 0 <= i < a.len() implies key_owner(fold_key(#[trigger] a[i])) == Some(d) && trim(a[i]) == a[i] && a[i].len() > 0 by {
        if i == 0 {}
    }
}

proof fn lemma_facts_ql500()
    ensures
        accepted_facts(Device::Ql500),
{
    reveal_with_fuel(fold_key, 13);
    let d = Device::Ql500;
    let a = accepted_names(d);
    reveal_strlit("QL-500");
    assert(fold_key(a[0]) == 4583826659449508861866047713574960);
    lemma_trim_plain(a[0]);
    assert(fold_key(a[1]) == 233096565751856);
    lemma_trim_plain(a[1]);
    assert forall|i: int| 0 <= i < a.len() implies key_owner(fold_key(#[trigger] a[i])) == Some(d) && trim(a[i]) == a[i] && a[i].len() > 0 by {
        if i == 0 {}
    }
}

proof fn lemma_facts_ql550()
    ensures
        accepted_facts(Device::Ql550),
{
    reveal_with_fuel(fold_key, 13);
    let d = Device::Ql550;
    let a = accepted_names(d);
    reveal_strlit("QL-550");
    assert(fold_key(a[0]) == 4583826659449508861866047724060720);
    lemma_trim_plain(a[0]);
    assert(fold_key(a[1]) == 233096576237616);
    lemma_trim_plain(a[1]);
    assert forall|i: int| 0 <= i < a.len() implies key_owner(fold_key(#[trigger] a[i])) == Some(d) && trim(a[i]) == a[i] && a[i].len() > 0 by {
        if i == 0 {}
    }
}

proof fn lemma_facts_ql560()
    ensures
        accepted_facts(Device::Ql560),
{
    reveal_with_fuel(fold_key, 13);
    let d = Device::Ql560;
    let a = accepted_names(d);
    reveal_strlit("QL-560");
    assert(fold_key(a[0]) == 4583826659449508861866047726157872);
    lemma_trim_plain(a[0]);
    assert(fold_key(a[1]) == 233096578334768);
    lemma_trim_plain(a[1]);
    assert forall|i: int| 0 <= i < a.len() implies key_owner(fold_key(#[trigger] a[i])) == Some(d) && trim(a[i]) == a[i] && a[i].len() > 0 by {
        if i == 0 {}
    }
}

proof fn lemma_facts_ql570()
    ensures
        accepted_facts(Device::Ql570),
{
    reveal_with_fuel(fold_key, 13);
    let d = Device::Ql570;
    let a = accepted_names(d);
    reveal_strlit("QL-570");
    assert(fold_key(a[0]) == 4583826659449508861866047728255024);
    lemma_trim_plain(a[0]);
    assert(fold_key(a[1]) == 233096580431920);
    lemma_trim_plain(a[1]);
    assert forall|i: int| 0 <= i < a.len() implies key_owner(fold_key(#[trigger] a[i])) == Some(d) && trim(a[i]) == a[i] && a[i].len() > 0 by {
        if i == 0 {}
    }
}

proof fn lemma_facts_ql600()
    ensures
        accepted_facts(Device::Ql600),
{
    reveal_with_fuel(fold_key, 13);
    let d = Device::Ql600;
    let a = accepted_names(d);
    reveal_strlit("QL-600");
    assert(fold_key(a[0]) == 4583826659449508861870445760086064);
    lemma_trim_plain(a[0]);
    assert(fold_key(a[1]) == 237494612262960);
    lemma_trim_plain(a[1]);
    assert forall|i: int| 0 <= i < a.len() implies key_owner(fold_key(#[trigger] a[i])) == Some(d) && trim(a[i]) == a[i] && a[i].len() > 0 by {
        if i == 0 {}
    }
}

proof fn lemma_facts_ql650_td()
    ensures
        accepted_facts(Device::Ql650Td),
{
    reveal_with_fuel(fold_key, 13);
    let d = Device::Ql650Td;
    let a = accepted_names(d);
    reveal_strlit("QL-650TD");
    assert(fold_key(a[0]) == 20159882847097415603195643876912643378488803428);
    lemma_trim_plain(a[0]);
    assert(fold_key(a[1]) == 1044512396985968666725056612);
    lemma_trim_plain(a[1]);
    assert forall|i: int| 0 <= i < a.len() implies key_owner(fold_key(#[trigger] a[i])) == Some(d) && trim(a[i]) == a[i] && a[i].len() > 0 by {
        if i == 0 {}
    }
}

proof fn lemma_facts_ql700()
    ensures
        accepted_facts(Device::Ql700),
{
    reveal_with_fuel(fold_key, 13);
    let d = Device::Ql700;
    let a = accepted_names(d);
    reveal_strlit("QL-700");
    assert(fold_key(a[0]) == 4583826659449508861874843806597168);
    lemma_trim_plain(a[0]);
    assert(fold_key(a[1]) == 241892658774064);
    lemma_trim_plain(a[1]);
    assert forall|i: int| 0 <= i < a.len() implies key_owner(fold_key(#[trigger] a[i])) == Some(d) && trim(a[i]) == a[i] && a[i].len() > 0 by {
        if i == 0 {}
    }
}

proof fn lemma_facts_ql710_w()
    ensures
        accepted_facts(Device::Ql710W),
{
    reveal_with_fuel(fold_key, 13);
    let d = Device::Ql710W;
    let a = accepted_names(d);
    reveal_strlit("QL-710W");
    assert(fold_key(a[0]) == 9612981246517856408698552443090910576759);
    lemma_trim_plain(a[0]);
    assert(fold_key(a[1]) == 507285677531392376951);
    lemma_trim_plain(a[1]);
    assert forall|i: int| 0 <= i < a.len() implies key_owner(fold_key(#[trigger] a[i])) == Some(d) && trim(a[i]) == a[i] && a[i].len() > 0 by {
        if i == 0 {}
    }
}

proof fn lemma_facts_ql720_n_w()
    ensures
        accepted_facts(Device::Ql720NW),
{
    reveal_with_fuel(fold_key, 13);
    let d = Device::Ql720NW;
    let a = accepted_names(d);
    reveal_strlit("QL-720NW");
    assert(fold_key(a[0]) == 20159882847097415603214986662356361334707191927);
    lemma_trim_plain(a[0]);
    assert(fold_key(a[1]) == 1063855182429686622943445111);
    lemma_trim_plain(a[1]);
    assert forall|i: int| 0 <= i < a.len() implies key_owner(fold_key(#[trigger] a[i])) == Some(d) && trim(a[i]) == a[i] && a[i].len() > 0 by {
        if i == 0 {}
    }
}

proof fn lemma_facts_ql800()
    ensures
        accepted_facts(Device::Ql800),
{
    reveal_with_fuel(fold_key, 13);
    let d = Device::Ql800;
    let a = accepted_names(d);
    reveal_strlit("QL-800");
    assert(fold_key(a[0]) == 4583826659449508861879241853108272);
    lemma_trim_plain(a[0]);
    assert(fold_key(a[1]) == 246290705285168);
    lemma_trim_plain(a[1]);
    assert forall|i: int| 0 <= i < a.len() implies key_owner(fold_key(#[trigger] a[i])) == Some(d) && trim(a[i]) == a[i] && a[i].len() > 0 by {
        if i == 0 {}
    }
}

proof fn lemma_facts_ql810_w()
    ensures
        accepted_facts(Device::Ql810W),
{
    reveal_with_fuel(fold_key, 13);
    let d = Device::Ql810W;
    let a = accepted_names(d);
    reveal_strlit("QL-810W");
    assert(fold_key(a[0]) == 9612981246517856408707775815127765352567);
    lemma_trim_plain(a[0]);
    assert(fold_key(a[1]) == 516509049568247152759);
    lemma_trim_plain(a[1]);
    assert forall|i: int| 0 <= i < a.len() implies key_owner(fold_key(#[trigger] a[i])) == Some(d) && trim(a[i]) == a[i] && a[i].len() > 0 by {
        if i == 0 {}
    }
}

proof fn lemma_facts_ql820_n_w_b()
    ensures
        accepted_facts(Device::Ql820NWB),
{
    reveal_with_fuel(fold_key, 13);
    let d = Device::Ql820NWB;
    let a = accepted_names(d);
    reveal_strlit("QL-820NWB");
    assert(fold_key(a[0]) == 42278338632556039327154080528141271226651751466664034);
    lemma_trim_plain(a[0]);
    assert(fold_key(a[1]) == 2271630842750085501526986303996002);
    lemma_trim_plain(a[1]);
    assert forall|i: int| 0 <= i < a.len() implies key_owner(fold_key(#[trigger] a[i])) == Some(d) && trim(a[i]) == a[i] && a[i].len() > 0 by {
        if i == 0 {}
    }
}

proof fn lemma_facts_ql1050()
    ensures
        accepted_facts(Device::Ql1050),
{
    reveal_with_fuel(fold_key, 13);
    let d = Device::Ql1050;
    let a = accepted_names(d);
    reveal_strlit("QL-1050");
    assert(fold_key(a[0]) == 9612981246517856408643212206471745896496);
    lemma_trim_plain(a[0]);
    assert(fold_key(a[1]) == 451945440912227696688);
    lemma_trim_plain(a[1]);
    assert forall|i: int| 0 <= i < a.len() implies key_owner(fold_key(#[trigger] a[i])) == Some(d) && trim(a[i]) == a[i] && a[i].len() > 0 by {
        if i == 0 {}
    }
}

proof fn lemma_facts_ql1060_n()
    ensures
        accepted_facts(Device::Ql1060N),
{
    reveal_with_fuel(fold_key, 13);
    let d = Device::Ql1060N;
    let a = accepted_names(d);
    reveal_strlit("QL-1060N");
    assert(fold_key(a[0]) == 20159882847097415603098929765226639248374890606);
    lemma_trim_plain(a[0]);
    assert(fold_key(a[1]) == 947798285299964536611143790);
    lemma_trim_plain(a[1]);
    assert forall|i: int| 0 <= i < a.len() implies key_owner(fold_key(#[trigger] a[i])) == Some(d) && trim(a[i]) == a[i] && a[i].len() > 0 by {
        if i == 0 {}
    }
}

proof fn lemma_facts_ql1100()
    ensures
        accepted_facts(Device::Ql1100),
{
    reveal_with_fuel(fold_key, 13);
    let d = Device::Ql1100;
    let a = accepted_names(d);
    reveal_strlit("QL-1100");
    assert(fold_key(a[0]) == 9612981246517856408643212210869781921840);
    lemma_trim_plain(a[0]);
    assert(fold_key(a[1]) == 451945445310263722032);
    lemma_trim_plain(a[1]);
    assert forall|i: int| 0 <= i < a.len() implies key_owner(fold_key(#[trigger] a[i])) == Some(d) && trim(a[i]) == a[i] && a[i].len() > 0 by {
        if i == 0 {}
    }
}

proof fn lemma_facts_ql1110_n_w_b()
    ensures
        accepted_facts(Device::Ql1110NWB),
{
    reveal_with_fuel(fold_key, 13);
    let d = Device::Ql1110NWB;
    let a = accepted_names(d);
    reveal_strlit("QL-1110NWB");
    assert(fold_key(a[0]) == 88664102419942162986424340105076081059392192209116739928162);
    lemma_trim_plain(a[0]);
    assert(fold_key(a[1]) == 4168460982458585133575340698697151283298);
    lemma_trim_plain(a[1]);
    assert forall|i: int| 0 <= i < a.len() implies key_owner(fold_key(#[trigger] a[i])) == Some(d) && trim(a[i]) == a[i] && a[i].len() > 0 by {
        if i == 0 {}
    }
}

proof fn lemma_facts_ql1115_n_w_b()
    ensures
        accepted_facts(Device::Ql1115NWB),
{
    reveal_with_fuel(fold_key, 13);
    let d = Device::Ql1115NWB;
    let a = accepted_names(d);
    reveal_strlit("QL-1115NWB");
    assert(fold_key(a[0]) == 88664102419942162986424340105076081059438309069301013807202);
    lemma_trim_plain(a[0]);
    assert(fold_key(a[1]) == 4168460982458585133621457558881425162338);
    lemma_trim_plain(a[1]);
    assert forall|i: int| 0 <= i < a.len() implies key_owner(fold_key(#[trigger] a[i])) == Some(d) && trim(a[i]) == a[i] && a[i].len() > 0 by {
        if i == 0 {}
    }
}

/// A query selects a single-part model `full` exactly when, trimmed, it is
/// the name or the number after the family prefix, ignoring ASCII case.
proof fn lemma_single_part(full: Seq<char>, q: Seq<char>)
    requires
        full.len() > 3,
        full[0] != '-',
        full[1] != '-',
        full[2] == '-',
        !contains_char(full, '/'),
    ensures
        name_matches(full, q) <==> (trim(q).len() > 0 && (eq_ignore_ascii_case(full, trim(q))
            || eq_ignore_ascii_case(full.skip(3), trim(q)))),
{
    lemma_contains_char(full, '/');
    lemma_first_index_is(full, '/', full.len() as int);
    assert(split(full, '/') == seq![full]);
    lemma_first_index_is(full, '-', 2);
    assert(split_once(full, '-') == Some((full.take(2), full.skip(3))));
    let prefix = model_prefix(full);
    let t = trim(q);
    assert(qualified(prefix, 0, full) == full);
    assert(part_matches(prefix, 0, full, t) == (eq_ignore_ascii_case(full, t)
        || eq_ignore_ascii_case(full.skip(3), t)));
    if name_matches(full, q) && !eq_ignore_ascii_case(full, t) {
        let i = choose|i: int|
            0 <= i < split(full, '/').len() && #[trigger] part_matches(
                prefix,
                i,
                split(full, '/')[i],
                t,
            );
        assert(i == 0);
    }
    if t.len() > 0 && eq_ignore_ascii_case(full.skip(3), t) {
        assert(part_matches(prefix, 0, split(full, '/')[0], t));
    }
}

/// The dual-named model answers to both of its names, with or without the
/// family prefix, and to the whole model name.
proof fn lemma_dual_name(q: Seq<char>)
    ensures
        name_matches(Device::Pt2300.name(), q) <==> (trim(q).len() > 0 && exists|i: int|
            0 <= i < accepted_names(Device::Pt2300).len() && eq_ignore_ascii_case(
                #[trigger] accepted_names(Device::Pt2300)[i],
                trim(q),
            )),
{
    let full = Device::Pt2300.name();
    let a = accepted_names(Device::Pt2300);
    reveal_strlit("PT-2300/2310");
    reveal_strlit("PT-2300");
    reveal_strlit("2300");
    reveal_strlit("2310");
    reveal_strlit("PT-2310");
    reveal_with_fuel(contains_char, 8);
    let head = full.take(7);
    let rest = full.skip(8);
    assert(head =~= "PT-2300"@);
    assert(rest =~= "2310"@);
    assert(!contains_char(head, '/'));
    assert(!contains_char(rest, '/'));
    lemma_contains_char(head, '/');
    lemma_contains_char(rest, '/');
    assert forall|m: int| 0 <= m < 7 implies full[m] != '/' by {
        assert(full[m] == head[m]);
    }
    lemma_first_index_is(full, '/', 7);
    lemma_first_index_is(rest, '/', 4);
    assert(split(rest, '/') == seq![rest]);
    assert(split(full, '/') =~= seq![head, rest]);
    lemma_first_index_is(full, '-', 2);
    let prefix = full.take(2);
    assert(model_prefix(full) == prefix);
    lemma_first_index_is(head, '-', 2);
    assert(split_once(head, '-') == Some((head.take(2), head.skip(3))));
    assert(head.skip(3) =~= "2300"@);
    let q1 = qualified(prefix, 1, rest);
    assert(q1 =~= "PT-2310"@);
    lemma_first_index_is(q1, '-', 2);
    assert(split_once(q1, '-') == Some((q1.take(2), q1.skip(3))));
    assert(q1.skip(3) =~= "2310"@);
    let t = trim(q);
    assert(part_matches(prefix, 0, head, t) == (eq_ignore_ascii_case(a[1], t)
        || eq_ignore_ascii_case(a[2], t)));
    assert(part_matches(prefix, 1, rest, t) == (eq_ignore_ascii_case(a[3], t)
        || eq_ignore_ascii_case(a[4], t)));
    if name_matches(full, q) {
        if eq_ignore_ascii_case(full, t) {
            assert(eq_ignore_ascii_case(a[0], t));
        } else {
            let i = choose|i: int|
                0 <= i < split(full, '/').len() && #[trigger] part_matches(
                    prefix,
                    i,
                    split(full, '/')[i],
                    t,
                );
            if i == 0 {
                if eq_ignore_ascii_case(a[1], t) {
                    assert(eq_ignore_ascii_case(a[1], t));
                } else {
                    assert(eq_ignore_ascii_case(a[2], t));
                }
            } else {
                if eq_ignore_ascii_case(a[3], t) {
                    assert(eq_ignore_ascii_case(a[3], t));
                } else {
                    assert(eq_ignore_ascii_case(a[4], t));
                }
            }
        }
    }
    if t.len() > 0 && exists|i: int| 0 <= i < a.len() && eq_ignore_ascii_case(#[trigger] a[i], t) {
        let i = choose|i: int| 0 <= i < a.len() && eq_ignore_ascii_case(#[trigger] a[i], t);
        if i == 1 || i == 2 {
            assert(part_matches(prefix, 0, split(full, '/')[0], t));
        } else if i == 3 || i == 4 {
            assert(part_matches(prefix, 1, split(full, '/')[1], t));
        }
    }
}

/// A query selects a device exactly when, trimmed, it is not empty and
/// equals one of the device's accepted names ignoring ASCII case.
pub proof fn lemma_query_selects_by_accepted_names(d: Device, q: Seq<char>)
    ensures
        name_matches(d.name(), q) <==> (trim(q).len() > 0 && exists|i: int|
            0 <= i < accepted_names(d).len() && eq_ignore_ascii_case(
                #[trigger] accepted_names(d)[i],
                trim(q),
            )),
{
    if d == Device::Pt2300 {
        lemma_dual_name(q);
    } else {
        lemma_name_shape(d);
        lemma_single_part(d.name(), q);
        let a = accepted_names(d);
        let t = trim(q);
        if eq_ignore_ascii_case(d.name(), t) {
            assert(eq_ignore_ascii_case(a[0], t));
        }
        if eq_ignore_ascii_case(d.name().skip(3), t) {
            assert(eq_ignore_ascii_case(a[1], t));
        }
    }
}

/// Every accepted name of a device selects it; in particular every model
/// matches its own name and the number after its family prefix.
pub proof fn lemma_accepted_names_select(d: Device, i: int)
    requires
        0 <= i < accepted_names(d).len(),
    ensures
        name_matches(d.name(), accepted_names(d)[i]),
{
    lemma_accepted_facts(d);
    let a = accepted_names(d)[i];
    assert(trim(a) == a);
    assert(eq_ignore_ascii_case(a, a));
    lemma_query_selects_by_accepted_names(d, a);
}

/// No query selects two devices: `--model` is never ambiguous.
pub proof fn lemma_no_query_selects_two_devices(a: Device, b: Device, q: Seq<char>)
    requires
        name_matches(a.name(), q),
        name_matches(b.name(), q),
    ensures
        a == b,
{
    let t = trim(q);
    lemma_query_selects_by_accepted_names(a, q);
    lemma_query_selects_by_accepted_names(b, q);
    let i = choose|i: int|
        0 <= i < accepted_names(a).len() && eq_ignore_ascii_case(#[trigger] accepted_names(a)[i], t);
    let j = choose|j: int|
        0 <= j < accepted_names(b).len() && eq_ignore_ascii_case(#[trigger] accepted_names(b)[j], t);
    lemma_fold_key_ignores_case(accepted_names(a)[i], t);
    lemma_fold_key_ignores_case(accepted_names(b)[j], t);
    lemma_accepted_facts(a);
    lemma_accepted_facts(b);
}

/// Model names are present and unique: no two devices share one.
pub proof fn lemma_model_names_distinct(a: Device, b: Device)
    ensures
        a.name().len() > 0,
        a.name() == b.name() ==> a == b,
{
    lemma_accepted_facts(a);
    lemma_accepted_facts(b);
    assert(accepted_names(a)[0] == a.name());
    assert(accepted_names(b)[0] == b.name());
}

} // verus!
