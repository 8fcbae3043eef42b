//! Text primitives the rest of the library builds on: Unicode white space and
//! trimming, ASCII case folding, decimal and hexadecimal rendering, joining.
//!
//! Strings are handled as character sequences: the view of a `&str` or a
//! `String` is its `Seq<char>`.
use vstd::prelude::*;
use vstd::string::StrSliceExecFns;
use vstd::string::StringExecFns;
use vstd::utf8::valid_utf8;
use vstd::utf8::decode_utf8;
use vstd::utf8::is_ascii_chars;

verus! {

// ---------------------------------------------------------------------------
// White space and trimming
// ---------------------------------------------------------------------------

/// The Unicode `White_Space` property, which `str::trim` strips.
pub open spec fn is_white_space(c: char) -> bool {
    let u = c as u32;
    ||| 0x09 <= u <= 0x0d
    ||| u == 0x20
    ||| u == 0x85
    ||| u == 0xa0
    ||| u == 0x1680
    ||| 0x2000 <= u <= 0x200a
    ||| u == 0x2028
    ||| u == 0x2029
    ||| u == 0x202f
    ||| u == 0x205f
    ||| u == 0x3000
}

/// `true` when `c` is Unicode white space.
pub fn white_space(c: char) -> (r: bool)
    ensures
        r == is_white_space(c),
{
    let u = c as u32;
    (0x09 <= u && u <= 0x0d) || u == 0x20 || u == 0x85 || u == 0xa0 || u == 0x1680 || (0x2000
        <= u && u <= 0x200a) || u == 0x2028 || u == 0x2029 || u == 0x202f || u == 0x205f || u
        == 0x3000
}

/// `s` without its leading white space.
pub open spec fn trim_start(s: Seq<char>) -> Seq<char>
    decreases s.len(),
{
    if s.len() > 0 && is_white_space(s[0]) {
        trim_start(s.drop_first())
    } else {
        s
    }
}

/// `s` without its trailing white space.
pub open spec fn trim_end(s: Seq<char>) -> Seq<char>
    decreases s.len(),
{
    if s.len() > 0 && is_white_space(s.last()) {
        trim_end(s.drop_last())
    } else {
        s
    }
}

/// `s` without leading and trailing white space, as `str::trim` returns it.
pub open spec fn trim(s: Seq<char>) -> Seq<char> {
    trim_end(trim_start(s))
}

/// The characters of `s`.
pub fn chars_of(s: &str) -> (r: Vec<char>)
    ensures
        r@ == s@,
{
    let n = s.unicode_len();
    let mut v: Vec<char> = Vec::new();
    for i in 0..n
        invariant
            n == s@.len(),
            v@ == s@.take(i as int),
    {
        v.push(s.get_char(i));
        assert(v@ =~= s@.take(i + 1));
    }
    assert(v@ =~= s@);
    v
}

/// The characters `s[from..to]`.
pub fn slice_chars(s: &Vec<char>, from: usize, to: usize) -> (r: Vec<char>)
    requires
        from <= to <= s.len(),
    ensures
        r@ == s@.subrange(from as int, to as int),
{
    let mut v: Vec<char> = Vec::new();
    let mut i = from;
    while i < to
        invariant
            from <= i <= to <= s.len(),
            v@ == s@.subrange(from as int, i as int),
        decreases to - i,
    {
        v.push(s[i]);
        i = i + 1;
        assert(v@ =~= s@.subrange(from as int, i as int));
    }
    v
}

/// `s` with leading and trailing white space removed.
pub fn trimmed(s: &Vec<char>) -> (r: Vec<char>)
    ensures
        r@ == trim(s@),
{
    let n = s.len();
    let mut i: usize = 0;
    assert(s@.skip(0) =~= s@);
    while i < n && white_space(s[i])
        invariant
            i <= n == s.len(),
            trim_start(s@) == trim_start(s@.skip(i as int)),
        decreases n - i,
    {
        assert(s@.skip(i as int).drop_first() =~= s@.skip(i + 1));
        i = i + 1;
    }
    assert(trim_start(s@) == s@.skip(i as int));
    let mut j: usize = n;
    assert(s@.skip(i as int) =~= s@.subrange(i as int, n as int));
    while j > i && white_space(s[j - 1])
        invariant
            i <= j <= n == s.len(),
            trim(s@) == trim_end(s@.subrange(i as int, j as int)),
        decreases j,
    {
        assert(s@.subrange(i as int, j as int).drop_last() =~= s@.subrange(i as int, j - 1));
        j = j - 1;
    }
    slice_chars(s, i, j)
}

// ---------------------------------------------------------------------------
// ASCII case
// ---------------------------------------------------------------------------

/// The code of `c` with an ASCII upper-case letter mapped to lower case.
pub open spec fn ascii_fold(c: char) -> u32 {
    let u = c as u32;
    if 0x41 <= u <= 0x5a {
        (u + 0x20) as u32
    } else {
        u
    }
}

/// The code of `c` with an ASCII lower-case letter mapped to upper case.
pub open spec fn ascii_upper(c: char) -> u32 {
    let u = c as u32;
    if 0x61 <= u <= 0x7a {
        (u - 0x20) as u32
    } else {
        u
    }
}

/// `a` and `b` are equal once ASCII letters are compared without case, which
/// is what `str::eq_ignore_ascii_case` decides.
pub open spec fn eq_ignore_ascii_case(a: Seq<char>, b: Seq<char>) -> bool {
    &&& a.len() == b.len()
    &&& forall|i: int| 0 <= i < a.len() ==> #[trigger] ascii_fold(a[i]) == ascii_fold(b[i])
}

/// `a` is `b` with every ASCII lower-case letter in upper case.
pub open spec fn is_ascii_upper_of(a: Seq<char>, b: Seq<char>) -> bool {
    &&& a.len() == b.len()
    &&& forall|i: int| 0 <= i < a.len() ==> #[trigger] (a[i] as u32) == ascii_upper(b[i])
}

fn fold_code(c: char) -> (r: u32)
    ensures
        r == ascii_fold(c),
{
    let u = c as u32;
    if 0x41 <= u && u <= 0x5a {
        u + 0x20
    } else {
        u
    }
}

/// `true` when `a` and `b` match with ASCII letters compared without case.
pub fn same_ignoring_ascii_case(a: &Vec<char>, b: &Vec<char>) -> (r: bool)
    ensures
        r == eq_ignore_ascii_case(a@, b@),
{
    if a.len() != b.len() {
        return false;
    }
    let n = a.len();
    for i in 0..n
        invariant
            n == a.len() == b.len(),
            forall|k: int| 0 <= k < i ==> #[trigger] ascii_fold(a@[k]) == ascii_fold(b@[k]),
    {
        if fold_code(a[i]) != fold_code(b[i]) {
            return false;
        }
    }
    true
}

/// `true` when `a` equals `b` exactly.
pub fn same_chars(a: &Vec<char>, b: &Vec<char>) -> (r: bool)
    ensures
        r == (a@ == b@),
{
    if a.len() != b.len() {
        return false;
    }
    let n = a.len();
    for i in 0..n
        invariant
            n == a.len() == b.len(),
            forall|k: int| 0 <= k < i ==> a@[k] == b@[k],
    {
        if a[i] != b[i] {
            return false;
        }
    }
    assert(a@ =~= b@);
    true
}

// ---------------------------------------------------------------------------
// Building strings
// ---------------------------------------------------------------------------

/// Appends `c` to `s`.
///
/// Wraps `String::push`; the contract claims that the character is appended
/// and nothing else changes.
#[verifier::external_body]
pub(crate) fn push_char(s: &mut String, c: char)
    ensures
        final(s)@ == old(s)@.push(c),
{
    s.push(c);
}

/// Appends the characters of `v` to `s`.
pub fn push_chars(s: &mut String, v: &Vec<char>)
    ensures
        final(s)@ == old(s)@ + v@,
{
    let n = v.len();
    for i in 0..n
        invariant
            n == v.len(),
            s@ == old(s)@ + v@.take(i as int),
    {
        push_char(s, v[i]);
        assert(v@.take(i + 1) =~= v@.take(i as int).push(v@[i as int]));
        assert(s@ =~= old(s)@ + v@.take(i + 1));
    }
    assert(v@.take(n as int) =~= v@);
}

/// A string holding the characters of `v`.
pub fn string_of(v: &Vec<char>) -> (r: String)
    ensures
        r@ == v@,
{
    let mut s = String::new();
    push_chars(&mut s, v);
    assert(s@ =~= v@);
    s
}

/// The decimal digit `d` as a character.
pub open spec fn digit_char(d: nat) -> char {
    if d == 0 {
        '0'
    } else if d == 1 {
        '1'
    } else if d == 2 {
        '2'
    } else if d == 3 {
        '3'
    } else if d == 4 {
        '4'
    } else if d == 5 {
        '5'
    } else if d == 6 {
        '6'
    } else if d == 7 {
        '7'
    } else if d == 8 {
        '8'
    } else {
        '9'
    }
}

/// The hexadecimal digit `d`, lower case.
pub open spec fn hex_char(d: nat) -> char {
    if d < 10 {
        digit_char(d)
    } else if d == 10 {
        'a'
    } else if d == 11 {
        'b'
    } else if d == 12 {
        'c'
    } else if d == 13 {
        'd'
    } else if d == 14 {
        'e'
    } else {
        'f'
    }
}

/// `n` written in decimal, without leading zeros.
pub open spec fn decimal(n: nat) -> Seq<char>
    decreases n,
{
    if n < 10 {
        seq![digit_char(n)]
    } else {
        decimal(n / 10).push(digit_char(n % 10))
    }
}

/// `b` as `format!("{b:#04x}")` writes it: `0x` and two lower-case digits.
pub open spec fn hex_byte(b: u8) -> Seq<char> {
    seq!['0', 'x', hex_char((b / 16) as nat), hex_char((b % 16) as nat)]
}

fn digit(d: u64) -> (r: char)
    requires
        d < 10,
    ensures
        r == digit_char(d as nat),
{
    if d == 0 {
        '0'
    } else if d == 1 {
        '1'
    } else if d == 2 {
        '2'
    } else if d == 3 {
        '3'
    } else if d == 4 {
        '4'
    } else if d == 5 {
        '5'
    } else if d == 6 {
        '6'
    } else if d == 7 {
        '7'
    } else if d == 8 {
        '8'
    } else {
        '9'
    }
}

fn hex_digit(d: u8) -> (r: char)
    requires
        d < 16,
    ensures
        r == hex_char(d as nat),
{
    if d < 10 {
        digit(d as u64)
    } else if d == 10 {
        'a'
    } else if d == 11 {
        'b'
    } else if d == 12 {
        'c'
    } else if d == 13 {
        'd'
    } else if d == 14 {
        'e'
    } else {
        'f'
    }
}

/// Appends `n` in decimal.
pub fn push_decimal(s: &mut String, n: u64)
    ensures
        final(s)@ == old(s)@ + decimal(n as nat),
    decreases n,
{
    if n >= 10 {
        push_decimal(s, n / 10);
    }
    push_char(s, digit(n % 10));
    if n >= 10 {
        assert(s@ =~= old(s)@ + decimal(n as nat));
    } else {
        assert(s@ =~= old(s)@ + decimal(n as nat));
    }
}

/// Appends `b` as `0x` and two lower-case hexadecimal digits.
pub fn push_hex_byte(s: &mut String, b: u8)
    ensures
        final(s)@ == old(s)@ + hex_byte(b),
{
    push_char(s, '0');
    push_char(s, 'x');
    push_char(s, hex_digit(b / 16));
    push_char(s, hex_digit(b % 16));
    assert(s@ =~= old(s)@ + hex_byte(b));
}

/// `parts` joined with `sep` between neighbours, as `[..].join(sep)` does.
pub open spec fn join(parts: Seq<Seq<char>>, sep: Seq<char>) -> Seq<char>
    decreases parts.len(),
{
    if parts.len() == 0 {
        seq![]
    } else if parts.len() == 1 {
        parts[0]
    } else {
        join(parts.drop_last(), sep) + sep + parts.last()
    }
}

/// The views of `v`'s strings.
pub open spec fn views(v: Seq<String>) -> Seq<Seq<char>> {
    v.map_values(|s: String| s@)
}

/// Appends `parts` joined with `sep`.
pub fn push_joined(s: &mut String, parts: &Vec<String>, sep: &str)
    ensures
        final(s)@ == old(s)@ + join(views(parts@), sep@),
{
    let n = parts.len();
    for i in 0..n
        invariant
            n == parts.len(),
            s@ == old(s)@ + join(views(parts@.take(i as int)), sep@),
    {
        assert(views(parts@.take(i + 1)).drop_last() =~= views(parts@.take(i as int)));
        assert(views(parts@.take(i + 1)).last() == parts@[i as int]@);
        if i != 0 {
            s.append(sep);
        }
        s.append(parts[i].as_str());
        assert(s@ =~= old(s)@ + join(views(parts@.take(i + 1)), sep@));
    }
    assert(parts@.take(n as int) =~= parts@);
}

// ---------------------------------------------------------------------------
// Decoding and case mapping, which std computes
// ---------------------------------------------------------------------------

/// Decodes `bytes` as UTF-8.
///
/// Wraps `std::str::from_utf8`. The contract claims what its documentation
/// says: it succeeds exactly on valid UTF-8, and then yields the decoded
/// characters. Validity and decoding are vstd's definitions.
#[verifier::external_body]
pub(crate) fn utf8_decode(bytes: &[u8]) -> (r: Option<String>)
    ensures
        r is Some <==> valid_utf8(bytes@),
        r matches Some(s) ==> s@ == decode_utf8(bytes@),
{
    match std::str::from_utf8(bytes) {
        Ok(s) => Some(s.to_owned()),
        Err(_) => None,
    }
}

/// What `str::to_uppercase` makes of a string: Unicode's upper-case mapping,
/// under which one character may become several.
pub uninterp spec fn unicode_uppercase(s: Seq<char>) -> Seq<char>;

/// The upper-case equivalent of `s`.
///
/// Wraps `str::to_uppercase`. The contract names its result and states one
/// fact of Unicode's mapping: on ASCII text it turns `a`..`z` into `A`..`Z`
/// and leaves every other character alone. The mapping of other characters is
/// not stated.
#[verifier::external_body]
pub(crate) fn to_uppercase(s: &str) -> (r: String)
    ensures
        r@ == unicode_uppercase(s@),
        is_ascii_chars(s@) ==> is_ascii_upper_of(r@, s@),
{
    s.to_uppercase()
}

// ---------------------------------------------------------------------------
// Splitting
// ---------------------------------------------------------------------------

/// The position of the first `c` in `s`, or `s.len()` when there is none.
pub open spec fn first_index(s: Seq<char>, c: char) -> int
    decreases s.len(),
{
    if s.len() == 0 {
        0
    } else if s[0] == c {
        0
    } else {
        1 + first_index(s.drop_first(), c)
    }
}

/// `first_index` is the position of the first `c`, or the length.
pub proof fn lemma_first_index(s: Seq<char>, c: char)
    ensures
        0 <= first_index(s, c) <= s.len(),
        first_index(s, c) < s.len() ==> s[first_index(s, c)] == c,
        forall|m: int| 0 <= m < first_index(s, c) ==> s[m] != c,
    decreases s.len(),
{
    if s.len() > 0 && s[0] != c {
        lemma_first_index(s.drop_first(), c);
        assert forall|m: int| 0 <= m < first_index(s, c) implies s[m] != c by {
            if m > 0 {
                assert(s[m] == s.drop_first()[m - 1]);
            }
        }
    }
}

/// A position `k` with no `c` before it, and `c` at it unless it is the
/// end, is the first index of `c`.
pub proof fn lemma_first_index_is(s: Seq<char>, c: char, k: int)
    requires
        0 <= k <= s.len(),
        k < s.len() ==> s[k] == c,
        forall|m: int| 0 <= m < k ==> s[m] != c,
    ensures
        first_index(s, c) == k,
    decreases s.len(),
{
    if s.len() > 0 && k > 0 {
        assert(s[0] != c);
        assert forall|m: int| 0 <= m < k - 1 implies s.drop_first()[m] != c by {
            assert(s.drop_first()[m] == s[m + 1]);
        }
        lemma_first_index_is(s.drop_first(), c, k - 1);
    }
}

/// `str::split_once`: the text before and after the first `c`, if any.
pub open spec fn split_once(s: Seq<char>, c: char) -> Option<(Seq<char>, Seq<char>)> {
    let i = first_index(s, c);
    if 0 <= i < s.len() {
        Some((s.take(i), s.skip(i + 1)))
    } else {
        None
    }
}

/// `str::split`: the pieces of `s` between occurrences of `c`.
pub open spec fn split(s: Seq<char>, c: char) -> Seq<Seq<char>>
    decreases s.len(),
{
    let i = first_index(s, c);
    if 0 <= i < s.len() {
        seq![s.take(i)] + split(s.skip(i + 1), c)
    } else {
        seq![s]
    }
}

/// The first position at or after `start` that holds `c`, or the length.
pub fn find_from(s: &Vec<char>, c: char, start: usize) -> (r: usize)
    requires
        start <= s.len(),
    ensures
        start <= r <= s.len(),
        first_index(s@.skip(start as int), c) == r - start,
{
    let mut i = start;
    while i < s.len() && s[i] != c
        invariant
            start <= i <= s.len(),
            forall|m: int| start <= m < i ==> s@[m] != c,
        decreases s.len() - i,
    {
        i = i + 1;
    }
    proof {
        let t = s@.skip(start as int);
        assert forall|m: int| 0 <= m < i - start implies t[m] != c by {
            assert(t[m] == s@[m + start]);
        }
        lemma_first_index_is(t, c, i - start);
    }
    i
}

/// The views of nested character vectors.
pub open spec fn char_views(v: Seq<Vec<char>>) -> Seq<Seq<char>> {
    v.map_values(|x: Vec<char>| x@)
}

/// `s` split at every `c`.
pub fn split_chars(s: &Vec<char>, c: char) -> (r: Vec<Vec<char>>)
    ensures
        char_views(r@) == split(s@, c),
{
    let mut parts: Vec<Vec<char>> = Vec::new();
    let mut start: usize = 0;
    assert(s@.skip(0) =~= s@);
    loop
        invariant
            start <= s.len(),
            split(s@, c) == char_views(parts@) + split(s@.skip(start as int), c),
        decreases s.len() - start,
    {
        let j = find_from(s, c, start);
        let ghost rest = s@.skip(start as int);
        proof {
            lemma_first_index(rest, c);
        }
        let piece = slice_chars(s, start, j);
        let ghost before = parts@;
        parts.push(piece);
        assert(char_views(parts@) =~= char_views(before).push(s@.subrange(start as int, j as int)));
        if j < s.len() {
            assert(rest.take(j - start) =~= s@.subrange(start as int, j as int));
            assert(rest.skip(j - start + 1) =~= s@.skip(j + 1));
            assert(split(s@, c) =~= char_views(parts@) + split(s@.skip(j + 1), c));
            start = j + 1;
        } else {
            assert(rest =~= s@.subrange(start as int, j as int));
            assert(split(s@, c) =~= char_views(parts@));
            return parts;
        }
    }
}

/// Trimming removes characters at the ends only: the result is a range of
/// the input.
pub proof fn lemma_trim_is_range(s: Seq<char>) -> (r: (int, int))
    ensures
        0 <= r.0 <= r.1 <= s.len(),
        trim(s) == s.subrange(r.0, r.1),
{
    let a = lemma_trim_start_is_suffix(s);
    let t = s.skip(a);
    let b = lemma_trim_end_is_prefix(t);
    assert(t.take(b) =~= s.subrange(a, a + b));
    (a, a + b)
}

proof fn lemma_trim_start_is_suffix(s: Seq<char>) -> (r: int)
    ensures
        0 <= r <= s.len(),
        trim_start(s) == s.skip(r),
    decreases s.len(),
{
    if s.len() > 0 && is_white_space(s[0]) {
        let k = lemma_trim_start_is_suffix(s.drop_first());
        assert(s.drop_first().skip(k) =~= s.skip(k + 1));
        k + 1
    } else {
        assert(s.skip(0) =~= s);
        0
    }
}

proof fn lemma_trim_end_is_prefix(s: Seq<char>) -> (r: int)
    ensures
        0 <= r <= s.len(),
        trim_end(s) == s.take(r),
    decreases s.len(),
{
    if s.len() > 0 && is_white_space(s.last()) {
        let k = lemma_trim_end_is_prefix(s.drop_last());
        assert(s.drop_last().take(k) =~= s.take(k));
        k
    } else {
        assert(s.take(s.len() as int) =~= s);
        s.len() as int
    }
}

/// A string without white space at either end is its own trimmed form.
pub proof fn lemma_trim_plain(s: Seq<char>)
    requires
        s.len() > 0,
        !is_white_space(s[0]),
        !is_white_space(s.last()),
    ensures
        trim(s) == s,
{
}

} // verus!
