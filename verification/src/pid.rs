//! PID file management for daemon mode.
//!
//! A PID file names the process that wrote it. A new instance refuses to
//! start when the file names a process that is still running; a file that
//! names none, or nothing readable as a PID, is stale and is replaced.
use vstd::prelude::*;
use vstd::string::StringExecFns;
use crate::text::{
    chars_of, decimal, digit_char, is_white_space, lemma_trim_plain, push_char, push_decimal, trim,
    trimmed,
};

verus! {

/// Guard for a PID file written at `path`; the program removes the file
/// when the guard goes.
pub struct PidFileGuard(String);

impl PidFileGuard {
    /// The path of the PID file.
    pub closed spec fn file(self) -> Seq<char> {
        self.0@
    }

    /// The guard for the PID file at `path`.
    pub fn new(path: String) -> (r: PidFileGuard)
        ensures
            r.file() == path@,
    {
        PidFileGuard(path)
    }

    /// Where the PID file is.
    pub fn path(&self) -> (r: &str)
        ensures
            r@ == self.file(),
    {
        self.0.as_str()
    }
}

/// `c` is an ASCII decimal digit.
pub open spec fn is_digit(c: char) -> bool {
    '0' <= c <= '9'
}

/// The value of a string of decimal digits.
pub open spec fn digits_value(s: Seq<char>) -> int
    decreases s.len(),
{
    if s.len() == 0 {
        0
    } else {
        10 * digits_value(s.drop_last()) + (s.last() as int - '0' as int)
    }
}

/// Every character of `s` is a decimal digit.
pub open spec fn all_digits(s: Seq<char>) -> bool {
    forall|i: int| 0 <= i < s.len() ==> is_digit(#[trigger] s[i])
}

/// `s` without a leading sign.
pub open spec fn unsigned_part(s: Seq<char>) -> Seq<char> {
    if s.len() > 0 && (s[0] == '-' || s[0] == '+') {
        s.drop_first()
    } else {
        s
    }
}

/// What `str::parse::<i32>` gives: an optional `+` or `-`, then one or more
/// decimal digits whose value fits in an `i32`.
pub open spec fn parse_i32(s: Seq<char>) -> Option<i32> {
    let negative = s.len() > 0 && s[0] == '-';
    let body = unsigned_part(s);
    let v = if negative {
        -digits_value(body)
    } else {
        digits_value(body)
    };
    if body.len() > 0 && all_digits(body) && i32::MIN <= v <= i32::MAX {
        Some(v as i32)
    } else {
        None
    }
}

proof fn lemma_digits_value_nonneg(s: Seq<char>)
    requires
        forall|i: int| 0 <= i < s.len() ==> is_digit(#[trigger] s[i]),
    ensures
        digits_value(s) >= 0,
    decreases s.len(),
{
    if s.len() > 0 {
        lemma_digits_value_nonneg(s.drop_last());
    }
}

/// Reads `s` as `str::parse::<i32>` does.
pub fn parse_i32_exec(s: &Vec<char>) -> (r: Option<i32>)
    ensures
        r == parse_i32(s@),
{
    let n = s.len();
    if n == 0 {
        return None;
    }
    let negative = s[0] == '-';
    let start: usize = if s[0] == '-' || s[0] == '+' {
        1
    } else {
        0
    };
    let ghost body = s@.subrange(start as int, n as int);
    assert(body =~= unsigned_part(s@));
    if start == n {
        return None;
    }
    // Largest magnitude an i32 takes: 2147483648 for a negative number.
    let limit: u64 = if negative {
        2147483648
    } else {
        2147483647
    };
    let mut acc: u64 = 0;
    let mut too_big = false;
    let mut i = start;
    while i < n
        invariant
            start <= i <= n == s.len(),
            start < n,
            body == s@.subrange(start as int, n as int),
            negative == (s@.len() > 0 && s@[0] == '-'),
            body == unsigned_part(s@),
            limit == (if negative {
                2147483648u64
            } else {
                2147483647u64
            }),
            forall|k: int| start <= k < i ==> is_digit(#[trigger] s@[k]),
            !too_big ==> acc == digits_value(s@.subrange(start as int, i as int)) && acc <= limit,
            too_big ==> digits_value(s@.subrange(start as int, i as int)) > limit,
            limit <= 2147483648,
        decreases n - i,
    {
        let c = s[i];
        if !('0' <= c && c <= '9') {
            assert(body[i - start] == s@[i as int]);
            assert(!is_digit(body[i - start]));
            assert(!all_digits(body));
            return None;
        }
        let d = (c as u32 - '0' as u32) as u64;
        let ghost pre = s@.subrange(start as int, i as int);
        let ghost next = s@.subrange(start as int, i + 1);
        assert(next.drop_last() =~= pre);
        assert(digits_value(next) == 10 * digits_value(pre) + d);
        proof {
            assert forall|k: int| 0 <= k < pre.len() implies is_digit(#[trigger] pre[k]) by {
                assert(pre[k] == s@[start + k]);
            }
            lemma_digits_value_nonneg(pre);
        }
        if !too_big {
            if acc > (limit - d) / 10 {
                too_big = true;
                assert(10 * acc + d > limit) by (nonlinear_arith)
                    requires
                        acc > (limit - d) / 10,
                        d <= 9,
                        d <= limit,
                ;
            } else {
                assert(10 * acc + d <= limit) by (nonlinear_arith)
                    requires
                        acc <= (limit - d) / 10,
                        d <= 9,
                        d <= limit,
                ;
                acc = acc * 10 + d;
            }
        } else {
            assert(10 * digits_value(pre) + d > limit) by (nonlinear_arith)
                requires
                    digits_value(pre) > limit,
                    d >= 0,
            ;
        }
        i = i + 1;
    }
    assert(s@.subrange(start as int, n as int) =~= body);
    assert forall|k: int| 0 <= k < body.len() implies is_digit(#[trigger] body[k]) by {
        assert(body[k] == s@[start + k]);
    }
    if too_big {
        return None;
    }
    if negative {
        Some((0 - acc as i64) as i32)
    } else {
        Some(acc as i32)
    }
}

/// The PID a PID file records: its contents, trimmed, read as an `i32`.
pub fn recorded_pid(contents: &str) -> (r: Option<i32>)
    ensures
        r == parse_i32(trim(contents@)),
{
    parse_i32_exec(&trimmed(&chars_of(contents)))
}

/// `v` in decimal, with a leading `-` when negative.
pub open spec fn signed_decimal(v: int) -> Seq<char> {
    if v < 0 {
        seq!['-'] + decimal((-v) as nat)
    } else {
        decimal(v as nat)
    }
}

/// Why a start is refused when the PID file names a running process.
pub open spec fn already_running_text(pid: i32) -> Seq<char> {
    "another instance already running (PID "@ + signed_decimal(pid as int) + ")"@
}

/// The message for a PID file that names the running process `pid`.
pub fn already_running(pid: i32) -> (r: String)
    ensures
        r@ == already_running_text(pid),
{
    let mut s = String::from_str("another instance already running (PID ");
    let ghost head = s@;
    if pid < 0 {
        push_char(&mut s, '-');
        let magnitude: u64 = (0 - pid as i64) as u64;
        assert(magnitude as int == -(pid as int));
        push_decimal(&mut s, magnitude);
        assert(s@ =~= head + signed_decimal(pid as int));
    } else {
        push_decimal(&mut s, pid as u64);
        assert(s@ =~= head + signed_decimal(pid as int));
    }
    s.append(")");
    assert(s@ =~= already_running_text(pid));
    s
}

proof fn lemma_digit_char(d: nat)
    requires
        d < 10,
    ensures
        is_digit(digit_char(d)),
        digit_char(d) as int - '0' as int == d,
        !is_white_space(digit_char(d)),
{
}

/// A number written in decimal reads back as itself.
proof fn lemma_decimal_digits(n: nat)
    ensures
        decimal(n).len() > 0,
        all_digits(decimal(n)),
        digits_value(decimal(n)) == n,
        !is_white_space(decimal(n)[0]),
        !is_white_space(decimal(n).last()),
        is_digit(decimal(n)[0]),
    decreases n,
{
    if n < 10 {
        lemma_digit_char(n);
        assert(decimal(n).drop_last() =~= Seq::<char>::empty());
        assert(digits_value(Seq::<char>::empty()) == 0);
    } else {
        lemma_decimal_digits(n / 10);
        lemma_digit_char(n % 10);
        let d = decimal(n);
        assert(d.drop_last() =~= decimal(n / 10));
        assert(d.last() == digit_char(n % 10));
        assert(digits_value(d) == 10 * digits_value(decimal(n / 10)) + (digit_char(n % 10) as int
            - '0' as int));
        assert(10 * (n / 10) + n % 10 == n);
        assert forall|i: int| 0 <= i < d.len() implies is_digit(#[trigger] d[i]) by {
            if i < d.len() - 1 {
                assert(d[i] == decimal(n / 10)[i]);
            }
        }
    }
}

/// A PID file written by an instance names that instance when read back: a
/// process ID up to `i32::MAX`, written in decimal, is the PID recorded.
pub proof fn lemma_pid_file_round_trip(pid: u32)
    requires
        pid <= i32::MAX,
    ensures
        parse_i32(trim(decimal(pid as nat))) == Some(pid as i32),
{
    let d = decimal(pid as nat);
    lemma_decimal_digits(pid as nat);
    lemma_trim_plain(d);
    assert(unsigned_part(d) == d);
}

} // verus!
