//! The addresses the servers bind to.
//!
//! The bind address comes from the command line, `[::]` by default; the
//! TCP listener takes it as given, the SNMP socket without its brackets.
use vstd::prelude::*;
use vstd::string::StringExecFns;
use crate::text::{chars_of, decimal, push_char, push_decimal, slice_chars, string_of};

verus! {

/// `c` is a square bracket.
pub open spec fn is_bracket(c: char) -> bool {
    c == '[' || c == ']'
}

/// `s` without leading brackets.
pub open spec fn strip_leading_brackets(s: Seq<char>) -> Seq<char>
    decreases s.len(),
{
    if s.len() > 0 && is_bracket(s[0]) {
        strip_leading_brackets(s.drop_first())
    } else {
        s
    }
}

/// `s` without trailing brackets.
pub open spec fn strip_trailing_brackets(s: Seq<char>) -> Seq<char>
    decreases s.len(),
{
    if s.len() > 0 && is_bracket(s.last()) {
        strip_trailing_brackets(s.drop_last())
    } else {
        s
    }
}

/// `str::trim_matches` with brackets: leading and trailing brackets removed.
pub open spec fn unbracketed(s: Seq<char>) -> Seq<char> {
    strip_trailing_brackets(strip_leading_brackets(s))
}

/// The address `host:port`.
pub open spec fn address_text(host: Seq<char>, port: u16) -> Seq<char> {
    host + seq![':'] + decimal(port as nat)
}

/// The TCP listen address: the bind address as given, and the port.
pub fn tcp_address(bind: &str, port: u16) -> (r: String)
    ensures
        r@ == address_text(bind@, port),
{
    let mut s = String::from_str(bind);
    push_char(&mut s, ':');
    push_decimal(&mut s, port as u64);
    assert(s@ =~= address_text(bind@, port));
    s
}

/// The SNMP listen address: the bind address without brackets, and the port.
pub fn snmp_address(bind: &str, port: u16) -> (r: String)
    ensures
        r@ == address_text(unbracketed(bind@), port),
{
    let v = chars_of(bind);
    let n = v.len();
    let mut i: usize = 0;
    assert(v@.skip(0) =~= v@);
    while i < n && (v[i] == '[' || v[i] == ']')
        invariant
            i <= n == v.len(),
            strip_leading_brackets(v@) == strip_leading_brackets(v@.skip(i as int)),
        decreases n - i,
    {
        assert(v@.skip(i as int).drop_first() =~= v@.skip(i + 1));
        i = i + 1;
    }
    assert(strip_leading_brackets(v@) == v@.skip(i as int));
    let mut j: usize = n;
    assert(v@.skip(i as int) =~= v@.subrange(i as int, n as int));
    while j > i && (v[j - 1] == '[' || v[j - 1] == ']')
        invariant
            i <= j <= n == v.len(),
            unbracketed(v@) == strip_trailing_brackets(v@.subrange(i as int, j as int)),
        decreases j,
    {
        assert(v@.subrange(i as int, j as int).drop_last() =~= v@.subrange(i as int, j - 1));
        j = j - 1;
    }
    let mut s = string_of(&slice_chars(&v, i, j));
    push_char(&mut s, ':');
    push_decimal(&mut s, port as u64);
    assert(s@ =~= address_text(unbracketed(bind@), port));
    s
}

} // verus!
