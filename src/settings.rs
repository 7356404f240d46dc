//! Reading the server's settings from their text values: ports, with a
//! default where a setting is absent, and the switch that sends logs to files.
use vstd::prelude::*;
use vstd::string::*;

use crate::text::is_digit;

verus! {

/// The value of a decimal digit character.
pub open spec fn digit_value(c: char) -> nat {
    (c as u32 - '0' as u32) as nat
}

/// The number written by a string of decimal digits.
pub open spec fn digits_value(s: Seq<char>) -> nat
    decreases s.len(),
{
    if s.len() == 0 {
        0
    } else {
        digits_value(s.drop_last()) * 10 + digit_value(s.last())
    }
}

/// The digits of an unsigned number's text: one leading `+` is dropped where
/// something follows it.
pub open spec fn unsigned_digits(s: Seq<char>) -> Seq<char> {
    if s.len() > 1 && s[0] == '+' {
        s.drop_first()
    } else {
        s
    }
}

/// The `u16` that `s` writes in decimal, as `u16::from_str` reads it: an
/// optional `+`, then one or more digits, for a value of at most 65535.
pub open spec fn parsed_u16(s: Seq<char>) -> Option<u16> {
    let d = unsigned_digits(s);
    if d.len() > 0 && (forall|i: int| 0 <= i < d.len() ==> is_digit(#[trigger] d[i])) && digits_value(d) <= 65535 {
        Some(digits_value(d) as u16)
    } else {
        None
    }
}

/// Appending digits never makes a number smaller.
pub proof fn lemma_digits_value_prefix(s: Seq<char>, k: int)
    requires
        0 <= k <= s.len(),
        forall|i: int| 0 <= i < s.len() ==> is_digit(#[trigger] s[i]),
    ensures
        digits_value(s.subrange(0, k)) <= digits_value(s),
    decreases s.len(),
{
    if k < s.len() {
        let t = s.drop_last();
        assert(t.subrange(0, k) =~= s.subrange(0, k));
        lemma_digits_value_prefix(t, k);
    } else {
        assert(s.subrange(0, k) =~= s);
    }
}

/// Reads a port number written in decimal.
pub fn parse_u16(s: &str) -> (r: Option<u16>)
    ensures
        r == parsed_u16(s@),
{
    let n = s.unicode_len();
    let mut start: usize = 0;
    if n > 1 && s.get_char(0) == '+' {
        start = 1;
    }
    let ghost d = unsigned_digits(s@);
    proof {
        assert(d =~= s@.subrange(start as int, n as int));
    }
    if start == n {
        return None;
    }
    let mut acc: u32 = 0;
    let mut i: usize = start;
    while i < n
        invariant
            n == s@.len(),
            start <= i <= n,
            d == s@.subrange(start as int, n as int),
            d == unsigned_digits(s@),
            acc <= 65535,
            acc == digits_value(d.subrange(0, i - start)),
            forall|j: int| 0 <= j < i - start ==> is_digit(#[trigger] d[j]),
        decreases n - i,
    {
        let c = s.get_char(i);
        if !('0' <= c && c <= '9') {
            proof {
                assert(d[i - start] == c);
                assert(!is_digit(d[i - start]));
                assert(!(forall|j: int| 0 <= j < d.len() ==> is_digit(#[trigger] d[j])));
            }
            return None;
        }
        let v: u32 = acc * 10 + (c as u32 - '0' as u32);
        proof {
            let p = d.subrange(0, i - start + 1);
            assert(p.drop_last() =~= d.subrange(0, i - start));
            assert(p.last() == c);
            assert(digits_value(p) == digits_value(p.drop_last()) * 10 + digit_value(p.last()));
            assert(digits_value(p) == v);
        }
        if v > 65535 {
            proof {
                if forall|j: int| 0 <= j < d.len() ==> is_digit(#[trigger] d[j]) {
                    lemma_digits_value_prefix(d, i - start + 1);
                }
            }
            return None;
        }
        acc = v;
        i = i + 1;
    }
    proof {
        assert(d.subrange(0, n - start) =~= d);
    }
    Some(acc as u16)
}

/// A setting that could not be used.
#[derive(Debug, Clone, PartialEq, Eq)]
pub enum SettingError {
    /// The text given for a port is no number from 0 to 65535.
    InvalidPort(String),
}

/// A port setting: `default` where the setting is absent, else the number
/// that its text writes.
pub fn port_setting(value: Option<&str>, default: u16) -> (r: Result<u16, SettingError>)
    ensures
        match value {
            None => r == Ok::<u16, SettingError>(default),
            Some(v) => match parsed_u16(v@) {
                Some(p) => r == Ok::<u16, SettingError>(p),
                None => r is Err && r->Err_0 is InvalidPort && r->Err_0->InvalidPort_0@ == v@,
            },
        },
{
    match value {
        None => Ok(default),
        Some(v) => match parse_u16(v) {
            Some(p) => Ok(p),
            None => Err(SettingError::InvalidPort(String::from_str(v))),
        },
    }
}

/// Whether logs go to files: only where the setting reads `true`, as
/// `bool::from_str` accepts it; any other text, or none, keeps them on the
/// console.
pub fn log_to_file(value: Option<&str>) -> (r: bool)
    ensures
        r == (value is Some && value->Some_0@ == "true"@),
{
    proof {
        reveal_strlit("true");
    }
    match value {
        None => false,
        Some(v) => {
            let n = v.unicode_len();
            if n != 4 {
                return false;
            }
            let r = v.get_char(0) == 't' && v.get_char(1) == 'r' && v.get_char(2) == 'u' && v.get_char(3) == 'e';
            proof {
                if r {
                    assert(v@ =~= "true"@);
                }
            }
            r
        },
    }
}

} // verus!
