//! Text shapes of the persisted records.
//!
//! The raw-points and snapshot tables carry timestamps as ISO-8601 UTC
//! strings (`YYYY-MM-DDThh:mm:ssZ`). Rendering and reading that shape
//! is the library's own logic: the rendering is proved injective, and
//! the reader is proved to accept exactly the rendered texts, so a
//! point written to storage and re-read comes back field for field.

use vstd::prelude::*;
use vstd::arithmetic::div_mod::lemma_fundamental_div_mod_converse;
use vstd::string::{StringExecFns, is_ascii_spec_bytes};
use crate::types::{FeeDataPoint, UtcTime};

verus! {

/// The ASCII digit character for one decimal digit.
pub open spec fn digit_char(d: int) -> char {
    ((48 + d) as u8) as char
}

/// Two zero-padded decimal digits.
pub open spec fn two_digits(n: int) -> Seq<char> {
    seq![digit_char(n / 10), digit_char(n % 10)]
}

/// Four zero-padded decimal digits.
pub open spec fn four_digits(n: int) -> Seq<char> {
    seq![
        digit_char(n / 1000),
        digit_char((n / 100) % 10),
        digit_char((n / 10) % 10),
        digit_char(n % 10),
    ]
}

/// The ISO-8601 rendering `YYYY-MM-DDThh:mm:ssZ` of a UTC instant.
pub open spec fn iso8601_chars(t: UtcTime) -> Seq<char> {
    four_digits(t.year as int) + seq!['-'] + two_digits(t.month as int) + seq!['-'] + two_digits(
        t.day as int,
    ) + seq!['T'] + two_digits(t.hour as int) + seq![':'] + two_digits(t.minute as int) + seq![':']
        + two_digits(t.second as int) + seq!['Z']
}

/// A well-formed instant renders to twenty characters whose positions
/// carry its digits and the fixed separators.
pub proof fn lemma_iso8601_shape(t: UtcTime)
    requires
        t.wf(),
    ensures
        iso8601_chars(t).len() == 20,
        iso8601_chars(t)[0] == digit_char(t.year as int / 1000),
        iso8601_chars(t)[1] == digit_char((t.year as int / 100) % 10),
        iso8601_chars(t)[2] == digit_char((t.year as int / 10) % 10),
        iso8601_chars(t)[3] == digit_char(t.year as int % 10),
        iso8601_chars(t)[4] == '-',
        iso8601_chars(t)[5] == digit_char(t.month as int / 10),
        iso8601_chars(t)[6] == digit_char(t.month as int % 10),
        iso8601_chars(t)[7] == '-',
        iso8601_chars(t)[8] == digit_char(t.day as int / 10),
        iso8601_chars(t)[9] == digit_char(t.day as int % 10),
        iso8601_chars(t)[10] == 'T',
        iso8601_chars(t)[11] == digit_char(t.hour as int / 10),
        iso8601_chars(t)[12] == digit_char(t.hour as int % 10),
        iso8601_chars(t)[13] == ':',
        iso8601_chars(t)[14] == digit_char(t.minute as int / 10),
        iso8601_chars(t)[15] == digit_char(t.minute as int % 10),
        iso8601_chars(t)[16] == ':',
        iso8601_chars(t)[17] == digit_char(t.second as int / 10),
        iso8601_chars(t)[18] == digit_char(t.second as int % 10),
        iso8601_chars(t)[19] == 'Z',
{
}

/// Digit characters carry their value in their (ASCII) code.
pub proof fn lemma_digit_char_value(d: int)
    requires
        0 <= d <= 9,
    ensures
        digit_char(d) as u8 == 48 + d,
        '\0' <= digit_char(d) <= '\u{7f}',
        digit_char(d) != '-' && digit_char(d) != 'T' && digit_char(d) != ':' && digit_char(d)
            != 'Z',
{
}

/// Reconstructing a two-digit number from its digits.
proof fn lemma_two_digit_value(d0: int, d1: int)
    requires
        0 <= d0 <= 9,
        0 <= d1 <= 9,
    ensures
        (d0 * 10 + d1) / 10 == d0,
        (d0 * 10 + d1) % 10 == d1,
{
    lemma_fundamental_div_mod_converse(d0 * 10 + d1, 10, d0, d1);
}

/// Reconstructing a four-digit number from its digits.
proof fn lemma_four_digit_value(d0: int, d1: int, d2: int, d3: int)
    requires
        0 <= d0 <= 9,
        0 <= d1 <= 9,
        0 <= d2 <= 9,
        0 <= d3 <= 9,
    ensures
        (d0 * 1000 + d1 * 100 + d2 * 10 + d3) / 1000 == d0,
        ((d0 * 1000 + d1 * 100 + d2 * 10 + d3) / 100) % 10 == d1,
        ((d0 * 1000 + d1 * 100 + d2 * 10 + d3) / 10) % 10 == d2,
        (d0 * 1000 + d1 * 100 + d2 * 10 + d3) % 10 == d3,
{
    let n = d0 * 1000 + d1 * 100 + d2 * 10 + d3;
    lemma_fundamental_div_mod_converse(n, 1000, d0, d1 * 100 + d2 * 10 + d3);
    lemma_fundamental_div_mod_converse(n, 100, d0 * 10 + d1, d2 * 10 + d3);
    lemma_fundamental_div_mod_converse(n, 10, d0 * 100 + d1 * 10 + d2, d3);
    lemma_fundamental_div_mod_converse(d0 * 10 + d1, 10, d0, d1);
    lemma_fundamental_div_mod_converse(d0 * 100 + d1 * 10 + d2, 10, d0 * 10 + d1, d2);
}

/// The rendering is injective on well-formed instants: equal texts can
/// only come from equal instants, so the persisted timestamp column
/// identifies the instant it was written from.
pub proof fn lemma_iso8601_injective(t1: UtcTime, t2: UtcTime)
    requires
        t1.wf(),
        t2.wf(),
        iso8601_chars(t1) == iso8601_chars(t2),
    ensures
        t1 == t2,
{
    lemma_iso8601_shape(t1);
    lemma_iso8601_shape(t2);
    lemma_digit_eq(t1.year as int / 1000, t2.year as int / 1000);
    lemma_digit_eq((t1.year as int / 100) % 10, (t2.year as int / 100) % 10);
    lemma_digit_eq((t1.year as int / 10) % 10, (t2.year as int / 10) % 10);
    lemma_digit_eq(t1.year as int % 10, t2.year as int % 10);
    lemma_digit_eq(t1.month as int / 10, t2.month as int / 10);
    lemma_digit_eq(t1.month as int % 10, t2.month as int % 10);
    lemma_digit_eq(t1.day as int / 10, t2.day as int / 10);
    lemma_digit_eq(t1.day as int % 10, t2.day as int % 10);
    lemma_digit_eq(t1.hour as int / 10, t2.hour as int / 10);
    lemma_digit_eq(t1.hour as int % 10, t2.hour as int % 10);
    lemma_digit_eq(t1.minute as int / 10, t2.minute as int / 10);
    lemma_digit_eq(t1.minute as int % 10, t2.minute as int % 10);
    lemma_digit_eq(t1.second as int / 10, t2.second as int / 10);
    lemma_digit_eq(t1.second as int % 10, t2.second as int % 10);
}

/// Distinct digits render as distinct characters.
proof fn lemma_digit_eq(a: int, b: int)
    requires
        0 <= a <= 9,
        0 <= b <= 9,
        digit_char(a) == digit_char(b),
    ensures
        a == b,
{
    lemma_digit_char_value(a);
    lemma_digit_char_value(b);
}

/// The one-character text for a decimal digit.
fn digit_str(d: u8) -> (r: &'static str)
    requires
        d <= 9,
    ensures
        r@.len() == 1,
        r@[0] == digit_char(d as int),
{
    proof {
        reveal_strlit("0");
        reveal_strlit("1");
        reveal_strlit("2");
        reveal_strlit("3");
        reveal_strlit("4");
        reveal_strlit("5");
        reveal_strlit("6");
        reveal_strlit("7");
        reveal_strlit("8");
        reveal_strlit("9");
    }
    match d {
        0 => "0",
        1 => "1",
        2 => "2",
        3 => "3",
        4 => "4",
        5 => "5",
        6 => "6",
        7 => "7",
        8 => "8",
        _ => "9",
    }
}

/// Append two zero-padded digits.
fn push_two_digits(s: &mut String, n: u8)
    requires
        n <= 99,
    ensures
        final(s)@ == old(s)@ + two_digits(n as int),
{
    s.append(digit_str(n / 10));
    s.append(digit_str(n % 10));
    proof {
        assert(s@ =~= old(s)@ + two_digits(n as int));
    }
}

/// Render a UTC instant as `YYYY-MM-DDThh:mm:ssZ`.
pub fn format_timestamp(t: &UtcTime) -> (r: String)
    requires
        t.wf(),
    ensures
        r@ == iso8601_chars(*t),
{
    let mut s = String::new();
    s.append(digit_str((t.year / 1000) as u8));
    s.append(digit_str(((t.year / 100) % 10) as u8));
    s.append(digit_str(((t.year / 10) % 10) as u8));
    s.append(digit_str((t.year % 10) as u8));
    s.append("-");
    push_two_digits(&mut s, t.month);
    s.append("-");
    push_two_digits(&mut s, t.day);
    s.append("T");
    push_two_digits(&mut s, t.hour);
    s.append(":");
    push_two_digits(&mut s, t.minute);
    s.append(":");
    push_two_digits(&mut s, t.second);
    s.append("Z");
    proof {
        reveal_strlit("-");
        reveal_strlit("T");
        reveal_strlit(":");
        reveal_strlit("Z");
        assert(s@ =~= iso8601_chars(*t));
    }
    s
}

/// The value of one ASCII digit byte, or nothing for any other byte.
fn digit_val(b: u8) -> (r: Option<u8>)
    ensures
        48 <= b <= 57 ==> r == Some((b - 48) as u8),
        !(48 <= b <= 57) ==> r is None,
{
    if 48 <= b && b <= 57 {
        Some(b - 48)
    } else {
        None
    }
}

/// Every character of a rendered instant is ASCII.
proof fn lemma_iso8601_ascii(t: UtcTime)
    requires
        t.wf(),
    ensures
        forall|i: int|
            0 <= i < iso8601_chars(t).len() ==> '\0' <= #[trigger] iso8601_chars(t)[i]
                <= '\u{7f}',
{
    lemma_iso8601_shape(t);
    assert forall|i: int| 0 <= i < iso8601_chars(t).len() implies '\0' <= #[trigger] iso8601_chars(
        t,
    )[i] <= '\u{7f}' by {
        if i == 0 {
            lemma_digit_char_value(t.year as int / 1000);
        } else if i == 1 {
            lemma_digit_char_value((t.year as int / 100) % 10);
        } else if i == 2 {
            lemma_digit_char_value((t.year as int / 10) % 10);
        } else if i == 3 {
            lemma_digit_char_value(t.year as int % 10);
        } else if i == 5 {
            lemma_digit_char_value(t.month as int / 10);
        } else if i == 6 {
            lemma_digit_char_value(t.month as int % 10);
        } else if i == 8 {
            lemma_digit_char_value(t.day as int / 10);
        } else if i == 9 {
            lemma_digit_char_value(t.day as int % 10);
        } else if i == 11 {
            lemma_digit_char_value(t.hour as int / 10);
        } else if i == 12 {
            lemma_digit_char_value(t.hour as int % 10);
        } else if i == 14 {
            lemma_digit_char_value(t.minute as int / 10);
        } else if i == 15 {
            lemma_digit_char_value(t.minute as int % 10);
        } else if i == 17 {
            lemma_digit_char_value(t.second as int / 10);
        } else if i == 18 {
            lemma_digit_char_value(t.second as int % 10);
        }
    }
}

/// Read a `YYYY-MM-DDThh:mm:ssZ` text back into an instant.
///
/// Accepts exactly the texts that a well-formed instant renders to:
/// the result carries the instant whose rendering is the input, and a
/// `None` says no well-formed instant renders to it.
pub fn parse_timestamp(s: &str) -> (r: Option<UtcTime>)
    ensures
        r matches Some(t) ==> t.wf() && s@ == iso8601_chars(t),
        r is None ==> forall|t: UtcTime| t.wf() ==> s@ != iso8601_chars(t),
{
    let ghost cs = s@;
    if !s.is_ascii() {
        proof {
            assert forall|t: UtcTime| t.wf() implies cs != iso8601_chars(t) by {
                if cs == iso8601_chars(t) {
                    lemma_iso8601_ascii(t);
                }
            }
        }
        return None;
    }
    proof {
        is_ascii_spec_bytes(s);
    }
    let b = s.as_bytes();
    proof {
        assert(b@.len() == cs.len());
        assert(forall|i: int| 0 <= i < cs.len() ==> b@[i] == #[trigger] cs[i] as u8);
    }
    if b.len() != 20 {
        proof {
            assert forall|t: UtcTime| t.wf() implies cs != iso8601_chars(t) by {
                lemma_iso8601_shape(t);
            }
        }
        return None;
    }
    let sep_ok = b[4] == 45 && b[7] == 45 && b[10] == 84 && b[13] == 58 && b[16] == 58 && b[19]
        == 90;
    let d0 = digit_val(b[0]);
    let d1 = digit_val(b[1]);
    let d2 = digit_val(b[2]);
    let d3 = digit_val(b[3]);
    let d5 = digit_val(b[5]);
    let d6 = digit_val(b[6]);
    let d8 = digit_val(b[8]);
    let d9 = digit_val(b[9]);
    let d11 = digit_val(b[11]);
    let d12 = digit_val(b[12]);
    let d14 = digit_val(b[14]);
    let d15 = digit_val(b[15]);
    let d17 = digit_val(b[17]);
    let d18 = digit_val(b[18]);
    let all_digits = d0.is_some() && d1.is_some() && d2.is_some() && d3.is_some() && d5.is_some()
        && d6.is_some() && d8.is_some() && d9.is_some() && d11.is_some() && d12.is_some()
        && d14.is_some() && d15.is_some() && d17.is_some() && d18.is_some();
    if sep_ok && all_digits {
        let year: u16 = d0.unwrap() as u16 * 1000 + d1.unwrap() as u16 * 100 + d2.unwrap() as u16
            * 10 + d3.unwrap() as u16;
        let month: u8 = d5.unwrap() * 10 + d6.unwrap();
        let day: u8 = d8.unwrap() * 10 + d9.unwrap();
        let hour: u8 = d11.unwrap() * 10 + d12.unwrap();
        let minute: u8 = d14.unwrap() * 10 + d15.unwrap();
        let second: u8 = d17.unwrap() * 10 + d18.unwrap();
        let t = UtcTime { year, month, day, hour, minute, second };
        if 1 <= month && month <= 12 && 1 <= day && day <= 31 && hour <= 23 && minute <= 59
            && second <= 59 {
            proof {
                lemma_parse_matches(cs, t);
            }
            Some(t)
        } else {
            proof {
                lemma_reject_ranges(cs, t);
            }
            None
        }
    } else {
        proof {
            assert forall|t: UtcTime| t.wf() implies cs != iso8601_chars(t) by {
                if cs == iso8601_chars(t) {
                    lemma_iso8601_shape(t);
                    lemma_all_digit_values(t);
                }
            }
        }
        None
    }
}

/// The digit characters of a well-formed rendering carry digit codes,
/// and the separators their fixed codes.
proof fn lemma_all_digit_values(t: UtcTime)
    requires
        t.wf(),
    ensures
        48 <= iso8601_chars(t)[0] as u8 <= 57,
        48 <= iso8601_chars(t)[1] as u8 <= 57,
        48 <= iso8601_chars(t)[2] as u8 <= 57,
        48 <= iso8601_chars(t)[3] as u8 <= 57,
        iso8601_chars(t)[4] as u8 == 45,
        48 <= iso8601_chars(t)[5] as u8 <= 57,
        48 <= iso8601_chars(t)[6] as u8 <= 57,
        iso8601_chars(t)[7] as u8 == 45,
        48 <= iso8601_chars(t)[8] as u8 <= 57,
        48 <= iso8601_chars(t)[9] as u8 <= 57,
        iso8601_chars(t)[10] as u8 == 84,
        48 <= iso8601_chars(t)[11] as u8 <= 57,
        48 <= iso8601_chars(t)[12] as u8 <= 57,
        iso8601_chars(t)[13] as u8 == 58,
        48 <= iso8601_chars(t)[14] as u8 <= 57,
        48 <= iso8601_chars(t)[15] as u8 <= 57,
        iso8601_chars(t)[16] as u8 == 58,
        48 <= iso8601_chars(t)[17] as u8 <= 57,
        48 <= iso8601_chars(t)[18] as u8 <= 57,
        iso8601_chars(t)[19] as u8 == 90,
        iso8601_chars(t)[0] as u8 == 48 + t.year as int / 1000,
        iso8601_chars(t)[1] as u8 == 48 + (t.year as int / 100) % 10,
        iso8601_chars(t)[2] as u8 == 48 + (t.year as int / 10) % 10,
        iso8601_chars(t)[3] as u8 == 48 + t.year as int % 10,
        iso8601_chars(t)[5] as u8 == 48 + t.month as int / 10,
        iso8601_chars(t)[6] as u8 == 48 + t.month as int % 10,
        iso8601_chars(t)[8] as u8 == 48 + t.day as int / 10,
        iso8601_chars(t)[9] as u8 == 48 + t.day as int % 10,
        iso8601_chars(t)[11] as u8 == 48 + t.hour as int / 10,
        iso8601_chars(t)[12] as u8 == 48 + t.hour as int % 10,
        iso8601_chars(t)[14] as u8 == 48 + t.minute as int / 10,
        iso8601_chars(t)[15] as u8 == 48 + t.minute as int % 10,
        iso8601_chars(t)[17] as u8 == 48 + t.second as int / 10,
        iso8601_chars(t)[18] as u8 == 48 + t.second as int % 10,
{
    lemma_iso8601_shape(t);
    lemma_digit_char_value(t.year as int / 1000);
    lemma_digit_char_value((t.year as int / 100) % 10);
    lemma_digit_char_value((t.year as int / 10) % 10);
    lemma_digit_char_value(t.year as int % 10);
    lemma_digit_char_value(t.month as int / 10);
    lemma_digit_char_value(t.month as int % 10);
    lemma_digit_char_value(t.day as int / 10);
    lemma_digit_char_value(t.day as int % 10);
    lemma_digit_char_value(t.hour as int / 10);
    lemma_digit_char_value(t.hour as int % 10);
    lemma_digit_char_value(t.minute as int / 10);
    lemma_digit_char_value(t.minute as int % 10);
    lemma_digit_char_value(t.second as int / 10);
    lemma_digit_char_value(t.second as int % 10);
}

/// A text whose bytes passed every structural check is the rendering
/// of the instant assembled from its digits.
proof fn lemma_parse_matches(cs: Seq<char>, t: UtcTime)
    requires
        t.wf(),
        cs.len() == 20,
        forall|i: int| 0 <= i < cs.len() ==> '\0' <= #[trigger] cs[i] <= '\u{7f}',
        cs[4] as u8 == 45,
        cs[7] as u8 == 45,
        cs[10] as u8 == 84,
        cs[13] as u8 == 58,
        cs[16] as u8 == 58,
        cs[19] as u8 == 90,
        48 <= cs[0] as u8 <= 57,
        48 <= cs[1] as u8 <= 57,
        48 <= cs[2] as u8 <= 57,
        48 <= cs[3] as u8 <= 57,
        48 <= cs[5] as u8 <= 57,
        48 <= cs[6] as u8 <= 57,
        48 <= cs[8] as u8 <= 57,
        48 <= cs[9] as u8 <= 57,
        48 <= cs[11] as u8 <= 57,
        48 <= cs[12] as u8 <= 57,
        48 <= cs[14] as u8 <= 57,
        48 <= cs[15] as u8 <= 57,
        48 <= cs[17] as u8 <= 57,
        48 <= cs[18] as u8 <= 57,
        t.year as int == (cs[0] as u8 - 48) * 1000 + (cs[1] as u8 - 48) * 100 + (cs[2] as u8 - 48)
            * 10 + (cs[3] as u8 - 48),
        t.month as int == (cs[5] as u8 - 48) * 10 + (cs[6] as u8 - 48),
        t.day as int == (cs[8] as u8 - 48) * 10 + (cs[9] as u8 - 48),
        t.hour as int == (cs[11] as u8 - 48) * 10 + (cs[12] as u8 - 48),
        t.minute as int == (cs[14] as u8 - 48) * 10 + (cs[15] as u8 - 48),
        t.second as int == (cs[17] as u8 - 48) * 10 + (cs[18] as u8 - 48),
    ensures
        cs == iso8601_chars(t),
{
    lemma_all_digit_values(t);
    lemma_iso8601_ascii(t);
    lemma_four_digit_value(
        cs[0] as u8 - 48,
        cs[1] as u8 - 48,
        cs[2] as u8 - 48,
        cs[3] as u8 - 48,
    );
    lemma_two_digit_value(cs[5] as u8 - 48, cs[6] as u8 - 48);
    lemma_two_digit_value(cs[8] as u8 - 48, cs[9] as u8 - 48);
    lemma_two_digit_value(cs[11] as u8 - 48, cs[12] as u8 - 48);
    lemma_two_digit_value(cs[14] as u8 - 48, cs[15] as u8 - 48);
    lemma_two_digit_value(cs[17] as u8 - 48, cs[18] as u8 - 48);
    assert forall|i: int| 0 <= i < 20 implies cs[i] == iso8601_chars(t)[i] by {
        lemma_ascii_char_of_byte(cs[i]);
        lemma_ascii_char_of_byte(iso8601_chars(t)[i]);
    }
    assert(cs =~= iso8601_chars(t));
}

/// The canonical decimal rendering of a non-negative integer: no sign,
/// no leading zeros (a lone zero for 0).
pub open spec fn dec_chars(n: nat) -> Seq<char>
    decreases n,
{
    if n <= 9 {
        seq![digit_char(n as int)]
    } else {
        dec_chars(n / 10) + seq![digit_char((n % 10) as int)]
    }
}

/// The number a digit string denotes.
pub open spec fn dec_value(s: Seq<char>) -> int
    decreases s.len(),
{
    if s.len() == 0 {
        0
    } else {
        dec_value(s.drop_last()) * 10 + (s.last() as u8 - 48)
    }
}

/// A decimal rendering is non-empty, all ASCII digits, and denotes the
/// number it was rendered from.
pub proof fn lemma_dec_chars_digits(n: nat)
    ensures
        dec_chars(n).len() >= 1,
        forall|i: int|
            0 <= i < dec_chars(n).len() ==> 48 <= #[trigger] dec_chars(n)[i] as u8 <= 57 && '\0'
                <= dec_chars(n)[i] <= '\u{7f}',
        dec_value(dec_chars(n)) == n,
    decreases n,
{
    if n <= 9 {
        lemma_digit_char_value(n as int);
        assert(dec_chars(n).drop_last() =~= Seq::<char>::empty());
        assert(dec_value(Seq::<char>::empty()) == 0);
    } else {
        lemma_dec_chars_digits(n / 10);
        lemma_digit_char_value((n % 10) as int);
        assert(dec_chars(n).drop_last() =~= dec_chars(n / 10));
        assert(dec_chars(n).last() as u8 - 48 == n % 10);
    }
}

/// Distinct numbers render to distinct texts: the persisted column
/// identifies the magnitude it was written from.
pub proof fn lemma_dec_chars_injective(n1: nat, n2: nat)
    requires
        dec_chars(n1) == dec_chars(n2),
    ensures
        n1 == n2,
{
    lemma_dec_chars_digits(n1);
    lemma_dec_chars_digits(n2);
}

/// A positive number's rendering does not start with a zero.
proof fn lemma_dec_chars_leading(n: nat)
    requires
        n >= 1,
    ensures
        dec_chars(n)[0] as u8 != 48,
    decreases n,
{
    if n <= 9 {
        lemma_digit_char_value(n as int);
    } else {
        lemma_dec_chars_leading(n / 10);
        lemma_dec_chars_digits(n / 10);
        assert(dec_chars(n)[0] == dec_chars(n / 10)[0]);
    }
}

/// Digit strings denote non-negative numbers.
proof fn lemma_dec_value_nonneg(s: Seq<char>)
    requires
        forall|i: int| 0 <= i < s.len() ==> 48 <= #[trigger] s[i] as u8 <= 57,
    ensures
        dec_value(s) >= 0,
    decreases s.len(),
{
    if s.len() > 0 {
        lemma_dec_value_nonneg(s.drop_last());
    }
}

/// A prefix of a digit string never denotes more than the whole.
proof fn lemma_dec_value_prefix(s: Seq<char>, j: int)
    requires
        0 <= j <= s.len(),
        forall|i: int| 0 <= i < s.len() ==> 48 <= #[trigger] s[i] as u8 <= 57,
    ensures
        dec_value(s.take(j)) <= dec_value(s),
    decreases s.len(),
{
    if j < s.len() {
        assert(s.take(j) =~= s.drop_last().take(j));
        lemma_dec_value_prefix(s.drop_last(), j);
        lemma_dec_value_nonneg(s.drop_last());
    } else {
        assert(s.take(j) =~= s);
    }
}

/// A digit string of two or more places with a non-zero lead denotes
/// at least ten.
proof fn lemma_dec_value_ge_ten(s: Seq<char>)
    requires
        s.len() >= 2,
        forall|i: int| 0 <= i < s.len() ==> 48 <= #[trigger] s[i] as u8 <= 57,
        s[0] as u8 != 48,
    ensures
        dec_value(s) >= 10,
    decreases s.len(),
{
    if s.len() == 2 {
        assert(s.drop_last() =~= seq![s[0]]);
        assert(seq![s[0]].drop_last() =~= Seq::<char>::empty());
        assert(dec_value(Seq::<char>::empty()) == 0);
        assert(dec_value(seq![s[0]]) == s[0] as u8 - 48);
    } else {
        lemma_dec_value_ge_ten(s.drop_last());
    }
}

/// A non-empty digit string without a spurious leading zero is the
/// canonical rendering of the number it denotes.
proof fn lemma_canonical_is_dec_chars(s: Seq<char>)
    requires
        s.len() >= 1,
        forall|i: int| 0 <= i < s.len() ==> 48 <= #[trigger] s[i] as u8 <= 57,
        forall|i: int| 0 <= i < s.len() ==> '\0' <= #[trigger] s[i] <= '\u{7f}',
        s.len() > 1 ==> s[0] as u8 != 48,
    ensures
        dec_value(s) >= 0,
        s == dec_chars(dec_value(s) as nat),
    decreases s.len(),
{
    lemma_dec_value_nonneg(s);
    let v = dec_value(s);
    if s.len() == 1 {
        assert(s.drop_last() =~= Seq::<char>::empty());
        assert(dec_value(Seq::<char>::empty()) == 0);
        assert(s.last() == s[0]);
        assert(v == s[0] as u8 - 48);
        lemma_digit_char_value(v);
        lemma_ascii_char_of_byte(s[0]);
        assert(s =~= dec_chars(v as nat));
    } else {
        lemma_dec_value_ge_ten(s);
        lemma_canonical_is_dec_chars(s.drop_last());
        let vp = dec_value(s.drop_last());
        let d = s.last() as u8 - 48;
        lemma_fundamental_div_mod_converse(v, 10, vp, d as int);
        lemma_digit_char_value(d as int);
        lemma_ascii_char_of_byte(s.last());
        assert(s =~= dec_chars(vp as nat) + seq![digit_char(d as int)]);
        assert(dec_chars(v as nat) == dec_chars((v as nat) / 10) + seq![
            digit_char(((v as nat) % 10) as int),
        ]);
    }
}

/// The reversed digit characters of a least-significant-first digit
/// buffer.
spec fn rev_digit_chars(ds: Seq<u8>) -> Seq<char> {
    Seq::new(ds.len(), |i: int| digit_char(ds[ds.len() - 1 - i] as int))
}

/// Render a fee magnitude as canonical decimal text.
pub fn format_fee(n: u64) -> (r: String)
    ensures
        r@ == dec_chars(n as nat),
{
    if n == 0 {
        let mut s = String::new();
        s.append(digit_str(0));
        proof {
            assert(s@ =~= dec_chars(0));
        }
        return s;
    }
    let mut digits: Vec<u8> = Vec::new();
    let mut m: u64 = n;
    while m > 0
        invariant
            forall|j: int| 0 <= j < digits@.len() ==> #[trigger] digits@[j] <= 9,
            m > 0 ==> dec_chars(n as nat) == dec_chars(m as nat) + rev_digit_chars(digits@),
            m == 0 ==> dec_chars(n as nat) == rev_digit_chars(digits@),
        decreases m,
    {
        let d = (m % 10) as u8;
        digits.push(d);
        let ghost old_digits = digits@.drop_last();
        let m2 = m / 10;
        proof {
            if m2 > 0 {
                assert(dec_chars(m as nat) == dec_chars(m2 as nat) + seq![
                    digit_char((m as nat % 10) as int),
                ]);
                assert(dec_chars(m2 as nat) + rev_digit_chars(digits@) =~= dec_chars(m as nat)
                    + rev_digit_chars(old_digits));
            } else {
                assert(dec_chars(m as nat) == seq![digit_char(m as int)]);
                assert(rev_digit_chars(digits@) =~= dec_chars(m as nat) + rev_digit_chars(
                    old_digits,
                ));
            }
        }
        m = m2;
    }
    let mut s = String::new();
    let mut i: usize = digits.len();
    while i > 0
        invariant
            i <= digits@.len(),
            forall|j: int| 0 <= j < digits@.len() ==> #[trigger] digits@[j] <= 9,
            dec_chars(n as nat) == rev_digit_chars(digits@),
            s@ == rev_digit_chars(digits@).take(digits@.len() - i),
        decreases i,
    {
        i = i - 1;
        s.append(digit_str(digits[i]));
        proof {
            assert(s@ =~= rev_digit_chars(digits@).take(digits@.len() - i));
        }
    }
    proof {
        assert(rev_digit_chars(digits@).take(digits@.len() as int) =~= rev_digit_chars(digits@));
    }
    s
}

/// Read canonical decimal text back into a fee magnitude.
///
/// Accepts exactly the texts that [`format_fee`] writes: no sign, no
/// leading zeros, and a value that fits the fee type.
pub fn parse_fee(s: &str) -> (r: Option<u64>)
    ensures
        r matches Some(v) ==> s@ == dec_chars(v as nat),
        r is None ==> forall|n: u64| s@ != dec_chars(n as nat),
{
    let ghost cs = s@;
    if !s.is_ascii() {
        proof {
            assert forall|n: u64| cs != dec_chars(n as nat) by {
                lemma_dec_chars_digits(n as nat);
            }
        }
        return None;
    }
    proof {
        is_ascii_spec_bytes(s);
    }
    let b = s.as_bytes();
    proof {
        assert(b@.len() == cs.len());
        assert(forall|i: int| 0 <= i < cs.len() ==> b@[i] == #[trigger] cs[i] as u8);
    }
    if b.len() == 0 {
        proof {
            assert forall|n: u64| cs != dec_chars(n as nat) by {
                lemma_dec_chars_digits(n as nat);
            }
        }
        return None;
    }
    if b.len() > 1 && b[0] == 48 {
        proof {
            assert forall|n: u64| cs != dec_chars(n as nat) by {
                if cs == dec_chars(n as nat) {
                    lemma_dec_chars_digits(n as nat);
                    if n >= 1 {
                        lemma_dec_chars_leading(n as nat);
                    }
                }
            }
        }
        return None;
    }
    let mut v: u128 = 0;
    let mut i: usize = 0;
    while i < b.len()
        invariant
            cs == s@,
            i <= b@.len(),
            b@.len() == cs.len(),
            forall|k: int| 0 <= k < cs.len() ==> b@[k] == #[trigger] cs[k] as u8,
            forall|k: int| 0 <= k < cs.len() ==> '\0' <= #[trigger] cs[k] <= '\u{7f}',
            forall|k: int| 0 <= k < i ==> 48 <= #[trigger] cs[k] as u8 <= 57,
            v == dec_value(cs.take(i as int)),
            v <= u64::MAX,
        decreases b@.len() - i,
    {
        let d = match digit_val(b[i]) {
            Some(d) => d,
            None => {
                proof {
                    assert forall|n: u64| cs != dec_chars(n as nat) by {
                        if cs == dec_chars(n as nat) {
                            lemma_dec_chars_digits(n as nat);
                            assert(48 <= dec_chars(n as nat)[i as int] as u8 <= 57);
                            assert(cs[i as int] as u8 == b@[i as int]);
                        }
                    }
                }
                return None;
            },
        };
        let next: u128 = v * 10 + d as u128;
        proof {
            assert(cs.take(i + 1).drop_last() =~= cs.take(i as int));
            assert(cs.take(i + 1).last() == cs[i as int]);
        }
        if next > u64::MAX as u128 {
            proof {
                assert forall|n: u64| cs != dec_chars(n as nat) by {
                    if cs == dec_chars(n as nat) {
                        lemma_dec_chars_digits(n as nat);
                        assert forall|k: int| 0 <= k < cs.len() implies 48 <= #[trigger] cs[k] as u8
                            <= 57 by {
                            assert(48 <= dec_chars(n as nat)[k] as u8 <= 57);
                        }
                        lemma_dec_value_prefix(cs, i + 1);
                        assert(cs[i as int] as u8 == b@[i as int]);
                        assert(dec_value(cs.take(i + 1)) == next);
                        assert(dec_value(cs) == n);
                    }
                }
            }
            return None;
        }
        v = next;
        i = i + 1;
    }
    proof {
        assert(cs.take(cs.len() as int) =~= cs);
        lemma_canonical_is_dec_chars(cs);
    }
    Some(v as u64)
}

/// One row of the append-only raw-points table, exactly as persisted:
/// integer fee and ledger columns, text timestamp and hash columns.
pub struct RawPointRecord {
    pub fee_amount: u64,
    pub timestamp: String,
    pub transaction_hash: String,
    pub ledger_sequence: u64,
}

/// One row of the append-only snapshots table. Fee magnitudes are
/// decimal text (exact, never binary float); the capture time is
/// ISO-8601 text.
pub struct SnapshotRecord {
    pub base_fee: String,
    pub min_fee: String,
    pub max_fee: String,
    pub avg_fee: String,
    pub captured_at: String,
}

/// Render a fee point as its persisted row.
pub fn encode_point(p: &FeeDataPoint) -> (r: RawPointRecord)
    requires
        p.timestamp.wf(),
    ensures
        r.fee_amount == p.fee_amount,
        r.timestamp@ == iso8601_chars(p.timestamp),
        r.transaction_hash@ == p.transaction_hash@,
        r.ledger_sequence == p.ledger_sequence,
{
    RawPointRecord {
        fee_amount: p.fee_amount,
        timestamp: format_timestamp(&p.timestamp),
        transaction_hash: p.transaction_hash.clone(),
        ledger_sequence: p.ledger_sequence,
    }
}

/// Read a persisted row back into a fee point.
///
/// Succeeds exactly when the timestamp column is the rendering of a
/// well-formed instant — in particular on every row that
/// [`encode_point`] wrote — and then returns the identical point:
/// same fee, same instant (by [`lemma_iso8601_injective`]), same hash
/// text, same ledger sequence.
pub fn decode_point(rec: &RawPointRecord) -> (r: Option<FeeDataPoint>)
    ensures
        r matches Some(p) ==> {
            &&& p.timestamp.wf()
            &&& rec.timestamp@ == iso8601_chars(p.timestamp)
            &&& p.fee_amount == rec.fee_amount
            &&& p.transaction_hash@ == rec.transaction_hash@
            &&& p.ledger_sequence == rec.ledger_sequence
        },
        r is None ==> forall|t: UtcTime| t.wf() ==> rec.timestamp@ != iso8601_chars(t),
{
    match parse_timestamp(rec.timestamp.as_str()) {
        None => None,
        Some(ts) => Some(
            FeeDataPoint {
                fee_amount: rec.fee_amount,
                timestamp: ts,
                transaction_hash: rec.transaction_hash.clone(),
                ledger_sequence: rec.ledger_sequence,
            },
        ),
    }
}

/// Render a snapshot as its persisted row.
pub fn encode_snapshot(s: &crate::types::FeeSnapshot) -> (r: SnapshotRecord)
    requires
        s.captured_at.wf(),
    ensures
        r.base_fee@ == dec_chars(s.base_fee as nat),
        r.min_fee@ == dec_chars(s.min_fee as nat),
        r.max_fee@ == dec_chars(s.max_fee as nat),
        r.avg_fee@ == dec_chars(s.avg_fee as nat),
        r.captured_at@ == iso8601_chars(s.captured_at),
{
    SnapshotRecord {
        base_fee: format_fee(s.base_fee),
        min_fee: format_fee(s.min_fee),
        max_fee: format_fee(s.max_fee),
        avg_fee: format_fee(s.avg_fee),
        captured_at: format_timestamp(&s.captured_at),
    }
}

/// An ASCII character is determined by its byte.
proof fn lemma_ascii_char_of_byte(c: char)
    requires
        '\0' <= c <= '\u{7f}',
    ensures
        c == ((c as u8) as char),
{
}

/// A text whose digits assemble to out-of-range fields is no rendering
/// of a well-formed instant.
proof fn lemma_reject_ranges(cs: Seq<char>, bad: UtcTime)
    requires
        cs.len() == 20,
        !bad.wf(),
        bad.year <= 9999,
        forall|i: int| 0 <= i < cs.len() ==> '\0' <= #[trigger] cs[i] <= '\u{7f}',
        bad.year as int == (cs[0] as u8 - 48) * 1000 + (cs[1] as u8 - 48) * 100 + (cs[2] as u8
            - 48) * 10 + (cs[3] as u8 - 48),
        bad.month as int == (cs[5] as u8 - 48) * 10 + (cs[6] as u8 - 48),
        bad.day as int == (cs[8] as u8 - 48) * 10 + (cs[9] as u8 - 48),
        bad.hour as int == (cs[11] as u8 - 48) * 10 + (cs[12] as u8 - 48),
        bad.minute as int == (cs[14] as u8 - 48) * 10 + (cs[15] as u8 - 48),
        bad.second as int == (cs[17] as u8 - 48) * 10 + (cs[18] as u8 - 48),
        48 <= cs[5] as u8 <= 57,
        48 <= cs[6] as u8 <= 57,
        48 <= cs[8] as u8 <= 57,
        48 <= cs[9] as u8 <= 57,
        48 <= cs[11] as u8 <= 57,
        48 <= cs[12] as u8 <= 57,
        48 <= cs[14] as u8 <= 57,
        48 <= cs[15] as u8 <= 57,
        48 <= cs[17] as u8 <= 57,
        48 <= cs[18] as u8 <= 57,
    ensures
        forall|t: UtcTime| t.wf() ==> cs != iso8601_chars(t),
{
    assert forall|t: UtcTime| t.wf() implies cs != iso8601_chars(t) by {
        if cs == iso8601_chars(t) {
            lemma_all_digit_values(t);
            lemma_two_digit_value(t.month as int / 10, t.month as int % 10);
            assert(bad.month == t.month);
            assert(bad.day == t.day);
            assert(bad.hour == t.hour);
            assert(bad.minute == t.minute);
            assert(bad.second == t.second);
        }
    }
}

} // verus!
