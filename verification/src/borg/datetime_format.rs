//! The textual form of a timestamp: `YYYY-MM-DDTHH:MM:SS.ffffff`.
//!
//! Twenty-six characters, every field of fixed width, six digits of
//! fractional seconds and no zone suffix: the instant is meant in UTC.

use vstd::prelude::*;
use vstd::utf8::{
    encode_utf8, encode_utf8_decode_utf8, encode_utf8_valid_utf8, is_ascii_chars,
    is_ascii_chars_encode_utf8,
};
use vstd::string::is_ascii_spec_bytes;
use crate::borg::text::text_of_bytes;
use crate::borg::timestamp::{CivilTime, Timestamp};

verus! {

/// Why a string is not a timestamp.
#[derive(Clone, Copy, Debug, PartialEq, Eq, Structural)]
pub enum DecodeError {
    /// The string does not have the shape `YYYY-MM-DDTHH:MM:SS.ffffff`.
    Malformed,
    /// The string has the shape, but no such date or time of day exists.
    Impossible,
}

/// The length of every encoded timestamp.
pub const ENCODED_LEN: usize = 26;

pub open spec fn is_digit(c: char) -> bool {
    '0' <= c <= '9'
}

/// The number that a decimal digit stands for.
pub open spec fn digit_value(c: char) -> int {
    c as int - 48
}

/// The decimal digit for a number from 0 to 9.
pub open spec fn digit_char(d: int) -> char {
    (d + 48) as char
}

/// The last two decimal digits of `n`.
pub open spec fn two_digits(n: int) -> Seq<char> {
    seq![digit_char(n / 10 % 10), digit_char(n % 10)]
}

/// The last four decimal digits of `n`.
pub open spec fn four_digits(n: int) -> Seq<char> {
    two_digits(n / 100) + two_digits(n % 100)
}

/// The last six decimal digits of `n`.
pub open spec fn six_digits(n: int) -> Seq<char> {
    four_digits(n / 100) + two_digits(n % 100)
}

/// The text of an instant.
pub open spec fn encoded(t: CivilTime) -> Seq<char> {
    four_digits(t.year) + seq!['-'] + two_digits(t.month) + seq!['-'] + two_digits(t.day)
        + seq!['T'] + two_digits(t.hour) + seq![':'] + two_digits(t.minute) + seq![':']
        + two_digits(t.second) + seq!['.'] + six_digits(t.microsecond)
}

/// The character that every timestamp has at position `i`, where there is one.
pub open spec fn separator_at(i: int) -> Option<char> {
    if i == 4 || i == 7 {
        Some('-')
    } else if i == 10 {
        Some('T')
    } else if i == 13 || i == 16 {
        Some(':')
    } else if i == 19 {
        Some('.')
    } else {
        None
    }
}

/// Whether `s` has at position `i` what the format asks for there: the
/// separator, or else a digit.
pub open spec fn fits_at(s: Seq<char>, i: int) -> bool {
    match separator_at(i) {
        Some(c) => s[i] == c,
        None => is_digit(s[i]),
    }
}

/// Whether `s` has the shape `YYYY-MM-DDTHH:MM:SS.ffffff`.
pub open spec fn matches_pattern(s: Seq<char>) -> bool {
    &&& s.len() == ENCODED_LEN
    &&& forall|i: int| 0 <= i < ENCODED_LEN ==> fits_at(s, i)
}

/// The number written by the two digits of `s` from position `at`.
pub open spec fn number2(s: Seq<char>, at: int) -> int {
    digit_value(s[at]) * 10 + digit_value(s[at + 1])
}

/// The number written by the four digits of `s` from position `at`.
pub open spec fn number4(s: Seq<char>, at: int) -> int {
    number2(s, at) * 100 + number2(s, at + 2)
}

/// The number written by the six digits of `s` from position `at`.
pub open spec fn number6(s: Seq<char>, at: int) -> int {
    number4(s, at) * 100 + number2(s, at + 4)
}

/// The fields that a string of the right shape writes down.
pub open spec fn fields(s: Seq<char>) -> CivilTime {
    CivilTime {
        year: number4(s, 0),
        month: number2(s, 5),
        day: number2(s, 8),
        hour: number2(s, 11),
        minute: number2(s, 14),
        second: number2(s, 17),
        microsecond: number6(s, 20),
    }
}

/// What decoding `s` gives: the instant it writes down, or why it writes none.
pub open spec fn decoded(s: Seq<char>) -> Result<CivilTime, DecodeError> {
    if !matches_pattern(s) {
        Err(DecodeError::Malformed)
    } else if !fields(s).is_valid() {
        Err(DecodeError::Impossible)
    } else {
        Ok(fields(s))
    }
}

/// Where the characters of the seven fields stand in the text.
proof fn lemma_layout(
    year: Seq<char>,
    month: Seq<char>,
    day: Seq<char>,
    hour: Seq<char>,
    minute: Seq<char>,
    second: Seq<char>,
    fraction: Seq<char>,
)
    requires
        year.len() == 4,
        month.len() == 2,
        day.len() == 2,
        hour.len() == 2,
        minute.len() == 2,
        second.len() == 2,
        fraction.len() == 6,
    ensures
        ({
            let s = year + seq!['-'] + month + seq!['-'] + day + seq!['T'] + hour + seq![':']
                + minute + seq![':'] + second + seq!['.'] + fraction;
            &&& s.len() == 26
            &&& s[0] == year[0] && s[1] == year[1] && s[2] == year[2] && s[3] == year[3]
            &&& s[4] == '-'
            &&& s[5] == month[0] && s[6] == month[1]
            &&& s[7] == '-'
            &&& s[8] == day[0] && s[9] == day[1]
            &&& s[10] == 'T'
            &&& s[11] == hour[0] && s[12] == hour[1]
            &&& s[13] == ':'
            &&& s[14] == minute[0] && s[15] == minute[1]
            &&& s[16] == ':'
            &&& s[17] == second[0] && s[18] == second[1]
            &&& s[19] == '.'
            &&& s[20] == fraction[0] && s[21] == fraction[1] && s[22] == fraction[2]
            &&& s[23] == fraction[3] && s[24] == fraction[4] && s[25] == fraction[5]
        }),
{
}

/// The two digits of a number below 100 write that number.
proof fn lemma_number_of_two_digits(n: int)
    requires
        0 <= n <= 99,
    ensures
        two_digits(n).len() == 2,
        is_digit(two_digits(n)[0]),
        is_digit(two_digits(n)[1]),
        number2(two_digits(n), 0) == n,
{
}

/// The four digits of a number below 10 000 write that number.
proof fn lemma_number_of_four_digits(n: int)
    requires
        0 <= n <= 9999,
    ensures
        four_digits(n).len() == 4,
        forall|i: int| 0 <= i < 4 ==> is_digit(#[trigger] four_digits(n)[i]),
        number4(four_digits(n), 0) == n,
{
    let d = four_digits(n);
    lemma_number_of_two_digits(n / 100);
    lemma_number_of_two_digits(n % 100);
    assert(d[0] == two_digits(n / 100)[0] && d[1] == two_digits(n / 100)[1]);
    assert(d[2] == two_digits(n % 100)[0] && d[3] == two_digits(n % 100)[1]);
    assert(number2(d, 0) == n / 100);
    assert(number2(d, 2) == n % 100);
}

/// The six digits of a number below 1 000 000 write that number.
proof fn lemma_number_of_six_digits(n: int)
    requires
        0 <= n <= 999_999,
    ensures
        six_digits(n).len() == 6,
        forall|i: int| 0 <= i < 6 ==> is_digit(#[trigger] six_digits(n)[i]),
        number6(six_digits(n), 0) == n,
{
    let d = six_digits(n);
    let hi = four_digits(n / 100);
    lemma_number_of_four_digits(n / 100);
    lemma_number_of_two_digits(n % 100);
    assert(d[0] == hi[0] && d[1] == hi[1] && d[2] == hi[2] && d[3] == hi[3]);
    assert(d[4] == two_digits(n % 100)[0] && d[5] == two_digits(n % 100)[1]);
    assert(number2(d, 0) == number2(hi, 0));
    assert(number2(d, 2) == number2(hi, 2));
    assert(number4(d, 0) == n / 100);
    assert(number2(d, 4) == n % 100);
}

/// The text of a valid instant has the shape of a timestamp, and its digits
/// write the instant's fields.
pub proof fn lemma_encoded_shape(t: CivilTime)
    requires
        t.is_valid(),
    ensures
        encoded(t).len() == ENCODED_LEN,
        matches_pattern(encoded(t)),
        fields(encoded(t)) == t,
{
    let s = encoded(t);
    let year = four_digits(t.year);
    let month = two_digits(t.month);
    let day = two_digits(t.day);
    let hour = two_digits(t.hour);
    let minute = two_digits(t.minute);
    let second = two_digits(t.second);
    let fraction = six_digits(t.microsecond);
    lemma_number_of_four_digits(t.year);
    lemma_number_of_two_digits(t.month);
    lemma_number_of_two_digits(t.day);
    lemma_number_of_two_digits(t.hour);
    lemma_number_of_two_digits(t.minute);
    lemma_number_of_two_digits(t.second);
    lemma_number_of_six_digits(t.microsecond);
    lemma_layout(year, month, day, hour, minute, second, fraction);
    assert(is_digit(year[0]) && is_digit(year[1]) && is_digit(year[2]) && is_digit(year[3]));
    assert(is_digit(fraction[0]) && is_digit(fraction[1]) && is_digit(fraction[2]));
    assert(is_digit(fraction[3]) && is_digit(fraction[4]) && is_digit(fraction[5]));
    assert(matches_pattern(s)) by {
        assert(fits_at(s, 0) && fits_at(s, 1) && fits_at(s, 2) && fits_at(s, 3));
        assert(fits_at(s, 4) && fits_at(s, 5) && fits_at(s, 6) && fits_at(s, 7));
        assert(fits_at(s, 8) && fits_at(s, 9) && fits_at(s, 10) && fits_at(s, 11));
        assert(fits_at(s, 12) && fits_at(s, 13) && fits_at(s, 14) && fits_at(s, 15));
        assert(fits_at(s, 16) && fits_at(s, 17) && fits_at(s, 18) && fits_at(s, 19));
        assert(fits_at(s, 20) && fits_at(s, 21) && fits_at(s, 22) && fits_at(s, 23));
        assert(fits_at(s, 24) && fits_at(s, 25));
    }
    assert(number4(s, 0) == number4(year, 0));
    assert(number2(s, 5) == number2(month, 0));
    assert(number2(s, 8) == number2(day, 0));
    assert(number2(s, 11) == number2(hour, 0));
    assert(number2(s, 14) == number2(minute, 0));
    assert(number2(s, 17) == number2(second, 0));
    assert(number6(s, 20) == number6(fraction, 0));
}

/// Encoding an instant and decoding the text gives the instant back.
pub proof fn lemma_decode_encode(t: CivilTime)
    requires
        t.is_valid(),
    ensures
        decoded(encoded(t)) == Ok::<CivilTime, DecodeError>(t),
{
    lemma_encoded_shape(t);
}

/// Two digits are the two digits of the number they write.
proof fn lemma_two_digits_of_number(a: char, b: char)
    requires
        is_digit(a),
        is_digit(b),
    ensures
        0 <= digit_value(a) * 10 + digit_value(b) <= 99,
        two_digits(digit_value(a) * 10 + digit_value(b)) == seq![a, b],
{
    let n = digit_value(a) * 10 + digit_value(b);
    assert(n / 10 % 10 == digit_value(a));
    assert(n % 10 == digit_value(b));
    assert(two_digits(n) =~= seq![a, b]);
}

/// The digits of `s` from `at` are the digits of the number they write.
proof fn lemma_digits_of_number2(s: Seq<char>, at: int)
    requires
        0 <= at,
        at + 2 <= s.len(),
        is_digit(s[at]),
        is_digit(s[at + 1]),
    ensures
        0 <= number2(s, at) <= 99,
        two_digits(number2(s, at)) == s.subrange(at, at + 2),
{
    lemma_two_digits_of_number(s[at], s[at + 1]);
    assert(s.subrange(at, at + 2) =~= seq![s[at], s[at + 1]]);
}

proof fn lemma_digits_of_number4(s: Seq<char>, at: int)
    requires
        0 <= at,
        at + 4 <= s.len(),
        is_digit(s[at]),
        is_digit(s[at + 1]),
        is_digit(s[at + 2]),
        is_digit(s[at + 3]),
    ensures
        0 <= number4(s, at) <= 9999,
        four_digits(number4(s, at)) == s.subrange(at, at + 4),
{
    lemma_digits_of_number2(s, at);
    lemma_digits_of_number2(s, at + 2);
    let hi = number2(s, at);
    let lo = number2(s, at + 2);
    lemma_split_hundreds(hi, lo);
    assert(four_digits(number4(s, at)) == two_digits(hi) + two_digits(lo));
    assert(s.subrange(at, at + 4) =~= s.subrange(at, at + 2) + s.subrange(at + 2, at + 4));
}

proof fn lemma_digits_of_number6(s: Seq<char>, at: int)
    requires
        0 <= at,
        at + 6 <= s.len(),
        is_digit(s[at]),
        is_digit(s[at + 1]),
        is_digit(s[at + 2]),
        is_digit(s[at + 3]),
        is_digit(s[at + 4]),
        is_digit(s[at + 5]),
    ensures
        0 <= number6(s, at) <= 999_999,
        six_digits(number6(s, at)) == s.subrange(at, at + 6),
{
    lemma_digits_of_number4(s, at);
    lemma_digits_of_number2(s, at + 4);
    let hi = number4(s, at);
    let lo = number2(s, at + 4);
    lemma_split_hundreds(hi, lo);
    assert(six_digits(number6(s, at)) == four_digits(hi) + two_digits(lo));
    assert(s.subrange(at, at + 6) =~= s.subrange(at, at + 4) + s.subrange(at + 4, at + 6));
}

/// A number below 100 appended to a multiple of 100 can be split off again.
proof fn lemma_split_hundreds(hi: int, lo: int)
    requires
        0 <= lo <= 99,
    ensures
        (hi * 100 + lo) / 100 == hi,
        (hi * 100 + lo) % 100 == lo,
{
}

/// What the pattern says of each position, spelled out.
proof fn lemma_pattern_positions(s: Seq<char>)
    requires
        matches_pattern(s),
    ensures
        is_digit(s[0]) && is_digit(s[1]) && is_digit(s[2]) && is_digit(s[3]),
        s[4] == '-',
        is_digit(s[5]) && is_digit(s[6]),
        s[7] == '-',
        is_digit(s[8]) && is_digit(s[9]),
        s[10] == 'T',
        is_digit(s[11]) && is_digit(s[12]),
        s[13] == ':',
        is_digit(s[14]) && is_digit(s[15]),
        s[16] == ':',
        is_digit(s[17]) && is_digit(s[18]),
        s[19] == '.',
        is_digit(s[20]) && is_digit(s[21]) && is_digit(s[22]),
        is_digit(s[23]) && is_digit(s[24]) && is_digit(s[25]),
{
    assert(fits_at(s, 0) && fits_at(s, 1) && fits_at(s, 2) && fits_at(s, 3) && fits_at(s, 4));
    assert(fits_at(s, 5) && fits_at(s, 6) && fits_at(s, 7) && fits_at(s, 8) && fits_at(s, 9));
    assert(fits_at(s, 10) && fits_at(s, 11) && fits_at(s, 12) && fits_at(s, 13));
    assert(fits_at(s, 14) && fits_at(s, 15) && fits_at(s, 16) && fits_at(s, 17));
    assert(fits_at(s, 18) && fits_at(s, 19) && fits_at(s, 20) && fits_at(s, 21));
    assert(fits_at(s, 22) && fits_at(s, 23) && fits_at(s, 24) && fits_at(s, 25));
}

/// A string of the right shape is the text of the fields it writes.
pub proof fn lemma_encoded_fields(s: Seq<char>)
    requires
        matches_pattern(s),
    ensures
        encoded(fields(s)) == s,
{
    lemma_pattern_positions(s);
    lemma_digits_of_number4(s, 0);
    lemma_digits_of_number2(s, 5);
    lemma_digits_of_number2(s, 8);
    lemma_digits_of_number2(s, 11);
    lemma_digits_of_number2(s, 14);
    lemma_digits_of_number2(s, 17);
    lemma_digits_of_number6(s, 20);
    assert(seq!['-'] =~= s.subrange(4, 5));
    assert(seq!['-'] =~= s.subrange(7, 8));
    assert(seq!['T'] =~= s.subrange(10, 11));
    assert(seq![':'] =~= s.subrange(13, 14));
    assert(seq![':'] =~= s.subrange(16, 17));
    assert(seq!['.'] =~= s.subrange(19, 20));
    assert(s.subrange(0, 4) + s.subrange(4, 5) + s.subrange(5, 7) + s.subrange(7, 8) + s.subrange(
        8,
        10,
    ) + s.subrange(10, 11) + s.subrange(11, 13) + s.subrange(13, 14) + s.subrange(14, 16)
        + s.subrange(16, 17) + s.subrange(17, 19) + s.subrange(19, 20) + s.subrange(20, 26) =~= s);
}

/// A string that decodes to an instant is the text of that instant: each
/// instant has one encoding only.
pub proof fn lemma_encode_decode(s: Seq<char>)
    requires
        decoded(s) is Ok,
    ensures
        encoded(decoded(s)->Ok_0) == s,
{
    lemma_encoded_fields(s);
}

/// The bytes of a text of ASCII characters.
spec fn ascii_bytes(chars: Seq<char>) -> Seq<u8> {
    Seq::new(chars.len(), |i: int| chars[i] as u8)
}

/// Appends the two decimal digits of `n`.
fn push_two_digits(out: &mut Vec<u8>, n: u8, Ghost(written): Ghost<Seq<char>>)
    requires
        n <= 99,
        old(out)@ == ascii_bytes(written),
    ensures
        final(out)@ == ascii_bytes(written + two_digits(n as int)),
{
    out.push(48 + n / 10);
    out.push(48 + n % 10);
    assert(out@ =~= ascii_bytes(written + two_digits(n as int)));
}

/// Appends a separator.
fn push_separator(out: &mut Vec<u8>, c: u8, Ghost(written): Ghost<Seq<char>>)
    requires
        c < 128,
        old(out)@ == ascii_bytes(written),
    ensures
        final(out)@ == ascii_bytes(written + seq![c as char]),
{
    out.push(c);
    assert(out@ =~= ascii_bytes(written + seq![c as char]));
}

/// Writes an instant as `YYYY-MM-DDTHH:MM:SS.ffffff`.
pub fn serialize(date: &Timestamp) -> (text: String)
    ensures
        text@ == encoded(date@),
        text@.len() == ENCODED_LEN,
{
    let year = date.year();
    let micro = date.microsecond();
    let ghost t = date@;
    let mut out: Vec<u8> = Vec::new();
    let ghost mut written: Seq<char> = Seq::empty();
    assert(out@ =~= ascii_bytes(written));

    push_two_digits(&mut out, (year / 100) as u8, Ghost(written));
    proof {
        written = written + two_digits(t.year / 100);
    }
    push_two_digits(&mut out, (year % 100) as u8, Ghost(written));
    proof {
        written = written + two_digits(t.year % 100);
        assert(written =~= four_digits(t.year));
    }
    push_separator(&mut out, 45, Ghost(written));
    proof {
        written = written + seq!['-'];
    }
    push_two_digits(&mut out, date.month(), Ghost(written));
    proof {
        written = written + two_digits(t.month);
    }
    push_separator(&mut out, 45, Ghost(written));
    proof {
        written = written + seq!['-'];
    }
    push_two_digits(&mut out, date.day(), Ghost(written));
    proof {
        written = written + two_digits(t.day);
    }
    push_separator(&mut out, 84, Ghost(written));
    proof {
        written = written + seq!['T'];
    }
    push_two_digits(&mut out, date.hour(), Ghost(written));
    proof {
        written = written + two_digits(t.hour);
    }
    push_separator(&mut out, 58, Ghost(written));
    proof {
        written = written + seq![':'];
    }
    push_two_digits(&mut out, date.minute(), Ghost(written));
    proof {
        written = written + two_digits(t.minute);
    }
    push_separator(&mut out, 58, Ghost(written));
    proof {
        written = written + seq![':'];
    }
    push_two_digits(&mut out, date.second(), Ghost(written));
    proof {
        written = written + two_digits(t.second);
    }
    push_separator(&mut out, 46, Ghost(written));
    proof {
        written = written + seq!['.'];
    }
    let ghost whole = written;
    push_two_digits(&mut out, (micro / 100 / 100) as u8, Ghost(written));
    proof {
        written = written + two_digits(t.microsecond / 100 / 100);
    }
    push_two_digits(&mut out, (micro / 100 % 100) as u8, Ghost(written));
    proof {
        written = written + two_digits(t.microsecond / 100 % 100);
    }
    push_two_digits(&mut out, (micro % 100) as u8, Ghost(written));
    proof {
        written = written + two_digits(t.microsecond % 100);
        assert(written =~= whole + six_digits(t.microsecond));
        assert(written == encoded(t));
        lemma_encoded_shape(t);
        lemma_ascii_text(t);
        assert(out@ =~= encode_utf8(written));
        encode_utf8_valid_utf8(written);
        encode_utf8_decode_utf8(written);
    }
    text_of_bytes(out).unwrap()
}

/// The text of a valid instant is ASCII, so its UTF-8 encoding is its bytes.
proof fn lemma_ascii_text(t: CivilTime)
    requires
        t.is_valid(),
    ensures
        is_ascii_chars(encoded(t)),
        encode_utf8(encoded(t)) == ascii_bytes(encoded(t)),
{
    let s = encoded(t);
    lemma_encoded_shape(t);
    lemma_pattern_is_ascii(s);
    is_ascii_chars_encode_utf8(s);
    assert(encode_utf8(s) =~= ascii_bytes(s));
}

/// Only ASCII characters fit the pattern.
proof fn lemma_pattern_is_ascii(s: Seq<char>)
    requires
        matches_pattern(s),
    ensures
        is_ascii_chars(s),
{
    assert forall|i: int| 0 <= i < s.len() implies '\0' <= #[trigger] s[i] <= '\u{7f}' by {
        assert(fits_at(s, i));
    }
}

/// The number written by two digits given as bytes.
fn number_of_two(bytes: &[u8], at: usize) -> (n: u8)
    requires
        at + 2 <= bytes@.len(),
        48 <= bytes@[at as int] <= 57,
        48 <= bytes@[at + 1] <= 57,
    ensures
        n == (bytes@[at as int] - 48) * 10 + (bytes@[at + 1] - 48),
        n <= 99,
{
    (bytes[at] - 48) * 10 + (bytes[at + 1] - 48)
}

/// Reads an instant written as `YYYY-MM-DDTHH:MM:SS.ffffff`.
///
/// Nothing else is accepted: no other width, no sign, no surrounding space.
pub fn deserialize(s: &str) -> (r: Result<Timestamp, DecodeError>)
    ensures
        match r {
            Ok(t) => decoded(s@) == Ok::<CivilTime, DecodeError>(t@),
            Err(e) => decoded(s@) == Err::<CivilTime, DecodeError>(e),
        },
{
    broadcast use is_ascii_spec_bytes;

    if !s.is_ascii() {
        proof {
            if matches_pattern(s@) {
                lemma_pattern_is_ascii(s@);
            }
        }
        return Err(DecodeError::Malformed);
    }
    let bytes = s.as_bytes();
    if bytes.len() != ENCODED_LEN {
        return Err(DecodeError::Malformed);
    }
    assert(bytes@ == ascii_bytes(s@));
    let mut i: usize = 0;
    while i < ENCODED_LEN
        invariant
            i <= ENCODED_LEN,
            s@.len() == ENCODED_LEN,
            is_ascii_chars(s@),
            bytes@ == ascii_bytes(s@),
            forall|j: int| 0 <= j < i ==> fits_at(s@, j),
        decreases ENCODED_LEN - i,
    {
        let b = bytes[i];
        assert(b == s@[i as int] as u8 && s@[i as int] <= '\u{7f}');
        let fits = if i == 4 || i == 7 {
            b == 45
        } else if i == 10 {
            b == 84
        } else if i == 13 || i == 16 {
            b == 58
        } else if i == 19 {
            b == 46
        } else {
            48 <= b && b <= 57
        };
        assert(fits == fits_at(s@, i as int));
        if !fits {
            return Err(DecodeError::Malformed);
        }
        i += 1;
    }
    assert(matches_pattern(s@));
    proof {
        lemma_pattern_positions(s@);
    }
    let year: u16 = number_of_two(bytes, 0) as u16 * 100 + number_of_two(bytes, 2) as u16;
    let month = number_of_two(bytes, 5);
    let day = number_of_two(bytes, 8);
    let hour = number_of_two(bytes, 11);
    let minute = number_of_two(bytes, 14);
    let second = number_of_two(bytes, 17);
    let microsecond: u32 = (number_of_two(bytes, 20) as u32 * 100 + number_of_two(bytes, 22) as u32)
        * 100 + number_of_two(bytes, 24) as u32;
    match Timestamp::new(year, month, day, hour, minute, second, microsecond) {
        Some(t) => Ok(t),
        None => Err(DecodeError::Impossible),
    }
}

} // verus!
