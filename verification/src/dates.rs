//! Date-string normalization for storage: recognizes an ISO-like prefix,
//! month/day/year and day/month/year forms with slash or dash
//! separators, and a timestamp's date part; anything else is returned
//! unchanged.

use vstd::prelude::*;
use crate::strutil::all_digits;
use crate::strutil::chars_to_string;
use crate::strutil::digits_val;
use crate::strutil::str_to_chars;
use crate::xml::find_char;
use crate::xml::find_char_from;
use crate::xml::sub_chars;

verus! {

/// Whether the text begins like an ISO date: at least ten characters
/// with dashes after the year and the month.
pub open spec fn iso_like(s: Seq<char>) -> bool {
    s.len() >= 10 && s[4] == '-' && s[7] == '-'
}

/// The pieces of `s` between occurrences of `sep`, from `i` on.  The
/// range guard on the recursion makes termination evident; it always
/// holds.
pub open spec fn spec_split_from(s: Seq<char>, i: int, sep: char) -> Seq<Seq<char>>
    decreases s.len() - i,
{
    if i < 0 || i > s.len() {
        Seq::empty()
    } else {
        match find_char(s, i, sep) {
            None => seq![s.subrange(i, s.len() as int)],
            Some(j) => if i <= j < s.len() {
                seq![s.subrange(i, j)] + spec_split_from(s, j + 1, sep)
            } else {
                Seq::empty()
            },
        }
    }
}

/// The three date parts of `s`: split on slashes when a slash occurs,
/// else on dashes when a dash occurs; `None` when neither occurs or the
/// split does not give exactly three pieces.
pub open spec fn spec_date_parts(s: Seq<char>) -> Option<Seq<Seq<char>>> {
    if find_char(s, 0, '/') is Some {
        let p = spec_split_from(s, 0, '/');
        if p.len() == 3 {
            Some(p)
        } else {
            None
        }
    } else if find_char(s, 0, '-') is Some {
        let p = spec_split_from(s, 0, '-');
        if p.len() == 3 {
            Some(p)
        } else {
            None
        }
    } else {
        None
    }
}

/// The value of a decimal numeral as an unsigned parse reads it: an
/// optional leading plus sign, then digits; anything else, or a value
/// beyond the unsigned 32-bit range, reads as zero.
pub open spec fn spec_parse_u32(s: Seq<char>) -> int {
    let body = if s.len() > 0 && s[0] == '+' {
        s.skip(1)
    } else {
        s
    };
    if all_digits(body) && digits_val(body) <= u32::MAX as int {
        digits_val(body)
    } else {
        0
    }
}

/// The value of a decimal numeral as a signed parse reads it: an
/// optional leading plus or minus sign, then digits; anything else, or a
/// value beyond the signed 32-bit range, reads as zero.
pub open spec fn spec_parse_i32(s: Seq<char>) -> int {
    if s.len() > 0 && s[0] == '-' {
        let body = s.skip(1);
        if all_digits(body) && digits_val(body) <= 0x8000_0000 {
            -digits_val(body)
        } else {
            0
        }
    } else {
        let body = if s.len() > 0 && s[0] == '+' {
            s.skip(1)
        } else {
            s
        };
        if all_digits(body) && digits_val(body) <= i32::MAX as int {
            digits_val(body)
        } else {
            0
        }
    }
}

/// The character of one decimal digit.
pub open spec fn digit_char_of(n: int) -> char {
    if n == 0 {
        '0'
    } else if n == 1 {
        '1'
    } else if n == 2 {
        '2'
    } else if n == 3 {
        '3'
    } else if n == 4 {
        '4'
    } else if n == 5 {
        '5'
    } else if n == 6 {
        '6'
    } else if n == 7 {
        '7'
    } else if n == 8 {
        '8'
    } else {
        '9'
    }
}

/// The decimal numeral of a non-negative number.
pub open spec fn dec_digits(n: int) -> Seq<char>
    decreases n,
{
    if n < 10 {
        seq![digit_char_of(n)]
    } else {
        dec_digits(n / 10) + seq![digit_char_of(n % 10)]
    }
}

/// `k` zero characters.
pub open spec fn zeros(k: int) -> Seq<char>
    decreases k,
{
    if k <= 0 {
        Seq::empty()
    } else {
        seq!['0'] + zeros(k - 1)
    }
}

/// The numeral of `n` left-padded with zeros to at least width `w`.
pub open spec fn pad_to(n: int, w: int) -> Seq<char> {
    let d = dec_digits(n);
    if d.len() >= w {
        d
    } else {
        zeros(w - d.len()) + d
    }
}

/// The ISO rendering of a normalized date: four-digit year, two-digit
/// month, two-digit day.
pub open spec fn iso_of(year: int, month: int, day: int) -> Seq<char> {
    pad_to(year, 4) + "-"@ + pad_to(month, 2) + "-"@ + pad_to(day, 2)
}

/// Whether the parts read as month/day/year.
pub open spec fn mdy_ok(p: Seq<Seq<char>>) -> bool {
    1 <= spec_parse_u32(p[0]) <= 12 && 1 <= spec_parse_u32(p[1]) <= 31 && spec_parse_i32(p[2]) > 0
}

/// Whether the parts read as day/month/year.
pub open spec fn dmy_ok(p: Seq<Seq<char>>) -> bool {
    1 <= spec_parse_u32(p[1]) <= 12 && 1 <= spec_parse_u32(p[0]) <= 31 && spec_parse_i32(p[2]) > 0
}

/// What date normalization yields: an ISO-like prefix as is, else a
/// three-part date read month-first, else day-first, else the date part
/// of a timestamp, else the input unchanged.
pub open spec fn spec_normalize_date(s: Seq<char>) -> Seq<char> {
    if iso_like(s) {
        s.take(10)
    } else if spec_date_parts(s) matches Some(p) && mdy_ok(p) {
        let p = spec_date_parts(s)->Some_0;
        iso_of(spec_parse_i32(p[2]), spec_parse_u32(p[0]), spec_parse_u32(p[1]))
    } else if spec_date_parts(s) matches Some(p) && dmy_ok(p) {
        let p = spec_date_parts(s)->Some_0;
        iso_of(spec_parse_i32(p[2]), spec_parse_u32(p[1]), spec_parse_u32(p[0]))
    } else if find_char(s, 0, 'T') matches Some(t) && find_char(s, 0, ':') is Some && iso_like(
        s.take(t),
    ) {
        s.take(find_char(s, 0, 'T')->Some_0).take(10)
    } else {
        s
    }
}

/// Splits a date string into its slash- or dash-separated parts.
/// Exactly [`spec_date_parts`]: `Some` exactly when a separator occurs
/// and the split gives three pieces.
pub fn parse_date_slashes(date_str: &str) -> (r: Option<Vec<String>>)
    ensures
        match r {
            Some(parts) => spec_date_parts(date_str@) == Some(parts.deep_view()),
            None => spec_date_parts(date_str@) is None,
        },
{
    let chars = str_to_chars(date_str);
    let sep: char;
    if find_char_from(&chars, 0, '/').is_some() {
        sep = '/';
    } else if find_char_from(&chars, 0, '-').is_some() {
        sep = '-';
    } else {
        return None;
    }
    let parts = split_exec(&chars, sep);
    if parts.len() == 3 {
        Some(parts)
    } else {
        None
    }
}

/// Splits on every occurrence of `sep`.  Exactly [`spec_split_from`]
/// from the start.
fn split_exec(chars: &Vec<char>, sep: char) -> (r: Vec<String>)
    ensures
        r.deep_view() == spec_split_from(chars@, 0, sep),
{
    let n = chars.len();
    let mut parts: Vec<String> = Vec::new();
    let mut i: usize = 0;
    proof {
        assert(parts.deep_view() =~~= Seq::<Seq<char>>::empty());
        assert(Seq::<Seq<char>>::empty() + spec_split_from(chars@, 0, sep) =~~= spec_split_from(
            chars@,
            0,
            sep,
        ));
    }
    loop
        invariant
            0 <= i <= n,
            n == chars@.len(),
            spec_split_from(chars@, 0, sep) == parts.deep_view() + spec_split_from(
                chars@,
                i as int,
                sep,
            ),
        decreases n - i,
    {
        let ghost old_parts = parts.deep_view();
        match find_char_from(chars, i, sep) {
            Some(j) => {
                let piece = sub_chars(chars, i, j);
                parts.push(chars_to_string(&piece));
                proof {
                    assert(parts.deep_view() =~~= old_parts.push(
                        chars@.subrange(i as int, j as int),
                    ));
                    assert(old_parts + (seq![chars@.subrange(i as int, j as int)]
                        + spec_split_from(chars@, j as int + 1, sep)) =~~= parts.deep_view()
                        + spec_split_from(chars@, j as int + 1, sep));
                }
                i = j + 1;
            },
            None => {
                let piece = sub_chars(chars, i, n);
                parts.push(chars_to_string(&piece));
                proof {
                    assert(parts.deep_view() =~~= old_parts.push(
                        chars@.subrange(i as int, n as int),
                    ));
                    assert(old_parts + seq![chars@.subrange(i as int, n as int)]
                        =~~= parts.deep_view());
                }
                return parts;
            },
        }
    }
}

/// Reads a decimal numeral as an unsigned parse does.  Exactly
/// [`spec_parse_u32`].
fn parse_u32_exec(s: &Vec<char>) -> (r: u32)
    ensures
        r == spec_parse_u32(s@),
{
    let n = s.len();
    let start: usize = if n > 0 && s[0] == '+' {
        1
    } else {
        0
    };
    let ghost body = if s@.len() > 0 && s@[0] == '+' {
        s@.skip(1)
    } else {
        s@
    };
    proof {
        assert(body =~= s@.subrange(start as int, n as int));
    }
    parse_digits(s, start, n)
}

/// Reads the digit run between `a` and `b` as an unsigned parse does:
/// its value when every character is a digit and the value fits, else
/// zero.
fn parse_digits(s: &Vec<char>, a: usize, b: usize) -> (r: u32)
    requires
        a <= b <= s@.len(),
    ensures
        ({
            let body = s@.subrange(a as int, b as int);
            if all_digits(body) && digits_val(body) <= u32::MAX as int {
                r == digits_val(body)
            } else {
                r == 0
            }
        }),
{
    let ghost body = s@.subrange(a as int, b as int);
    if a == b {
        assert(!all_digits(body));
        return 0;
    }
    let mut val: u64 = 0;
    let mut big = false;
    let mut i: usize = a;
    proof {
        assert(body.take(0) =~= Seq::<char>::empty());
    }
    while i < b
        invariant
            a <= i <= b <= s@.len(),
            body == s@.subrange(a as int, b as int),
            forall|l: int| 0 <= l < i - a ==> '0' <= #[trigger] body[l] <= '9',
            !big ==> val == digits_val(body.take(i - a)) && val <= u32::MAX,
            big ==> digits_val(body.take(i - a)) > u32::MAX,
        decreases b - i,
    {
        let c = s[i];
        if c < '0' || c > '9' {
            assert(body[i - a] == s@[i as int]);
            assert(!all_digits(body));
            return 0;
        }
        proof {
            assert(body[i - a] == s@[i as int]);
            assert(body.take(i - a + 1).drop_last() =~= body.take(i - a));
            assert(body.take(i - a + 1).last() == body[i - a]);
        }
        let d: u64 = (c as u32 as u64) - ('0' as u32 as u64);
        assert(d == body[i - a] as int - '0' as int);
        if big {
            proof {
                let prev = digits_val(body.take(i - a));
                assert(digits_val(body.take(i - a + 1)) == prev * 10 + d);
                assert(prev * 10 >= prev + prev);
            }
        } else {
            let next: u64 = val * 10 + d;
            if next > 0xFFFF_FFFF {
                big = true;
            } else {
                val = next;
            }
            assert(digits_val(body.take(i - a + 1)) == digits_val(body.take(i - a)) * 10 + d);
        }
        i += 1;
    }
    proof {
        assert(body.take(b - a) =~= body);
        assert(all_digits(body));
    }
    if big {
        0
    } else {
        val as u32
    }
}

/// Reads a decimal numeral as a signed parse does.  Exactly
/// [`spec_parse_i32`].
fn parse_i32_exec(s: &Vec<char>) -> (r: i32)
    ensures
        r as int == spec_parse_i32(s@),
{
    let n = s.len();
    if n > 0 && s[0] == '-' {
        let ghost body = s@.skip(1);
        proof {
            assert(body =~= s@.subrange(1, n as int));
        }
        let mag = parse_digits_signed(s, 1, n);
        proof {
            if all_digits(body) && digits_val(body) <= 0x8000_0000 {
                assert(mag == digits_val(body));
            } else {
                assert(mag == 0);
            }
        }
        let r: i32 = if mag == 0x8000_0000 {
            i32::MIN
        } else {
            -((mag as u32) as i32)
        };
        proof {
            if all_digits(body) && digits_val(body) <= 0x8000_0000 {
                assert(r as int == -digits_val(body));
            }
        }
        r
    } else {
        let start: usize = if n > 0 && s[0] == '+' {
            1
        } else {
            0
        };
        let ghost body = if s@.len() > 0 && s@[0] == '+' {
            s@.skip(1)
        } else {
            s@
        };
        proof {
            assert(body =~= s@.subrange(start as int, n as int));
        }
        let mag = parse_digits_signed(s, start, n);
        proof {
            if all_digits(body) && digits_val(body) <= i32::MAX as int {
                assert(mag == digits_val(body));
            }
        }
        if mag <= 0x7FFF_FFFF {
            mag as i32
        } else {
            proof {
                if all_digits(body) {
                    assert(digits_val(body) > i32::MAX as int);
                }
            }
            0
        }
    }
}

/// Reads the digit run between `a` and `b`: its value when every
/// character is a digit and the value is at most `2^31`, else zero.
fn parse_digits_signed(s: &Vec<char>, a: usize, b: usize) -> (r: u64)
    requires
        a <= b <= s@.len(),
    ensures
        ({
            let body = s@.subrange(a as int, b as int);
            if all_digits(body) && digits_val(body) <= 0x8000_0000 {
                r == digits_val(body)
            } else {
                r == 0
            }
        }),
{
    let ghost body = s@.subrange(a as int, b as int);
    if a == b {
        assert(!all_digits(body));
        return 0;
    }
    let mut val: u64 = 0;
    let mut big = false;
    let mut i: usize = a;
    proof {
        assert(body.take(0) =~= Seq::<char>::empty());
    }
    while i < b
        invariant
            a <= i <= b <= s@.len(),
            body == s@.subrange(a as int, b as int),
            forall|l: int| 0 <= l < i - a ==> '0' <= #[trigger] body[l] <= '9',
            !big ==> val == digits_val(body.take(i - a)) && val <= 0x8000_0000,
            big ==> digits_val(body.take(i - a)) > 0x8000_0000,
        decreases b - i,
    {
        let c = s[i];
        if c < '0' || c > '9' {
            assert(body[i - a] == s@[i as int]);
            assert(!all_digits(body));
            return 0;
        }
        proof {
            assert(body[i - a] == s@[i as int]);
            assert(body.take(i - a + 1).drop_last() =~= body.take(i - a));
            assert(body.take(i - a + 1).last() == body[i - a]);
        }
        let d: u64 = (c as u32 as u64) - ('0' as u32 as u64);
        assert(d == body[i - a] as int - '0' as int);
        if big {
            proof {
                let prev = digits_val(body.take(i - a));
                assert(digits_val(body.take(i - a + 1)) == prev * 10 + d);
                assert(prev * 10 >= prev + prev);
            }
        } else {
            let next: u64 = val * 10 + d;
            if next > 0x8000_0000 {
                big = true;
            } else {
                val = next;
            }
            assert(digits_val(body.take(i - a + 1)) == digits_val(body.take(i - a)) * 10 + d);
        }
        i += 1;
    }
    proof {
        assert(body.take(b - a) =~= body);
        assert(all_digits(body));
    }
    if big {
        0
    } else {
        val
    }
}

/// Every character of [`zeros`] is a zero, and its length is the width.
proof fn lemma_zeros(k: int)
    ensures
        zeros(k).len() == if k <= 0 {
            0int
        } else {
            k
        },
        forall|i: int| 0 <= i < zeros(k).len() ==> zeros(k)[i] == '0',
    decreases k,
{
    if k > 0 {
        lemma_zeros(k - 1);
        assert forall|i: int| 0 <= i < zeros(k).len() implies zeros(k)[i] == '0' by {
            if i > 0 {
                assert(zeros(k)[i] == zeros(k - 1)[i - 1]);
            }
        }
    }
}

/// The executable character of one decimal digit.
fn digit_char_exec(n: u32) -> (c: char)
    requires
        n < 10,
    ensures
        c == digit_char_of(n as int),
{
    match n {
        0 => '0',
        1 => '1',
        2 => '2',
        3 => '3',
        4 => '4',
        5 => '5',
        6 => '6',
        7 => '7',
        8 => '8',
        _ => '9',
    }
}

/// Appends the decimal numeral of `n`.  Exactly [`dec_digits`].
fn push_dec(out: &mut Vec<char>, n: u32)
    ensures
        final(out)@ == old(out)@ + dec_digits(n as int),
    decreases n,
{
    if n < 10 {
        out.push(digit_char_exec(n));
        assert(out@ =~= old(out)@ + dec_digits(n as int));
    } else {
        push_dec(out, n / 10);
        out.push(digit_char_exec(n % 10));
        assert(out@ =~= old(out)@ + (dec_digits(n as int / 10) + seq![
            digit_char_of(n as int % 10),
        ]));
    }
}

/// Appends the numeral of `n` left-padded with zeros to width `w`.
/// Exactly [`pad_to`].
fn push_padded(out: &mut Vec<char>, n: u32, w: usize)
    ensures
        final(out)@ == old(out)@ + pad_to(n as int, w as int),
{
    let mut d: Vec<char> = Vec::new();
    push_dec(&mut d, n);
    proof {
        assert(Seq::<char>::empty() + dec_digits(n as int) =~= dec_digits(n as int));
    }
    if d.len() >= w {
        let mut i: usize = 0;
        while i < d.len()
            invariant
                0 <= i <= d@.len(),
                out@ == old(out)@ + d@.take(i as int),
            decreases d@.len() - i,
        {
            out.push(d[i]);
            assert(out@ =~= old(out)@ + d@.take(i as int + 1));
            i += 1;
        }
        assert(out@ =~= old(out)@ + d@);
    } else {
        let k = w - d.len();
        let mut t: usize = 0;
        proof {
            lemma_zeros(0);
        }
        while t < k
            invariant
                0 <= t <= k,
                k == w - d@.len(),
                d@ == dec_digits(n as int),
                out@ == old(out)@ + zeros(t as int),
            decreases k - t,
        {
            out.push('0');
            proof {
                lemma_zeros(t as int);
                lemma_zeros(t as int + 1);
                assert(out@ =~= old(out)@ + zeros(t as int + 1));
            }
            t += 1;
        }
        let mut i: usize = 0;
        let ghost padded = out@;
        while i < d.len()
            invariant
                0 <= i <= d@.len(),
                out@ == padded + d@.take(i as int),
            decreases d@.len() - i,
        {
            out.push(d[i]);
            assert(out@ =~= padded + d@.take(i as int + 1));
            i += 1;
        }
        proof {
            assert(out@ =~= padded + d@);
            assert(out@ =~= old(out)@ + (zeros(k as int) + d@));
        }
    }
}

/// Normalizes a date string to ISO form where one of the recognized
/// shapes fits, and returns it unchanged otherwise.  Exactly
/// [`spec_normalize_date`].
pub fn normalize_date_format(date_str: &str) -> (r: String)
    ensures
        r@ == spec_normalize_date(date_str@),
{
    let chars = str_to_chars(date_str);
    let n = chars.len();
    if n >= 10 && chars[4] == '-' && chars[7] == '-' {
        let prefix = sub_chars(&chars, 0, 10);
        assert(prefix@ =~= date_str@.take(10));
        return chars_to_string(&prefix);
    }
    assert(!iso_like(date_str@));
    match parse_date_slashes(date_str) {
        Some(parts) => {
            let ghost p = parts.deep_view();
            proof {
                assert(p[0] == parts@[0]@);
                assert(p[1] == parts@[1]@);
                assert(p[2] == parts@[2]@);
            }
            let c0 = str_to_chars(parts[0].as_str());
            let c1 = str_to_chars(parts[1].as_str());
            let c2 = str_to_chars(parts[2].as_str());
            let first = parse_u32_exec(&c0);
            let second = parse_u32_exec(&c1);
            let year = parse_i32_exec(&c2);
            if first >= 1 && first <= 12 && second >= 1 && second <= 31 && year > 0 {
                assert(mdy_ok(p));
                let mut out: Vec<char> = Vec::new();
                push_padded(&mut out, year as u32, 4);
                out.push('-');
                push_padded(&mut out, first, 2);
                out.push('-');
                push_padded(&mut out, second, 2);
                proof {
                    reveal_strlit("-");
                    assert("-"@ =~= seq!['-']);
                    assert(out@ =~= iso_of(year as int, first as int, second as int));
                }
                return chars_to_string(&out);
            }
            if second >= 1 && second <= 12 && first >= 1 && first <= 31 && year > 0 {
                assert(!mdy_ok(p) && dmy_ok(p));
                let mut out: Vec<char> = Vec::new();
                push_padded(&mut out, year as u32, 4);
                out.push('-');
                push_padded(&mut out, second, 2);
                out.push('-');
                push_padded(&mut out, first, 2);
                proof {
                    reveal_strlit("-");
                    assert("-"@ =~= seq!['-']);
                    assert(out@ =~= iso_of(year as int, second as int, first as int));
                }
                return chars_to_string(&out);
            }
            assert(!mdy_ok(p) && !dmy_ok(p));
        },
        None => {
        },
    }
    match find_char_from(&chars, 0, 'T') {
        Some(t) => {
            if find_char_from(&chars, 0, ':').is_some() {
                if t >= 10 && chars[4] == '-' && chars[7] == '-' {
                    assert(iso_like(date_str@.take(t as int)));
                    let prefix = sub_chars(&chars, 0, 10);
                    proof {
                        assert(prefix@ =~= date_str@.take(t as int).take(10));
                    }
                    return chars_to_string(&prefix);
                }
                assert(!iso_like(date_str@.take(t as int))) by {
                    if iso_like(date_str@.take(t as int)) {
                        assert(date_str@.take(t as int)[4] == date_str@[4]);
                        assert(date_str@.take(t as int)[7] == date_str@[7]);
                    }
                }
            }
        },
        None => {
        },
    }
    chars_to_string(&chars)
}

} // verus!
