//! Entity escaping for serialized text and the inverse unescaping applied
//! to parsed text, with a proof that unescaping undoes escaping.

use vstd::prelude::*;
use crate::strutil::all_digits;
use crate::strutil::digits_val;
use crate::strutil::is_uws;
use crate::strutil::spec_trim_uws;
use crate::strutil::str_to_chars;
use crate::strutil::trim_chars_uws;
use crate::xml::find_char;
use crate::xml::find_char_from;

verus! {

use vstd::string::StringExecFns;
use vstd::utf8::is_scalar;

/// Relies on `char::from_u32` from std: the conversion succeeds exactly
/// on Unicode scalar values, yielding the character with that value.
pub assume_specification[ char::from_u32 ](u: u32) -> (r: Option<char>)
    ensures
        match r {
            Some(c) => c as u32 == u,
            None => !is_scalar(u),
        },
;

/// Whether a character is a hexadecimal digit.
pub open spec fn is_hex_digit(c: char) -> bool {
    ('0' <= c <= '9') || ('a' <= c <= 'f') || ('A' <= c <= 'F')
}

/// The value of one hexadecimal digit.
pub open spec fn hex_digit_val(c: char) -> int {
    if '0' <= c <= '9' {
        c as int - '0' as int
    } else if 'a' <= c <= 'f' {
        10 + c as int - 'a' as int
    } else {
        10 + c as int - 'A' as int
    }
}

/// Whether every character is a hexadecimal digit, and there is at
/// least one.
pub open spec fn all_hex(s: Seq<char>) -> bool {
    s.len() > 0 && forall|i: int| 0 <= i < s.len() ==> is_hex_digit(#[trigger] s[i])
}

/// The numeric value of a hexadecimal digit string.
pub open spec fn hex_val(s: Seq<char>) -> int
    decreases s.len(),
{
    if s.len() == 0 {
        0
    } else {
        hex_val(s.drop_last()) * 16 + hex_digit_val(s.last())
    }
}

/// The scalar a character-reference body (the text between `&#` and
/// `;`) denotes: hexadecimal after a leading `x`, decimal otherwise;
/// `None` for malformed digits or a value that is no Unicode scalar.
pub open spec fn char_ref_value(body: Seq<char>) -> Option<u32> {
    if body.len() > 0 && body[0] == 'x' {
        let d = body.skip(1);
        if all_hex(d) && hex_val(d) <= 0x10FFFF && is_scalar(hex_val(d) as u32) {
            Some(hex_val(d) as u32)
        } else {
            None
        }
    } else {
        if all_digits(body) && digits_val(body) <= 0x10FFFF && is_scalar(
            digits_val(body) as u32,
        ) {
            Some(digits_val(body) as u32)
        } else {
            None
        }
    }
}

/// The wire form of one character: the five XML-special characters become
/// named entities, every other character stands for itself.
pub open spec fn entity_of(c: char) -> Seq<char> {
    if c == '&' {
        seq!['&', 'a', 'm', 'p', ';']
    } else if c == '<' {
        seq!['&', 'l', 't', ';']
    } else if c == '>' {
        seq!['&', 'g', 't', ';']
    } else if c == '"' {
        seq!['&', 'q', 'u', 'o', 't', ';']
    } else if c == '\'' {
        seq!['&', 'a', 'p', 'o', 's', ';']
    } else {
        seq![c]
    }
}

/// The entity-escaped form of a text: each character replaced by its wire
/// form.
pub open spec fn spec_escape(s: Seq<char>) -> Seq<char>
    decreases s.len(),
{
    if s.len() == 0 {
        Seq::empty()
    } else {
        entity_of(s[0]) + spec_escape(s.skip(1))
    }
}

/// Escaping distributes over concatenation.
pub proof fn lemma_escape_app(u: Seq<char>, v: Seq<char>)
    ensures
        spec_escape(u + v) == spec_escape(u) + spec_escape(v),
    decreases u.len(),
{
    if u.len() == 0 {
        assert(u + v =~= v);
        assert(spec_escape(u) + spec_escape(v) =~= spec_escape(v));
    } else {
        assert((u + v).skip(1) =~= u.skip(1) + v);
        lemma_escape_app(u.skip(1), v);
        assert(entity_of(u[0]) + (spec_escape(u.skip(1)) + spec_escape(v)) =~= (entity_of(u[0])
            + spec_escape(u.skip(1))) + spec_escape(v));
    }
}

/// The inverse of [`spec_escape`]: decodes the five named entities and
/// decimal or hexadecimal character references; a bare `&` that begins
/// neither makes the whole text undecodable.
pub open spec fn spec_unescape(s: Seq<char>) -> Option<Seq<char>>
    decreases s.len(),
{
    if s.len() == 0 {
        Some(Seq::empty())
    } else if s[0] == '&' {
        if s.len() >= 5 && s[1] == 'a' && s[2] == 'm' && s[3] == 'p' && s[4] == ';' {
            cons_opt('&', spec_unescape(s.skip(5)))
        } else if s.len() >= 4 && s[1] == 'l' && s[2] == 't' && s[3] == ';' {
            cons_opt('<', spec_unescape(s.skip(4)))
        } else if s.len() >= 4 && s[1] == 'g' && s[2] == 't' && s[3] == ';' {
            cons_opt('>', spec_unescape(s.skip(4)))
        } else if s.len() >= 6 && s[1] == 'q' && s[2] == 'u' && s[3] == 'o' && s[4] == 't' && s[5]
            == ';' {
            cons_opt('"', spec_unescape(s.skip(6)))
        } else if s.len() >= 6 && s[1] == 'a' && s[2] == 'p' && s[3] == 'o' && s[4] == 's' && s[5]
            == ';' {
            cons_opt('\'', spec_unescape(s.skip(6)))
        } else if s.len() >= 4 && s[1] == '#' {
            // a character reference; the range guard on the recursion
            // makes termination evident and always holds
            match find_char(s, 2, ';') {
                None => None,
                Some(semi) => if 2 <= semi < s.len() {
                    match char_ref_value(s.subrange(2, semi)) {
                        Some(u) => cons_opt(u as char, spec_unescape(s.skip(semi + 1))),
                        None => None,
                    }
                } else {
                    None
                },
            }
        } else {
            None
        }
    } else {
        cons_opt(s[0], spec_unescape(s.skip(1)))
    }
}

/// Prepends a character to a decode result, keeping failure as failure.
pub open spec fn cons_opt(c: char, r: Option<Seq<char>>) -> Option<Seq<char>> {
    match r {
        Some(t) => Some(seq![c] + t),
        None => None,
    }
}

/// Unescaping undoes escaping: decoding an escaped text always succeeds
/// and yields the original text.
pub proof fn lemma_unescape_escape(s: Seq<char>)
    ensures
        spec_unescape(spec_escape(s)) == Some(s),
    decreases s.len(),
{
    if s.len() == 0 {
    } else {
        let c = s[0];
        let tail = s.skip(1);
        lemma_unescape_escape(tail);
        let es = spec_escape(s);
        let et = spec_escape(tail);
        assert(es == entity_of(c) + et);
        assert(seq![c] + tail =~= s);
        if c == '&' {
            assert(es.skip(5) =~= et);
        } else if c == '<' {
            assert(es[1] == 'l');
            assert(es.skip(4) =~= et);
        } else if c == '>' {
            assert(es[1] == 'g');
            assert(es.skip(4) =~= et);
        } else if c == '"' {
            assert(es[1] == 'q');
            assert(es.skip(6) =~= et);
        } else if c == '\'' {
            assert(es[1] == 'a' && es[2] == 'p');
            assert(es.skip(6) =~= et);
        } else {
            assert(es[0] == c);
            assert(es.skip(1) =~= et);
        }
    }
}

/// Escaping keeps the ends of a text free of whitespace: the escaped
/// form of a character begins with `&` or the character itself and ends
/// with `;` or the character itself.
proof fn lemma_escape_ends(v: Seq<char>)
    requires
        v.len() > 0,
    ensures
        spec_escape(v).len() > 0,
        !is_uws(v[0]) ==> !is_uws(spec_escape(v)[0]),
        !is_uws(v.last()) ==> !is_uws(spec_escape(v).last()),
    decreases v.len(),
{
    let e0 = entity_of(v[0]);
    let et = spec_escape(v.skip(1));
    assert(spec_escape(v) == e0 + et);
    assert(spec_escape(v)[0] == e0[0]);
    if v.len() == 1 {
        assert(et =~= Seq::<char>::empty());
        assert(spec_escape(v).last() == e0.last());
    } else {
        lemma_escape_ends(v.skip(1));
        assert(v.skip(1).last() == v.last());
        assert(spec_escape(v).last() == et.last());
    }
}

/// A text whose ends are not whitespace trims to itself.
proof fn lemma_trim_uws_fixed(s: Seq<char>)
    requires
        s.len() == 0 || (!is_uws(s[0]) && !is_uws(s.last())),
    ensures
        spec_trim_uws(s) == s,
{
    if s.len() == 0 {
        assert(spec_trim_uws(s) =~= s);
    } else {
        assert(crate::strutil::first_non_uws(s, 0) == 0);
        assert(crate::strutil::last_non_uws_end(s, s.len() as int) == s.len());
        assert(spec_trim_uws(s) =~= s);
    }
}

/// The field-level round trip: the text chunk the parser reads from a
/// serialized value is that value, whenever the value carries no outer
/// whitespace — as every parsed field does.
pub proof fn lemma_text_chunk_escape(v: Seq<char>)
    requires
        spec_trim_uws(v) == v,
    ensures
        spec_text_chunk(spec_escape(v)) == v,
{
    lemma_unescape_escape(v);
    if v.len() == 0 {
        assert(spec_escape(v) =~= Seq::<char>::empty());
        lemma_trim_uws_fixed(spec_escape(v));
    } else {
        assert(!is_uws(v[0])) by {
            if is_uws(v[0]) {
                lemma_first_non_uws_pos(v);
            }
        }
        assert(!is_uws(v.last())) by {
            if is_uws(v.last()) {
                lemma_last_non_uws_pos(v);
            }
        }
        lemma_escape_ends(v);
        lemma_trim_uws_fixed(spec_escape(v));
    }
}

/// A leading whitespace character shortens the trimmed form.
proof fn lemma_first_non_uws_pos(v: Seq<char>)
    requires
        v.len() > 0,
        is_uws(v[0]),
    ensures
        spec_trim_uws(v) != v,
{
    assert(crate::strutil::first_non_uws(v, 0) == crate::strutil::first_non_uws(v, 1));
    lemma_first_non_uws_ge(v, 1);
    lemma_last_non_uws_le_bound(v, v.len() as int);
    assert(spec_trim_uws(v).len() < v.len());
}

proof fn lemma_first_non_uws_ge(v: Seq<char>, i: int)
    requires
        0 <= i <= v.len(),
    ensures
        crate::strutil::first_non_uws(v, i) >= i,
    decreases v.len() - i,
{
    if i < v.len() && is_uws(v[i]) {
        lemma_first_non_uws_ge(v, i + 1);
    }
}

/// A trailing whitespace character shortens the trimmed form.
proof fn lemma_last_non_uws_pos(v: Seq<char>)
    requires
        v.len() > 0,
        is_uws(v.last()),
    ensures
        spec_trim_uws(v) != v,
{
    assert(crate::strutil::last_non_uws_end(v, v.len() as int) == crate::strutil::last_non_uws_end(
        v,
        v.len() - 1,
    ));
    lemma_last_non_uws_le_bound(v, v.len() - 1);
    lemma_first_non_uws_ge(v, 0);
    assert(spec_trim_uws(v).len() < v.len());
}

proof fn lemma_last_non_uws_le_bound(v: Seq<char>, i: int)
    requires
        0 <= i <= v.len(),
    ensures
        crate::strutil::last_non_uws_end(v, i) <= i,
    decreases i,
{
    if i > 0 && is_uws(v[i - 1]) {
        lemma_last_non_uws_le_bound(v, i - 1);
    }
}

/// Escaped text never holds an angle bracket: embedded content cannot
/// open or close a tag of the surrounding document.
pub proof fn lemma_escape_no_markup(s: Seq<char>)
    ensures
        forall|i: int|
            0 <= i < spec_escape(s).len() ==> #[trigger] spec_escape(s)[i] != '<' && spec_escape(
                s,
            )[i] != '>',
    decreases s.len(),
{
    if s.len() > 0 {
        lemma_escape_no_markup(s.skip(1));
        let e = entity_of(s[0]);
        assert forall|i: int|
            0 <= i < spec_escape(s).len() implies #[trigger] spec_escape(s)[i] != '<'
            && spec_escape(s)[i] != '>' by {
            if i < e.len() {
                assert(spec_escape(s)[i] == e[i]);
            } else {
                assert(spec_escape(s)[i] == spec_escape(s.skip(1))[i - e.len()]);
            }
        }
    }
}

/// Entity-escapes a text for embedding in a serialized document.
pub fn escape_xml(text: &str) -> (r: String)
    ensures
        r@ == spec_escape(text@),
{
    let chars = str_to_chars(text);
    let mut out = String::new();
    let mut i: usize = 0;
    while i < chars.len()
        invariant
            0 <= i <= chars@.len(),
            chars@ == text@,
            out@ == spec_escape(text@.take(i as int)),
        decreases chars@.len() - i,
    {
        let c = chars[i];
        if c == '&' {
            out.append("&amp;");
            proof {
                reveal_strlit("&amp;");
                assert("&amp;"@ =~= entity_of(c));
            }
        } else if c == '<' {
            out.append("&lt;");
            proof {
                reveal_strlit("&lt;");
                assert("&lt;"@ =~= entity_of(c));
            }
        } else if c == '>' {
            out.append("&gt;");
            proof {
                reveal_strlit("&gt;");
                assert("&gt;"@ =~= entity_of(c));
            }
        } else if c == '"' {
            out.append("&quot;");
            proof {
                reveal_strlit("&quot;");
                assert("&quot;"@ =~= entity_of(c));
            }
        } else if c == '\'' {
            out.append("&apos;");
            proof {
                reveal_strlit("&apos;");
                assert("&apos;"@ =~= entity_of(c));
            }
        } else {
            out.push(c);
            proof {
                assert(seq![c] =~= entity_of(c));
            }
        }
        proof {
            let t = text@;
            let w = seq![t[i as int]];
            assert(t.take(i as int + 1) =~= t.take(i as int) + w);
            lemma_escape_app(t.take(i as int), w);
            assert(w.skip(1) =~= Seq::<char>::empty());
            assert(spec_escape(Seq::<char>::empty()) =~= Seq::<char>::empty());
            assert(spec_escape(w) == entity_of(w[0]) + spec_escape(w.skip(1)));
            assert(spec_escape(w) =~= entity_of(t[i as int]));
        }
        i += 1;
    }
    proof {
        assert(text@.take(text@.len() as int) =~= text@);
    }
    out
}

/// A search in a suffix finds the same character, shifted.
proof fn lemma_find_char_shift(s: Seq<char>, i: int, from: int, c: char)
    requires
        0 <= i <= s.len(),
        0 <= from,
    ensures
        find_char(s.skip(i), from, c) == match find_char(s, i + from, c) {
            Some(j) => Some(j - i),
            None => None::<int>,
        },
    decreases s.len() - i - from,
{
    let t = s.skip(i);
    if from < t.len() {
        assert(t[from] == s[i + from]);
        if t[from] != c {
            lemma_find_char_shift(s, i, from + 1, c);
        }
    }
}

/// Reads the decimal digits between `a` and `b`: their value when every
/// character is a digit and the value is at most the greatest scalar.
fn dec_ref_val(v: &Vec<char>, a: usize, b: usize) -> (r: Option<u32>)
    requires
        a <= b <= v@.len(),
    ensures
        ({
            let body = v@.subrange(a as int, b as int);
            match r {
                Some(u) => all_digits(body) && digits_val(body) == u && u <= 0x10FFFF,
                None => !(all_digits(body) && digits_val(body) <= 0x10FFFF),
            }
        }),
{
    let ghost body = v@.subrange(a as int, b as int);
    if a == b {
        assert(!all_digits(body));
        return None;
    }
    let mut val: u32 = 0;
    let mut big = false;
    let mut i: usize = a;
    proof {
        assert(body.take(0) =~= Seq::<char>::empty());
    }
    while i < b
        invariant
            a <= i <= b <= v@.len(),
            body == v@.subrange(a as int, b as int),
            forall|l: int| 0 <= l < i - a ==> '0' <= #[trigger] body[l] <= '9',
            !big ==> val == digits_val(body.take(i - a)) && val <= 0x10FFFF,
            big ==> digits_val(body.take(i - a)) > 0x10FFFF,
        decreases b - i,
    {
        let c = v[i];
        if c < '0' || c > '9' {
            assert(body[i - a] == v@[i as int]);
            assert(!all_digits(body));
            return None;
        }
        proof {
            assert(body[i - a] == v@[i as int]);
            assert(body.take(i - a + 1).drop_last() =~= body.take(i - a));
            assert(body.take(i - a + 1).last() == body[i - a]);
        }
        let d: u32 = (c as u32) - ('0' as u32);
        assert(d == body[i - a] as int - '0' as int);
        if big {
            proof {
                let prev = digits_val(body.take(i - a));
                assert(digits_val(body.take(i - a + 1)) == prev * 10 + d);
                assert(prev * 10 >= prev);
            }
        } else {
            let next: u64 = (val as u64) * 10 + (d as u64);
            if next > 0x10FFFF {
                big = true;
            } else {
                val = next as u32;
            }
            assert(digits_val(body.take(i - a + 1)) == digits_val(body.take(i - a)) * 10 + d);
        }
        i += 1;
    }
    proof {
        assert(body.take(b - a) =~= body);
        assert(all_digits(body));
    }
    if big {
        None
    } else {
        Some(val)
    }
}

/// Reads the hexadecimal digits between `a` and `b`: their value when
/// every character is a hexadecimal digit and the value is at most the
/// greatest scalar.
fn hex_ref_val(v: &Vec<char>, a: usize, b: usize) -> (r: Option<u32>)
    requires
        a <= b <= v@.len(),
    ensures
        ({
            let body = v@.subrange(a as int, b as int);
            match r {
                Some(u) => all_hex(body) && hex_val(body) == u && u <= 0x10FFFF,
                None => !(all_hex(body) && hex_val(body) <= 0x10FFFF),
            }
        }),
{
    let ghost body = v@.subrange(a as int, b as int);
    if a == b {
        assert(!all_hex(body));
        return None;
    }
    let mut val: u32 = 0;
    let mut big = false;
    let mut i: usize = a;
    proof {
        assert(body.take(0) =~= Seq::<char>::empty());
    }
    while i < b
        invariant
            a <= i <= b <= v@.len(),
            body == v@.subrange(a as int, b as int),
            forall|l: int| 0 <= l < i - a ==> is_hex_digit(#[trigger] body[l]),
            !big ==> val == hex_val(body.take(i - a)) && val <= 0x10FFFF,
            big ==> hex_val(body.take(i - a)) > 0x10FFFF,
        decreases b - i,
    {
        let c = v[i];
        let d: u32;
        if c >= '0' && c <= '9' {
            d = (c as u32) - ('0' as u32);
        } else if c >= 'a' && c <= 'f' {
            d = 10 + (c as u32) - ('a' as u32);
        } else if c >= 'A' && c <= 'F' {
            d = 10 + (c as u32) - ('A' as u32);
        } else {
            assert(body[i - a] == v@[i as int]);
            assert(!all_hex(body));
            return None;
        }
        proof {
            assert(body[i - a] == v@[i as int]);
            assert(body.take(i - a + 1).drop_last() =~= body.take(i - a));
            assert(body.take(i - a + 1).last() == body[i - a]);
        }
        assert(d == hex_digit_val(body[i - a]));
        if big {
            proof {
                let prev = hex_val(body.take(i - a));
                assert(hex_val(body.take(i - a + 1)) == prev * 16 + d);
                assert(prev * 16 >= prev);
            }
        } else {
            let next: u64 = (val as u64) * 16 + (d as u64);
            if next > 0x10FFFF {
                big = true;
            } else {
                val = next as u32;
            }
            assert(hex_val(body.take(i - a + 1)) == hex_val(body.take(i - a)) * 16 + d);
        }
        i += 1;
    }
    proof {
        assert(body.take(b - a) =~= body);
        assert(all_hex(body));
    }
    if big {
        None
    } else {
        Some(val)
    }
}

/// Decodes a character-reference body into its character.  Exactly
/// [`char_ref_value`] of the region.
fn char_ref_exec(v: &Vec<char>, a: usize, b: usize) -> (r: Option<char>)
    requires
        a <= b <= v@.len(),
    ensures
        ({
            let body = v@.subrange(a as int, b as int);
            match r {
                Some(c) => char_ref_value(body) == Some(c as u32),
                None => char_ref_value(body) is None,
            }
        }),
{
    let ghost body = v@.subrange(a as int, b as int);
    let value: Option<u32>;
    if a < b && v[a] == 'x' {
        proof {
            assert(body[0] == v@[a as int]);
            assert(body.skip(1) =~= v@.subrange(a as int + 1, b as int));
        }
        value = hex_ref_val(v, a + 1, b);
    } else {
        value = dec_ref_val(v, a, b);
    }
    match value {
        None => None,
        Some(u) => match char::from_u32(u) {
            None => None,
            Some(c) => {
                proof {
                    vstd::utf8::char_u32_cast(c, u);
                    vstd::utf8::char_is_scalar(c);
                }
                Some(c)
            },
        },
    }
}

/// Decodes the named entities of a text run; `None` when the run holds a
/// `&` that begins no recognized entity.
pub fn unescape_chars(v: &Vec<char>) -> (r: Option<Vec<char>>)
    ensures
        match r {
            Some(out) => spec_unescape(v@) == Some(out@),
            None => spec_unescape(v@) is None,
        },
{
    let n = v.len();
    let mut out: Vec<char> = Vec::new();
    let mut i: usize = 0;
    proof {
        assert(v@.skip(0) =~= v@);
        lemma_cat_opt_nil(spec_unescape(v@));
    }
    while i < n
        invariant
            0 <= i <= n,
            n == v@.len(),
            spec_unescape(v@) == cat_opt(out@, spec_unescape(v@.skip(i as int))),
        decreases n - i,
    {
        let c = v[i];
        let ghost rest = v@.skip(i as int);
        proof {
            assert(rest[0] == v@[i as int]);
            assert(forall|j: int| 0 <= j < rest.len() ==> rest[j] == v@[i + j]);
        }
        let ghost old_out = out@;
        if c == '&' {
            if n - i > 4 && v[i + 1] == 'a' && v[i + 2] == 'm' && v[i + 3] == 'p' && v[i + 4]
                == ';' {
                out.push('&');
                proof {
                    lemma_cat_opt_step(old_out, '&', rest, 5);
                    assert(out@ =~= old_out.push('&'));
                    assert(rest.skip(5) =~= v@.skip(i as int + 5));
                }
                i += 5;
            } else if n - i > 3 && v[i + 1] == 'l' && v[i + 2] == 't' && v[i + 3] == ';' {
                out.push('<');
                proof {
                    lemma_cat_opt_step(old_out, '<', rest, 4);
                    assert(out@ =~= old_out.push('<'));
                    assert(rest.skip(4) =~= v@.skip(i as int + 4));
                }
                i += 4;
            } else if n - i > 3 && v[i + 1] == 'g' && v[i + 2] == 't' && v[i + 3] == ';' {
                out.push('>');
                proof {
                    lemma_cat_opt_step(old_out, '>', rest, 4);
                    assert(out@ =~= old_out.push('>'));
                    assert(rest.skip(4) =~= v@.skip(i as int + 4));
                }
                i += 4;
            } else if n - i > 5 && v[i + 1] == 'q' && v[i + 2] == 'u' && v[i + 3] == 'o' && v[i + 4]
                == 't' && v[i + 5] == ';' {
                out.push('"');
                proof {
                    lemma_cat_opt_step(old_out, '"', rest, 6);
                    assert(out@ =~= old_out.push('"'));
                    assert(rest.skip(6) =~= v@.skip(i as int + 6));
                }
                i += 6;
            } else if n - i > 5 && v[i + 1] == 'a' && v[i + 2] == 'p' && v[i + 3] == 'o' && v[i + 4]
                == 's' && v[i + 5] == ';' {
                out.push('\'');
                proof {
                    lemma_cat_opt_step(old_out, '\'', rest, 6);
                    assert(out@ =~= old_out.push('\''));
                    assert(rest.skip(6) =~= v@.skip(i as int + 6));
                }
                i += 6;
            } else if n - i > 3 && v[i + 1] == '#' {
                proof {
                    lemma_find_char_shift(v@, i as int, 2, ';');
                }
                match find_char_from(v, i + 2, ';') {
                    None => {
                        assert(spec_unescape(rest) is None);
                        return None;
                    },
                    Some(semi) => {
                        proof {
                            assert(find_char(rest, 2, ';') == Some(semi - i));
                            assert(rest.subrange(2, semi - i) =~= v@.subrange(
                                i as int + 2,
                                semi as int,
                            ));
                        }
                        match char_ref_exec(v, i + 2, semi) {
                            None => {
                                assert(spec_unescape(rest) is None);
                                return None;
                            },
                            Some(c) => {
                                proof {
                                    vstd::utf8::char_u32_cast(c, c as u32);
                                    assert(spec_unescape(rest) == cons_opt(
                                        c,
                                        spec_unescape(rest.skip(semi - i + 1)),
                                    ));
                                }
                                out.push(c);
                                proof {
                                    lemma_cat_opt_step(old_out, c, rest, semi - i + 1);
                                    assert(out@ =~= old_out.push(c));
                                    assert(rest.skip(semi - i + 1) =~= v@.skip(semi as int + 1));
                                }
                                i = semi + 1;
                            },
                        }
                    },
                }
            } else {
                assert(spec_unescape(rest) is None);
                return None;
            }
        } else {
            out.push(c);
            proof {
                lemma_cat_opt_step(old_out, c, rest, 1);
                assert(out@ =~= old_out.push(c));
                assert(rest.skip(1) =~= v@.skip(i as int + 1));
            }
            i += 1;
        }
    }
    proof {
        assert(v@.skip(n as int) =~= Seq::empty());
        assert(cat_opt(out@, Some(Seq::empty())) == Some(out@ + Seq::empty()));
        assert(out@ + Seq::empty() =~= out@);
    }
    Some(out)
}

/// Appends a decode result to already-decoded output, keeping failure as
/// failure.
pub open spec fn cat_opt(p: Seq<char>, r: Option<Seq<char>>) -> Option<Seq<char>> {
    match r {
        Some(t) => Some(p + t),
        None => None,
    }
}

/// Nothing decoded yet: the accumulated output is empty.
proof fn lemma_cat_opt_nil(r: Option<Seq<char>>)
    ensures
        cat_opt(Seq::empty(), r) == r,
{
    match r {
        Some(t) => {
            assert(Seq::<char>::empty() + t =~= t);
        },
        None => {},
    }
}

/// One decoding step folded into the accumulated output.
proof fn lemma_cat_opt_step(p: Seq<char>, c: char, rest: Seq<char>, k: int)
    requires
        spec_unescape(rest) == cons_opt(c, spec_unescape(rest.skip(k))),
    ensures
        cat_opt(p, spec_unescape(rest)) == cat_opt(p.push(c), spec_unescape(rest.skip(k))),
{
    match spec_unescape(rest.skip(k)) {
        Some(t) => {
            assert(p + (seq![c] + t) =~= p.push(c) + t);
        },
        None => {},
    }
}

/// The parsed form of one raw text run: whitespace-trimmed, then
/// entity-decoded; a run that fails to decode contributes nothing.
pub open spec fn spec_text_chunk(raw: Seq<char>) -> Seq<char> {
    match spec_unescape(spec_trim_uws(raw)) {
        Some(t) => t,
        None => Seq::empty(),
    }
}

/// Trims and decodes one raw text run, as the parsers consume it.
pub fn text_chunk(raw: &Vec<char>) -> (r: Vec<char>)
    ensures
        r@ == spec_text_chunk(raw@),
{
    let trimmed = trim_chars_uws(raw);
    match unescape_chars(&trimmed) {
        Some(t) => t,
        None => Vec::new(),
    }
}

} // verus!
