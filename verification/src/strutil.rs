//! Character-sequence helpers shared by the parsers, the aggregator and
//! the serializer: whitespace trimming, case folding, lexicographic
//! comparison, substring search, and conversions between `str`, `String`
//! and `Vec<char>`.

use vstd::prelude::*;

verus! {

use vstd::string::StrSliceExecFns;

/// Relies on `String::push` from std: appends one character at the end.
pub assume_specification[ String::push ](s: &mut String, c: char)
    ensures
        final(s)@ == old(s)@.push(c),
;

/// Whitespace as markup treats it: the separators that may stand inside
/// a tag.
pub open spec fn is_ws(c: char) -> bool {
    c == ' ' || c == '\t' || c == '\n' || c == '\r'
}

/// Executable form of [`is_ws`].
pub fn is_ws_char(c: char) -> (b: bool)
    ensures
        b == is_ws(c),
{
    c == ' ' || c == '\t' || c == '\n' || c == '\r'
}

/// Whitespace as text trimming treats it: every character with the
/// Unicode white-space property.
pub open spec fn is_uws(c: char) -> bool {
    is_ws(c) || c == '\u{0B}' || c == '\u{0C}' || c == '\u{85}' || c == '\u{A0}' || c
        == '\u{1680}' || ('\u{2000}' <= c <= '\u{200A}') || c == '\u{2028}' || c == '\u{2029}' || c
        == '\u{202F}' || c == '\u{205F}' || c == '\u{3000}'
}

/// Executable form of [`is_uws`].
pub fn is_uws_char(c: char) -> (b: bool)
    ensures
        b == is_uws(c),
{
    is_ws_char(c) || c == '\u{0B}' || c == '\u{0C}' || c == '\u{85}' || c == '\u{A0}' || c
        == '\u{1680}' || (c >= '\u{2000}' && c <= '\u{200A}') || c == '\u{2028}' || c == '\u{2029}'
        || c == '\u{202F}' || c == '\u{205F}' || c == '\u{3000}'
}

/// Index of the first character at or after `i` that is not whitespace,
/// or the length of `s` when every remaining character is whitespace.
pub open spec fn first_non_ws(s: Seq<char>, i: int) -> int
    decreases s.len() - i,
{
    if i < 0 || i >= s.len() {
        s.len() as int
    } else if !is_ws(s[i]) {
        i
    } else {
        first_non_ws(s, i + 1)
    }
}

/// Index one past the last character before `i` that is not whitespace,
/// or 0 when every earlier character is whitespace.
pub open spec fn last_non_ws_end(s: Seq<char>, i: int) -> int
    decreases i,
{
    if i <= 0 || i > s.len() {
        0
    } else if !is_ws(s[i - 1]) {
        i
    } else {
        last_non_ws_end(s, i - 1)
    }
}

/// `s` with leading and trailing whitespace removed.
pub open spec fn spec_trim(s: Seq<char>) -> Seq<char> {
    let a = first_non_ws(s, 0);
    let b = last_non_ws_end(s, s.len() as int);
    if a >= b {
        Seq::empty()
    } else {
        s.subrange(a, b)
    }
}

/// Removes leading and trailing whitespace from a character vector.
pub fn trim_chars(s: &Vec<char>) -> (r: Vec<char>)
    ensures
        r@ == spec_trim(s@),
{
    let n = s.len();
    let mut a: usize = 0;
    while a < n && is_ws_char(s[a])
        invariant
            0 <= a <= n,
            n == s@.len(),
            first_non_ws(s@, 0) == first_non_ws(s@, a as int),
        decreases n - a,
    {
        a += 1;
    }
    assert(first_non_ws(s@, 0) == a as int);
    let mut b: usize = n;
    while b > a && is_ws_char(s[b - 1])
        invariant
            a <= b <= n,
            n == s@.len(),
            first_non_ws(s@, 0) == a as int,
            a < n ==> !is_ws(s@[a as int]),
            a < n ==> b > a,
            last_non_ws_end(s@, n as int) == last_non_ws_end(s@, b as int),
        decreases b,
    {
        b -= 1;
    }
    let mut r: Vec<char> = Vec::new();
    if b > a {
        assert(last_non_ws_end(s@, n as int) == b as int);
        let mut i: usize = a;
        while i < b
            invariant
                a <= i <= b <= n,
                n == s@.len(),
                r@ == s@.subrange(a as int, i as int),
            decreases b - i,
        {
            r.push(s[i]);
            i += 1;
        }
        assert(r@ == s@.subrange(a as int, b as int));
        r
    } else {
        // every character is whitespace, so the trimmed result is empty
        assert(b == a && a == n);
        assert(last_non_ws_end(s@, n as int) <= a as int) by {
            lemma_last_non_ws_le(s@, n as int, b as int);
        }
        assert(r@ =~= spec_trim(s@));
        r
    }
}

proof fn lemma_last_non_ws_le(s: Seq<char>, i: int, b: int)
    requires
        last_non_ws_end(s, i) == last_non_ws_end(s, b),
        0 <= b <= i <= s.len(),
    ensures
        last_non_ws_end(s, i) <= b,
    decreases b,
{
    if b <= 0 {
    } else if !is_ws(s[b - 1]) {
    } else {
        lemma_last_non_ws_le(s, i, b - 1);
    }
}

/// Index of the first character at or after `i` that is not Unicode
/// whitespace, or the length of `s` when every remaining character is.
pub open spec fn first_non_uws(s: Seq<char>, i: int) -> int
    decreases s.len() - i,
{
    if i < 0 || i >= s.len() {
        s.len() as int
    } else if !is_uws(s[i]) {
        i
    } else {
        first_non_uws(s, i + 1)
    }
}

/// Index one past the last character before `i` that is not Unicode
/// whitespace, or 0 when every earlier character is.
pub open spec fn last_non_uws_end(s: Seq<char>, i: int) -> int
    decreases i,
{
    if i <= 0 || i > s.len() {
        0
    } else if !is_uws(s[i - 1]) {
        i
    } else {
        last_non_uws_end(s, i - 1)
    }
}

/// `s` with leading and trailing Unicode whitespace removed.
pub open spec fn spec_trim_uws(s: Seq<char>) -> Seq<char> {
    let a = first_non_uws(s, 0);
    let b = last_non_uws_end(s, s.len() as int);
    if a >= b {
        Seq::empty()
    } else {
        s.subrange(a, b)
    }
}

/// Removes leading and trailing Unicode whitespace from a character
/// vector.
pub fn trim_chars_uws(s: &Vec<char>) -> (r: Vec<char>)
    ensures
        r@ == spec_trim_uws(s@),
{
    let n = s.len();
    let mut a: usize = 0;
    while a < n && is_uws_char(s[a])
        invariant
            0 <= a <= n,
            n == s@.len(),
            first_non_uws(s@, 0) == first_non_uws(s@, a as int),
        decreases n - a,
    {
        a += 1;
    }
    assert(first_non_uws(s@, 0) == a as int);
    let mut b: usize = n;
    while b > a && is_uws_char(s[b - 1])
        invariant
            a <= b <= n,
            n == s@.len(),
            first_non_uws(s@, 0) == a as int,
            a < n ==> !is_uws(s@[a as int]),
            a < n ==> b > a,
            last_non_uws_end(s@, n as int) == last_non_uws_end(s@, b as int),
        decreases b,
    {
        b -= 1;
    }
    let mut r: Vec<char> = Vec::new();
    if b > a {
        assert(last_non_uws_end(s@, n as int) == b as int);
        let mut i: usize = a;
        while i < b
            invariant
                a <= i <= b <= n,
                n == s@.len(),
                r@ == s@.subrange(a as int, i as int),
            decreases b - i,
        {
            r.push(s[i]);
            assert(r@ =~= s@.subrange(a as int, i as int + 1));
            i += 1;
        }
        assert(r@ == s@.subrange(a as int, b as int));
        r
    } else {
        // every character is whitespace, so the trimmed result is empty
        assert(b == a && a == n);
        assert(last_non_uws_end(s@, n as int) <= a as int) by {
            lemma_last_non_uws_le(s@, n as int, b as int);
        }
        assert(r@ =~= spec_trim_uws(s@));
        r
    }
}

proof fn lemma_last_non_uws_le(s: Seq<char>, i: int, b: int)
    requires
        last_non_uws_end(s, i) == last_non_uws_end(s, b),
        0 <= b <= i <= s.len(),
    ensures
        last_non_uws_end(s, i) <= b,
    decreases b,
{
    if b <= 0 {
    } else if !is_uws(s[b - 1]) {
    } else {
        lemma_last_non_uws_le(s, i, b - 1);
    }
}

/// The lower-case form of an ASCII letter; other characters are unchanged.
pub open spec fn lower_char(c: char) -> char {
    if 'A' <= c <= 'Z' {
        ((c as u32) + 32) as char
    } else {
        c
    }
}

/// `s` with every ASCII upper-case letter folded to lower case.
pub open spec fn spec_lower(s: Seq<char>) -> Seq<char> {
    Seq::new(s.len(), |i: int| lower_char(s[i]))
}

/// Executable form of [`lower_char`].
pub fn lower_char_exec(c: char) -> (r: char)
    ensures
        r == lower_char(c),
{
    match c {
        'A' => 'a',
        'B' => 'b',
        'C' => 'c',
        'D' => 'd',
        'E' => 'e',
        'F' => 'f',
        'G' => 'g',
        'H' => 'h',
        'I' => 'i',
        'J' => 'j',
        'K' => 'k',
        'L' => 'l',
        'M' => 'm',
        'N' => 'n',
        'O' => 'o',
        'P' => 'p',
        'Q' => 'q',
        'R' => 'r',
        'S' => 's',
        'T' => 't',
        'U' => 'u',
        'V' => 'v',
        'W' => 'w',
        'X' => 'x',
        'Y' => 'y',
        'Z' => 'z',
        _ => c,
    }
}

/// Case-folds a string, ASCII-wise.
pub fn lower_string(s: &String) -> (r: String)
    ensures
        r@ == spec_lower(s@),
{
    let st = s.as_str();
    let n = st.unicode_len();
    let mut r = String::new();
    let mut i: usize = 0;
    while i < n
        invariant
            0 <= i <= n,
            n == st@.len(),
            st@ == s@,
            r@ == spec_lower(s@).take(i as int),
        decreases n - i,
    {
        let c = st.get_char(i);
        r.push(lower_char_exec(c));
        assert(r@ =~= spec_lower(s@).take(i as int + 1));
        i += 1;
    }
    assert(r@ =~= spec_lower(s@));
    r
}

/// The characters of `s`, as a vector.
pub fn str_to_chars(s: &str) -> (r: Vec<char>)
    ensures
        r@ == s@,
{
    let n = s.unicode_len();
    let mut r: Vec<char> = Vec::new();
    let mut i: usize = 0;
    while i < n
        invariant
            0 <= i <= n,
            n == s@.len(),
            r@ == s@.take(i as int),
        decreases n - i,
    {
        r.push(s.get_char(i));
        assert(r@ =~= s@.take(i as int + 1));
        i += 1;
    }
    assert(r@ =~= s@);
    r
}

/// A `String` holding exactly the characters of `v`.
pub fn chars_to_string(v: &Vec<char>) -> (r: String)
    ensures
        r@ == v@,
{
    let mut r = String::new();
    let mut i: usize = 0;
    while i < v.len()
        invariant
            0 <= i <= v@.len(),
            r@ == v@.take(i as int),
        decreases v@.len() - i,
    {
        r.push(v[i]);
        assert(r@ =~= v@.take(i as int + 1));
        i += 1;
    }
    assert(r@ =~= v@);
    r
}

/// Whether the characters of `v` are exactly those of `s`.
pub fn chars_eq_str(v: &Vec<char>, s: &str) -> (b: bool)
    ensures
        b == (v@ == s@),
{
    let n = s.unicode_len();
    if v.len() != n {
        assert(v@ != s@) by {
            assert(v@.len() != s@.len());
        }
        return false;
    }
    let mut i: usize = 0;
    while i < n
        invariant
            0 <= i <= n,
            n == s@.len(),
            n == v@.len(),
            forall|j: int| 0 <= j < i ==> v@[j] == s@[j],
        decreases n - i,
    {
        if v[i] != s.get_char(i) {
            assert(v@ != s@);
            return false;
        }
        i += 1;
    }
    assert(v@ =~= s@);
    true
}

/// Whether two string slices hold the same characters.
pub fn str_eq(a: &str, b: &str) -> (r: bool)
    ensures
        r == (a@ == b@),
{
    let n = a.unicode_len();
    if b.unicode_len() != n {
        assert(a@ != b@) by {
            assert(a@.len() != b@.len());
        }
        return false;
    }
    let mut i: usize = 0;
    while i < n
        invariant
            0 <= i <= n,
            n == a@.len(),
            n == b@.len(),
            forall|j: int| 0 <= j < i ==> a@[j] == b@[j],
        decreases n - i,
    {
        if a.get_char(i) != b.get_char(i) {
            assert(a@ != b@);
            return false;
        }
        i += 1;
    }
    assert(a@ =~= b@);
    true
}

/// Strict lexicographic order on character sequences by Unicode scalar
/// value; this is the order in which derived controls are emitted.
pub open spec fn spec_str_lt(a: Seq<char>, b: Seq<char>) -> bool
    decreases a.len(),
{
    if b.len() == 0 {
        false
    } else if a.len() == 0 {
        true
    } else if (a[0] as u32) < (b[0] as u32) {
        true
    } else if (a[0] as u32) > (b[0] as u32) {
        false
    } else {
        spec_str_lt(a.skip(1), b.skip(1))
    }
}

/// Whether `a` comes strictly before `b` lexicographically.  Exactly
/// [`spec_str_lt`].
pub fn str_lt(a: &str, b: &str) -> (r: bool)
    ensures
        r == spec_str_lt(a@, b@),
{
    let na = a.unicode_len();
    let nb = b.unicode_len();
    let mut i: usize = 0;
    proof {
        assert(a@.skip(0) =~= a@);
        assert(b@.skip(0) =~= b@);
    }
    while i < na && i < nb
        invariant
            0 <= i <= na,
            i <= nb,
            na == a@.len(),
            nb == b@.len(),
            spec_str_lt(a@, b@) == spec_str_lt(a@.skip(i as int), b@.skip(i as int)),
        decreases na - i,
    {
        let ca = a.get_char(i);
        let cb = b.get_char(i);
        proof {
            assert(a@.skip(i as int)[0] == a@[i as int]);
            assert(b@.skip(i as int)[0] == b@[i as int]);
        }
        if (ca as u32) < (cb as u32) {
            return true;
        }
        if (ca as u32) > (cb as u32) {
            return false;
        }
        proof {
            assert(a@.skip(i as int).skip(1) =~= a@.skip(i as int + 1));
            assert(b@.skip(i as int).skip(1) =~= b@.skip(i as int + 1));
        }
        i += 1;
    }
    proof {
        assert(a@.skip(i as int).len() == na - i);
        assert(b@.skip(i as int).len() == nb - i);
    }
    na < nb
}

/// Lexicographic order is irreflexive.
pub proof fn lemma_str_lt_irrefl(a: Seq<char>)
    ensures
        !spec_str_lt(a, a),
    decreases a.len(),
{
    if a.len() > 0 {
        lemma_str_lt_irrefl(a.skip(1));
    }
}

/// Lexicographic order is transitive.
pub proof fn lemma_str_lt_trans(a: Seq<char>, b: Seq<char>, c: Seq<char>)
    requires
        spec_str_lt(a, b),
        spec_str_lt(b, c),
    ensures
        spec_str_lt(a, c),
    decreases a.len(),
{
    if a.len() == 0 {
    } else if (a[0] as u32) < (c[0] as u32) {
    } else {
        // b is non-empty since spec_str_lt(a, b) with a non-empty
        assert(b.len() > 0);
        if (a[0] as u32) == (b[0] as u32) && (b[0] as u32) == (c[0] as u32) {
            lemma_str_lt_trans(a.skip(1), b.skip(1), c.skip(1));
        }
    }
}

/// Any two distinct character sequences are ordered one way or the other.
pub proof fn lemma_str_lt_connected(a: Seq<char>, b: Seq<char>)
    requires
        a != b,
    ensures
        spec_str_lt(a, b) || spec_str_lt(b, a),
    decreases a.len(),
{
    if b.len() == 0 {
        if a.len() == 0 {
            assert(a =~= b);
        }
    } else if a.len() == 0 {
    } else if (a[0] as u32) == (b[0] as u32) {
        assert(a[0] == b[0]) by {
            vstd::utf8::char_u32_cast(a[0], a[0] as u32);
            vstd::utf8::char_u32_cast(b[0], b[0] as u32);
        }
        if a.skip(1) == b.skip(1) {
            assert(a.skip(1).len() == a.len() - 1);
            assert(b.skip(1).len() == b.len() - 1);
            assert(a.len() == b.len());
            assert forall|i: int| 0 <= i < a.len() implies a[i] == b[i] by {
                if i > 0 {
                    assert(a[i] == a.skip(1)[i - 1]);
                    assert(b[i] == b.skip(1)[i - 1]);
                }
            }
            assert(a =~= b);
        } else {
            lemma_str_lt_connected(a.skip(1), b.skip(1));
        }
    }
}

/// The byte offset of character position `p` of `s`: the length of the
/// UTF-8 encoding of the characters before it.
pub open spec fn byte_offset(s: Seq<char>, p: int) -> int {
    vstd::utf8::encode_utf8(s.take(p)).len() as int
}

/// Whether every character is a decimal digit, and there is at least
/// one.
pub open spec fn all_digits(s: Seq<char>) -> bool {
    s.len() > 0 && forall|i: int| 0 <= i < s.len() ==> '0' <= #[trigger] s[i] <= '9'
}

/// The numeric value of a digit string.
pub open spec fn digits_val(s: Seq<char>) -> int
    decreases s.len(),
{
    if s.len() == 0 {
        0
    } else {
        digits_val(s.drop_last()) * 10 + (s.last() as int - '0' as int)
    }
}

/// Whether `needle` occurs in `hay` starting at index `i`.
pub open spec fn sub_at(hay: Seq<char>, i: int, needle: Seq<char>) -> bool {
    0 <= i && i + needle.len() <= hay.len() && hay.subrange(i, i + needle.len()) == needle
}

/// Whether `needle` occurs anywhere in `hay`.
pub open spec fn spec_contains_sub(hay: Seq<char>, needle: Seq<char>) -> bool {
    exists|i: int| sub_at(hay, i, needle)
}

/// Whether `needle` occurs as a contiguous run of characters in `hay`.
pub fn contains_sub(hay: &Vec<char>, needle: &Vec<char>) -> (b: bool)
    ensures
        b == spec_contains_sub(hay@, needle@),
{
    let m = needle.len();
    let n = hay.len();
    if m > n {
        assert(!spec_contains_sub(hay@, needle@));
        return false;
    }
    let mut i: usize = 0;
    while i <= n - m
        invariant
            0 <= i <= n - m + 1,
            m == needle@.len(),
            n == hay@.len(),
            m <= n,
            forall|k: int| 0 <= k < i ==> !sub_at(hay@, k, needle@),
        decreases n - i,
    {
        let mut j: usize = 0;
        let mut matched = true;
        while j < m
            invariant
                0 <= j <= m,
                0 <= i <= n - m,
                m == needle@.len(),
                n == hay@.len(),
                matched ==> forall|k: int| 0 <= k < j ==> hay@[i + k] == needle@[k],
                !matched ==> exists|k: int| 0 <= k < m && hay@[i + k] != needle@[k],
            decreases m - j,
        {
            if hay[i + j] != needle[j] {
                assert(hay@[i as int + j as int] != needle@[j as int]);
                matched = false;
                j = m;
            } else {
                j += 1;
            }
        }
        if matched {
            assert(hay@.subrange(i as int, i as int + m as int) =~= needle@);
            assert(sub_at(hay@, i as int, needle@));
            return true;
        }
        proof {
            if sub_at(hay@, i as int, needle@) {
                let k = choose|k: int| 0 <= k < m && hay@[i + k] != needle@[k];
                assert(hay@.subrange(i as int, i as int + m as int)[k] == hay@[i + k]);
                assert(false);
            }
        }
        i += 1;
    }
    assert(forall|k: int| sub_at(hay@, k, needle@) ==> 0 <= k <= n - m);
    false
}

} // verus!
