//! A tag-stream tokenizer for the wire documents: it cuts the character
//! stream into start tags, end tags, self-closing tags and text runs,
//! skipping declarations, comments and character-data sections, and it
//! extracts attribute values from a tag's raw attribute region.
//!
//! Both document parsers consume this token stream; the tokenizer itself
//! gives each token's content exactly, as a function of the input text.

use vstd::prelude::*;
use crate::strutil::first_non_ws;
use crate::strutil::is_ws;
use crate::strutil::is_ws_char;
use crate::strutil::spec_trim;
use crate::strutil::trim_chars;

verus! {

/// One token of a wire document.
#[derive(Debug)]
pub enum XmlToken {
    /// `<name attrs>` — `attrs` is the raw text between the tag name and
    /// the closing angle bracket.
    Start { name: Vec<char>, attrs: Vec<char> },
    /// `<name attrs/>`
    Empty { name: Vec<char>, attrs: Vec<char> },
    /// `</name>`
    End { name: Vec<char> },
    /// A maximal run of characters between two tags, still entity-encoded.
    Text { raw: Vec<char> },
}

/// Mathematical model of an [`XmlToken`].
#[verifier::ext_equal]
pub enum TokenView {
    Start { name: Seq<char>, attrs: Seq<char> },
    Empty { name: Seq<char>, attrs: Seq<char> },
    End { name: Seq<char> },
    Text { raw: Seq<char> },
}

impl View for XmlToken {
    type V = TokenView;

    open spec fn view(&self) -> TokenView {
        match self {
            XmlToken::Start { name, attrs } => TokenView::Start { name: name@, attrs: attrs@ },
            XmlToken::Empty { name, attrs } => TokenView::Empty { name: name@, attrs: attrs@ },
            XmlToken::End { name } => TokenView::End { name: name@ },
            XmlToken::Text { raw } => TokenView::Text { raw: raw@ },
        }
    }
}

impl DeepView for XmlToken {
    type V = TokenView;

    open spec fn deep_view(&self) -> TokenView {
        self.view()
    }
}

/// Index of the first occurrence of `c` at or after `from`, if any.
pub open spec fn find_char(s: Seq<char>, from: int, c: char) -> Option<int>
    decreases s.len() - from,
{
    if from < 0 || from >= s.len() {
        None
    } else if s[from] == c {
        Some(from)
    } else {
        find_char(s, from + 1, c)
    }
}

/// Index of the first occurrence of the two-character pattern `a b` at or
/// after `from`, if any.
pub open spec fn find_pat2(s: Seq<char>, from: int, a: char, b: char) -> Option<int>
    decreases s.len() - from,
{
    if from < 0 || from + 2 > s.len() {
        None
    } else if s[from] == a && s[from + 1] == b {
        Some(from)
    } else {
        find_pat2(s, from + 1, a, b)
    }
}

/// Index of the first occurrence of the three-character pattern `a b c`
/// at or after `from`, if any.
pub open spec fn find_pat3(s: Seq<char>, from: int, a: char, b: char, c: char) -> Option<int>
    decreases s.len() - from,
{
    if from < 0 || from + 3 > s.len() {
        None
    } else if s[from] == a && s[from + 1] == b && s[from + 2] == c {
        Some(from)
    } else {
        find_pat3(s, from + 1, a, b, c)
    }
}

/// A found character lies between `from` and the end, and is `c`.
pub proof fn lemma_find_char_bounds(s: Seq<char>, from: int, c: char)
    ensures
        match find_char(s, from, c) {
            Some(j) => from <= j < s.len() && s[j] == c,
            None => true,
        },
    decreases s.len() - from,
{
    if from >= 0 && from < s.len() && s[from] != c {
        lemma_find_char_bounds(s, from + 1, c);
    }
}

/// A found two-character pattern lies between `from` and the end.
pub proof fn lemma_find_pat2_bounds(s: Seq<char>, from: int, a: char, b: char)
    ensures
        match find_pat2(s, from, a, b) {
            Some(j) => from <= j && j + 2 <= s.len(),
            None => true,
        },
    decreases s.len() - from,
{
    if from >= 0 && from + 2 <= s.len() && !(s[from] == a && s[from + 1] == b) {
        lemma_find_pat2_bounds(s, from + 1, a, b);
    }
}

/// A found three-character pattern lies between `from` and the end.
pub proof fn lemma_find_pat3_bounds(s: Seq<char>, from: int, a: char, b: char, c: char)
    ensures
        match find_pat3(s, from, a, b, c) {
            Some(j) => from <= j && j + 3 <= s.len(),
            None => true,
        },
    decreases s.len() - from,
{
    if from >= 0 && from + 3 <= s.len() && !(s[from] == a && s[from + 1] == b && s[from + 2]
        == c) {
        lemma_find_pat3_bounds(s, from + 1, a, b, c);
    }
}

/// Index of the first whitespace character at or after `i`, or the length
/// of `s` when there is none.
pub open spec fn first_ws(s: Seq<char>, i: int) -> int
    decreases s.len() - i,
{
    if i < 0 || i >= s.len() {
        s.len() as int
    } else if is_ws(s[i]) {
        i
    } else {
        first_ws(s, i + 1)
    }
}

/// The first whitespace index lies between `i` and the length.
pub proof fn lemma_first_ws_bounds(s: Seq<char>, i: int)
    requires
        0 <= i <= s.len(),
    ensures
        i <= first_ws(s, i) <= s.len(),
    decreases s.len() - i,
{
    if i < s.len() && !is_ws(s[i]) {
        lemma_first_ws_bounds(s, i + 1);
    }
}

/// The tag name inside a start tag: everything before the first
/// whitespace character.
pub open spec fn name_of(inner: Seq<char>) -> Seq<char> {
    inner.take(first_ws(inner, 0))
}

/// The raw attribute region inside a start tag: everything from the first
/// whitespace character on.
pub open spec fn attrs_of(inner: Seq<char>) -> Seq<char> {
    inner.skip(first_ws(inner, 0))
}

/// The end of the text run beginning at `i`: the next `<`, or the end of
/// the document.
pub open spec fn text_end(s: Seq<char>, i: int) -> int {
    match find_char(s, i, '<') {
        Some(j) => j,
        None => s.len() as int,
    }
}

/// What the tokenizer does at position `i`.
#[verifier::ext_equal]
pub enum StepView {
    /// End of input.
    Done,
    /// A token, and the position after it.
    Tok(TokenView, int),
    /// A skipped construct (declaration, comment, character data), and
    /// the position after it.
    Skip(int),
    /// An unterminated construct beginning at the given position.
    Fail(int),
}

/// Whether a comment opens at `i` (which holds `<`).
pub open spec fn comment_at(s: Seq<char>, i: int) -> bool {
    i + 4 <= s.len() && s[i + 1] == '!' && s[i + 2] == '-' && s[i + 3] == '-'
}

/// Whether a character-data section opens at `i` (which holds `<`).
pub open spec fn cdata_at(s: Seq<char>, i: int) -> bool {
    i + 9 <= s.len() && s[i + 1] == '!' && s[i + 2] == '[' && s[i + 3] == 'C' && s[i + 4] == 'D'
        && s[i + 5] == 'A' && s[i + 6] == 'T' && s[i + 7] == 'A' && s[i + 8] == '['
}

/// One tokenizer step at position `i` of `s`.
pub open spec fn spec_next(s: Seq<char>, i: int) -> StepView {
    let n = s.len() as int;
    if i >= n {
        StepView::Done
    } else if s[i] != '<' {
        let j = text_end(s, i);
        StepView::Tok(TokenView::Text { raw: s.subrange(i, j) }, j)
    } else if comment_at(s, i) {
        match find_pat3(s, i + 4, '-', '-', '>') {
            Some(e) => StepView::Skip(e + 3),
            None => StepView::Fail(i),
        }
    } else if cdata_at(s, i) {
        match find_pat3(s, i + 9, ']', ']', '>') {
            Some(e) => StepView::Skip(e + 3),
            None => StepView::Fail(i),
        }
    } else if i + 1 < n && s[i + 1] == '?' {
        match find_pat2(s, i + 2, '?', '>') {
            Some(e) => StepView::Skip(e + 2),
            None => StepView::Fail(i),
        }
    } else if i + 1 < n && s[i + 1] == '!' {
        match find_char(s, i + 2, '>') {
            Some(e) => StepView::Skip(e + 1),
            None => StepView::Fail(i),
        }
    } else if i + 1 < n && s[i + 1] == '/' {
        match find_char(s, i + 2, '>') {
            Some(e) => StepView::Tok(
                TokenView::End { name: spec_trim(s.subrange(i + 2, e)) },
                e + 1,
            ),
            None => StepView::Fail(i),
        }
    } else {
        match find_char(s, i + 1, '>') {
            Some(e) => {
                let inner = s.subrange(i + 1, e);
                if inner.len() > 0 && inner[inner.len() - 1] == '/' {
                    let body = inner.take(inner.len() - 1);
                    StepView::Tok(
                        TokenView::Empty { name: name_of(body), attrs: attrs_of(body) },
                        e + 1,
                    )
                } else {
                    StepView::Tok(
                        TokenView::Start { name: name_of(inner), attrs: attrs_of(inner) },
                        e + 1,
                    )
                }
            },
            None => StepView::Fail(i),
        }
    }
}

/// Each step that yields or skips moves strictly forward, never past the
/// end.
pub proof fn lemma_next_progress(s: Seq<char>, i: int)
    requires
        0 <= i <= s.len(),
    ensures
        match spec_next(s, i) {
            StepView::Done => i == s.len(),
            StepView::Tok(_, n) => i < n <= s.len(),
            StepView::Skip(n) => i < n <= s.len(),
            StepView::Fail(p) => p == i,
        },
{
    let n = s.len() as int;
    if i >= n {
    } else if s[i] != '<' {
        lemma_find_char_bounds(s, i, '<');
    } else if comment_at(s, i) {
        lemma_find_pat3_bounds(s, i + 4, '-', '-', '>');
    } else if cdata_at(s, i) {
        lemma_find_pat3_bounds(s, i + 9, ']', ']', '>');
    } else if i + 1 < n && s[i + 1] == '?' {
        lemma_find_pat2_bounds(s, i + 2, '?', '>');
    } else if i + 1 < n && s[i + 1] == '!' {
        lemma_find_char_bounds(s, i + 2, '>');
    } else if i + 1 < n && s[i + 1] == '/' {
        lemma_find_char_bounds(s, i + 2, '>');
    } else {
        lemma_find_char_bounds(s, i + 1, '>');
    }
}

/// A token prepended to the outcome for the rest of the document.
pub open spec fn cons_tok(t: TokenView, r: Result<Seq<TokenView>, int>) -> Result<
    Seq<TokenView>,
    int,
> {
    match r {
        Ok(rest) => Ok(seq![t] + rest),
        Err(p) => Err(p),
    }
}

/// The whole token stream from position `i` on, with `open` the names of
/// the elements opened and not yet closed; the position of the first
/// unterminated construct, of an end tag that does not match the element
/// it closes, or — at the end of input with elements still open — the
/// document length.  The range guards on the recursion make termination
/// evident; `lemma_next_progress` shows they always hold.
pub open spec fn spec_tokens_from(s: Seq<char>, i: int, open: Seq<Seq<char>>) -> Result<
    Seq<TokenView>,
    int,
>
    decreases s.len() - i,
{
    match spec_next(s, i) {
        StepView::Done => if open.len() == 0 {
            Ok(Seq::empty())
        } else {
            Err(s.len() as int)
        },
        StepView::Fail(p) => Err(p),
        StepView::Skip(n) => if i < n <= s.len() {
            spec_tokens_from(s, n, open)
        } else {
            Err(i)
        },
        StepView::Tok(t, n) => if i < n <= s.len() {
            match t {
                TokenView::Start { name, .. } => cons_tok(t, spec_tokens_from(s, n, open.push(name))),
                TokenView::End { name } => if open.len() > 0 && open.last() == name {
                    cons_tok(t, spec_tokens_from(s, n, open.drop_last()))
                } else {
                    Err(i)
                },
                _ => cons_tok(t, spec_tokens_from(s, n, open)),
            }
        } else {
            Err(i)
        },
    }
}

/// The token stream of a whole document, which must be tag-balanced.
pub open spec fn spec_tokens(s: Seq<char>) -> Result<Seq<TokenView>, int> {
    spec_tokens_from(s, 0, Seq::empty())
}

/// Already-produced tokens joined with the outcome for the rest of the
/// document.
pub open spec fn toks_concat(pre: Seq<TokenView>, r: Result<Seq<TokenView>, int>) -> Result<
    Seq<TokenView>,
    int,
> {
    match r {
        Ok(ts) => Ok(pre + ts),
        Err(p) => Err(p),
    }
}

proof fn lemma_toks_concat_nil(r: Result<Seq<TokenView>, int>)
    ensures
        toks_concat(Seq::empty(), r) == r,
{
    match r {
        Ok(ts) => {
            assert(Seq::<TokenView>::empty() + ts =~= ts);
        },
        Err(_) => {},
    }
}

proof fn lemma_toks_concat_step(pre: Seq<TokenView>, t: TokenView, r: Result<Seq<TokenView>, int>)
    ensures
        toks_concat(pre, cons_tok(t, r)) == toks_concat(pre.push(t), r),
{
    match r {
        Ok(rest) => {
            assert(pre + (seq![t] + rest) =~= pre.push(t) + rest);
        },
        Err(_) => {},
    }
}

/// Whether two character vectors hold the same characters.
fn chars_equal(a: &Vec<char>, b: &Vec<char>) -> (r: bool)
    ensures
        r == (a@ == b@),
{
    if a.len() != b.len() {
        assert(a@.len() != b@.len());
        return false;
    }
    let mut j: usize = 0;
    while j < a.len()
        invariant
            0 <= j <= a@.len(),
            a@.len() == b@.len(),
            forall|l: int| 0 <= l < j ==> a@[l] == b@[l],
        decreases a@.len() - j,
    {
        if a[j] != b[j] {
            assert(a@ != b@);
            return false;
        }
        j += 1;
    }
    assert(a@ =~= b@);
    true
}

/// Copies the characters of `s` between `a` and `b`.
pub fn sub_chars(s: &Vec<char>, a: usize, b: usize) -> (r: Vec<char>)
    requires
        a <= b <= s@.len(),
    ensures
        r@ == s@.subrange(a as int, b as int),
{
    let mut r: Vec<char> = Vec::new();
    let mut i: usize = a;
    while i < b
        invariant
            a <= i <= b <= s@.len(),
            r@ == s@.subrange(a as int, i as int),
        decreases b - i,
    {
        r.push(s[i]);
        assert(r@ =~= s@.subrange(a as int, i as int + 1));
        i += 1;
    }
    r
}

/// Finds the first occurrence of `c` at or after `from`.
pub fn find_char_from(s: &Vec<char>, from: usize, c: char) -> (r: Option<usize>)
    requires
        from <= s@.len(),
    ensures
        match r {
            Some(j) => find_char(s@, from as int, c) == Some(j as int) && from <= j < s@.len(),
            None => find_char(s@, from as int, c) is None,
        },
{
    let n = s.len();
    let mut j: usize = from;
    while j < n
        invariant
            from <= j <= n,
            n == s@.len(),
            find_char(s@, from as int, c) == find_char(s@, j as int, c),
        decreases n - j,
    {
        if s[j] == c {
            return Some(j);
        }
        j += 1;
    }
    None
}

/// Finds the first occurrence of the pattern `a b` at or after `from`.
pub fn find_pat2_from(s: &Vec<char>, from: usize, a: char, b: char) -> (r: Option<usize>)
    requires
        from <= s@.len(),
    ensures
        match r {
            Some(j) => find_pat2(s@, from as int, a, b) == Some(j as int) && from <= j && j + 2
                <= s@.len(),
            None => find_pat2(s@, from as int, a, b) is None,
        },
{
    let n = s.len();
    let mut j: usize = from;
    while n - j >= 2
        invariant
            from <= j <= n,
            n == s@.len(),
            find_pat2(s@, from as int, a, b) == find_pat2(s@, j as int, a, b),
        decreases n - j,
    {
        if s[j] == a && s[j + 1] == b {
            return Some(j);
        }
        j += 1;
    }
    None
}

/// Finds the first occurrence of the pattern `a b c` at or after `from`.
pub fn find_pat3_from(s: &Vec<char>, from: usize, a: char, b: char, c: char) -> (r: Option<usize>)
    requires
        from <= s@.len(),
    ensures
        match r {
            Some(j) => find_pat3(s@, from as int, a, b, c) == Some(j as int) && from <= j && j + 3
                <= s@.len(),
            None => find_pat3(s@, from as int, a, b, c) is None,
        },
{
    let n = s.len();
    let mut j: usize = from;
    while n - j >= 3
        invariant
            from <= j <= n,
            n == s@.len(),
            find_pat3(s@, from as int, a, b, c) == find_pat3(s@, j as int, a, b, c),
        decreases n - j,
    {
        if s[j] == a && s[j + 1] == b && s[j + 2] == c {
            return Some(j);
        }
        j += 1;
    }
    None
}

/// Finds the first whitespace character at or after `from`.
pub fn first_ws_from(s: &Vec<char>, from: usize) -> (r: usize)
    requires
        from <= s@.len(),
    ensures
        r == first_ws(s@, from as int),
        from <= r <= s@.len(),
{
    let n = s.len();
    let mut j: usize = from;
    while j < n
        invariant
            from <= j <= n,
            n == s@.len(),
            first_ws(s@, from as int) == first_ws(s@, j as int),
        decreases n - j,
    {
        if is_ws_char(s[j]) {
            return j;
        }
        j += 1;
    }
    n
}

/// The outcome of one executable tokenizer step.
pub enum NextStep {
    Done,
    Tok(XmlToken, usize),
    Skip(usize),
    Fail(usize),
}

/// Model of a [`NextStep`].
pub open spec fn step_view(r: &NextStep) -> StepView {
    match r {
        NextStep::Done => StepView::Done,
        NextStep::Tok(t, n) => StepView::Tok(t@, *n as int),
        NextStep::Skip(n) => StepView::Skip(*n as int),
        NextStep::Fail(p) => StepView::Fail(*p as int),
    }
}

/// One executable tokenizer step; exactly [`spec_next`].
pub fn next_token(s: &Vec<char>, i: usize) -> (r: NextStep)
    requires
        i <= s@.len(),
    ensures
        step_view(&r) == spec_next(s@, i as int),
{
    let n = s.len();
    if i >= n {
        return NextStep::Done;
    }
    if s[i] != '<' {
        let j = match find_char_from(s, i, '<') {
            Some(j) => j,
            None => n,
        };
        assert(j == text_end(s@, i as int));
        let raw = sub_chars(s, i, j);
        return NextStep::Tok(XmlToken::Text { raw }, j);
    }
    if n - i > 3 && s[i + 1] == '!' && s[i + 2] == '-' && s[i + 3] == '-' {
        assert(comment_at(s@, i as int));
        return match find_pat3_from(s, i + 4, '-', '-', '>') {
            Some(e) => NextStep::Skip(e + 3),
            None => NextStep::Fail(i),
        };
    }
    assert(!comment_at(s@, i as int));
    if n - i > 8 && s[i + 1] == '!' && s[i + 2] == '[' && s[i + 3] == 'C' && s[i + 4] == 'D' && s[i
        + 5] == 'A' && s[i + 6] == 'T' && s[i + 7] == 'A' && s[i + 8] == '[' {
        assert(cdata_at(s@, i as int));
        return match find_pat3_from(s, i + 9, ']', ']', '>') {
            Some(e) => NextStep::Skip(e + 3),
            None => NextStep::Fail(i),
        };
    }
    assert(!cdata_at(s@, i as int));
    if n - i > 1 && s[i + 1] == '?' {
        return match find_pat2_from(s, i + 2, '?', '>') {
            Some(e) => NextStep::Skip(e + 2),
            None => NextStep::Fail(i),
        };
    }
    if n - i > 1 && s[i + 1] == '!' {
        return match find_char_from(s, i + 2, '>') {
            Some(e) => NextStep::Skip(e + 1),
            None => NextStep::Fail(i),
        };
    }
    if n - i > 1 && s[i + 1] == '/' {
        return match find_char_from(s, i + 2, '>') {
            Some(e) => {
                let body = sub_chars(s, i + 2, e);
                let name = trim_chars(&body);
                NextStep::Tok(XmlToken::End { name }, e + 1)
            },
            None => NextStep::Fail(i),
        };
    }
    match find_char_from(s, i + 1, '>') {
        Some(e) => {
            let inner = sub_chars(s, i + 1, e);
            let m = inner.len();
            if m > 0 && inner[m - 1] == '/' {
                let body = sub_chars(&inner, 0, m - 1);
                proof {
                    assert(body@ =~= s@.subrange(i as int + 1, e as int).take(m - 1));
                }
                let k = first_ws_from(&body, 0);
                let name = sub_chars(&body, 0, k);
                let attrs = sub_chars(&body, k, m - 1);
                proof {
                    assert(name@ =~= name_of(body@));
                    assert(attrs@ =~= attrs_of(body@));
                }
                NextStep::Tok(XmlToken::Empty { name, attrs }, e + 1)
            } else {
                let k = first_ws_from(&inner, 0);
                let name = sub_chars(&inner, 0, k);
                let attrs = sub_chars(&inner, k, m);
                proof {
                    assert(name@ =~= name_of(inner@));
                    assert(attrs@ =~= attrs_of(inner@));
                }
                NextStep::Tok(XmlToken::Start { name, attrs }, e + 1)
            }
        },
        None => NextStep::Fail(i),
    }
}

/// Tokenizes a whole document; on failure the result is the position at
/// which parsing stopped: an unterminated construct, an end tag that
/// does not match the element it closes, or — with elements left open —
/// the end of the input.  Exactly [`spec_tokens`].
pub fn tokenize(s: &Vec<char>) -> (r: Result<Vec<XmlToken>, usize>)
    ensures
        match r {
            Ok(ts) => spec_tokens(s@) == Ok::<Seq<TokenView>, int>(ts.deep_view()),
            Err(p) => spec_tokens(s@) == Err::<Seq<TokenView>, int>(p as int) && p <= s@.len(),
        },
{
    let mut out: Vec<XmlToken> = Vec::new();
    let mut open: Vec<Vec<char>> = Vec::new();
    let mut i: usize = 0;
    proof {
        lemma_toks_concat_nil(spec_tokens_from(s@, 0, Seq::empty()));
        assert(out.deep_view() =~= Seq::<TokenView>::empty());
        assert(open.deep_view() =~~= Seq::<Seq<char>>::empty());
    }
    loop
        invariant
            i <= s@.len(),
            spec_tokens(s@) == toks_concat(
                out.deep_view(),
                spec_tokens_from(s@, i as int, open.deep_view()),
            ),
        decreases s@.len() - i,
    {
        let ghost old_deep = out.deep_view();
        let ghost old_open = open.deep_view();
        proof {
            lemma_next_progress(s@, i as int);
        }
        match next_token(s, i) {
            NextStep::Done => {
                if open.len() == 0 {
                    proof {
                        assert(old_open.len() == 0);
                        assert(out.deep_view() + Seq::<TokenView>::empty() =~= out.deep_view());
                    }
                    return Ok(out);
                }
                return Err(s.len());
            },
            NextStep::Fail(p) => {
                return Err(p);
            },
            NextStep::Skip(nn) => {
                i = nn;
            },
            NextStep::Tok(t, nn) => {
                match &t {
                    XmlToken::Start { name, .. } => {
                        let name_copy = sub_chars(name, 0, name.len());
                        proof {
                            assert(name_copy@ =~= name@);
                        }
                        open.push(name_copy);
                        proof {
                            assert(open.deep_view() =~~= old_open.push(name@));
                            lemma_toks_concat_step(
                                old_deep,
                                t@,
                                spec_tokens_from(s@, nn as int, old_open.push(name@)),
                            );
                        }
                    },
                    XmlToken::End { name } => {
                        if open.len() == 0 {
                            return Err(i);
                        }
                        let top = open.len() - 1;
                        proof {
                            assert(old_open.last() == open@[top as int]@);
                        }
                        if !chars_equal(&open[top], name) {
                            return Err(i);
                        }
                        let _closed = open.pop();
                        proof {
                            assert(open.deep_view() =~~= old_open.drop_last());
                            lemma_toks_concat_step(
                                old_deep,
                                t@,
                                spec_tokens_from(s@, nn as int, old_open.drop_last()),
                            );
                        }
                    },
                    _ => {
                        proof {
                            lemma_toks_concat_step(
                                old_deep,
                                t@,
                                spec_tokens_from(s@, nn as int, old_open),
                            );
                        }
                    },
                }
                out.push(t);
                proof {
                    assert(out.deep_view() =~= old_deep.push(t@));
                }
                i = nn;
            },
        }
    }
}

/// The end of an attribute name starting at `i`: the first `=` or
/// whitespace character, or the end of the region.
pub open spec fn attr_name_end(s: Seq<char>, i: int) -> int
    decreases s.len() - i,
{
    if i < 0 || i >= s.len() {
        s.len() as int
    } else if s[i] == '=' || is_ws(s[i]) {
        i
    } else {
        attr_name_end(s, i + 1)
    }
}

/// The end of an attribute name lies between `i` and the length.
pub proof fn lemma_attr_name_end_bounds(s: Seq<char>, i: int)
    requires
        0 <= i <= s.len(),
    ensures
        i <= attr_name_end(s, i) <= s.len(),
    decreases s.len() - i,
{
    if i < s.len() && !(s[i] == '=' || is_ws(s[i])) {
        lemma_attr_name_end_bounds(s, i + 1);
    }
}

/// The value of the first attribute named `key` at or after `i` in a raw
/// attribute region: name, `=`, then a single- or double-quoted value,
/// with optional whitespace around the `=`.  `None` when no such
/// attribute exists or the region turns malformed first.  The range guard
/// on the recursion makes termination evident; it always holds.
pub open spec fn spec_attr_from(s: Seq<char>, i: int, key: Seq<char>) -> Option<Seq<char>>
    decreases s.len() - i,
{
    if i < 0 || i >= s.len() {
        None
    } else if is_ws(s[i]) {
        spec_attr_from(s, i + 1, key)
    } else {
        let e = attr_name_end(s, i);
        let w = first_non_ws(s, e);
        if w >= s.len() || s[w] != '=' {
            None
        } else {
            let q = first_non_ws(s, w + 1);
            if q >= s.len() || (s[q] != '"' && s[q] != '\'') {
                None
            } else {
                match find_char(s, q + 1, s[q]) {
                    None => None,
                    Some(z) => if s.subrange(i, e) == key {
                        Some(s.subrange(q + 1, z))
                    } else if i < z + 1 <= s.len() {
                        spec_attr_from(s, z + 1, key)
                    } else {
                        None
                    },
                }
            }
        }
    }
}

/// The value of the first attribute named `key` in a raw attribute
/// region.
pub open spec fn spec_attr(s: Seq<char>, key: Seq<char>) -> Option<Seq<char>> {
    spec_attr_from(s, 0, key)
}

/// Whether the characters of `s` between `a` and `b` are exactly `key`.
fn range_eq(s: &Vec<char>, a: usize, b: usize, key: &Vec<char>) -> (r: bool)
    requires
        a <= b <= s@.len(),
    ensures
        r == (s@.subrange(a as int, b as int) == key@),
{
    if b - a != key.len() {
        assert(s@.subrange(a as int, b as int).len() != key@.len());
        return false;
    }
    let mut j: usize = 0;
    while j < key.len()
        invariant
            0 <= j <= key@.len(),
            a <= b <= s@.len(),
            b - a == key@.len(),
            forall|k: int| 0 <= k < j ==> s@[a + k] == key@[k],
        decreases key@.len() - j,
    {
        if s[a + j] != key[j] {
            assert(s@.subrange(a as int, b as int)[j as int] == s@[a + j]);
            return false;
        }
        j += 1;
    }
    assert(s@.subrange(a as int, b as int) =~= key@);
    true
}

/// Finds the first non-whitespace character at or after `from`.
fn first_non_ws_from(s: &Vec<char>, from: usize) -> (r: usize)
    requires
        from <= s@.len(),
    ensures
        r == first_non_ws(s@, from as int),
        from <= r <= s@.len(),
{
    let n = s.len();
    let mut j: usize = from;
    while j < n
        invariant
            from <= j <= n,
            n == s@.len(),
            first_non_ws(s@, from as int) == first_non_ws(s@, j as int),
        decreases n - j,
    {
        if !is_ws_char(s[j]) {
            return j;
        }
        j += 1;
    }
    n
}

/// Finds the end of the attribute name starting at `from`.
fn attr_name_end_from(s: &Vec<char>, from: usize) -> (r: usize)
    requires
        from <= s@.len(),
    ensures
        r == attr_name_end(s@, from as int),
        from <= r <= s@.len(),
{
    let n = s.len();
    let mut j: usize = from;
    while j < n
        invariant
            from <= j <= n,
            n == s@.len(),
            attr_name_end(s@, from as int) == attr_name_end(s@, j as int),
        decreases n - j,
    {
        if s[j] == '=' || is_ws_char(s[j]) {
            return j;
        }
        j += 1;
    }
    n
}

/// Extracts the value of the first attribute named `key` from a raw
/// attribute region.  Exactly [`spec_attr`].
pub fn get_attr(s: &Vec<char>, key: &Vec<char>) -> (r: Option<Vec<char>>)
    ensures
        match r {
            Some(v) => spec_attr(s@, key@) == Some(v@),
            None => spec_attr(s@, key@) is None,
        },
{
    let n = s.len();
    let mut i: usize = 0;
    while i < n
        invariant
            0 <= i <= n,
            n == s@.len(),
            spec_attr(s@, key@) == spec_attr_from(s@, i as int, key@),
        decreases n - i,
    {
        if is_ws_char(s[i]) {
            i += 1;
        } else {
            let e = attr_name_end_from(s, i);
            let w = first_non_ws_from(s, e);
            if w >= n || s[w] != '=' {
                return None;
            }
            let q = first_non_ws_from(s, w + 1);
            if q >= n || (s[q] != '"' && s[q] != '\'') {
                return None;
            }
            match find_char_from(s, q + 1, s[q]) {
                None => {
                    return None;
                },
                Some(z) => {
                    if range_eq(s, i, e, key) {
                        return Some(sub_chars(s, q + 1, z));
                    }
                    i = z + 1;
                },
            }
        }
    }
    None
}

} // verus!
