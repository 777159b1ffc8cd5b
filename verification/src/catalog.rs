//! The catalog parser: a single pass over the token stream that collects
//! one correlation record per catalog item.  A record's identifier comes
//! from the item's `id` attribute; its control identifiers come from
//! cross-reference entries — self-closing or open-form — whose title
//! mentions the NIST catalog; a record with an empty identifier is
//! silently discarded.

use vstd::prelude::*;
use crate::escape::spec_text_chunk;
use crate::escape::text_chunk;
use crate::model::CCIMapping;
use crate::model::CCIMappingView;
use crate::model::StigError;
use crate::strutil::byte_offset;
use crate::strutil::chars_eq_str;
use crate::strutil::chars_to_string;
use crate::strutil::contains_sub;
use crate::strutil::spec_contains_sub;
use crate::strutil::spec_trim_uws;
use crate::strutil::str_to_chars;
use crate::strutil::trim_chars_uws;
use crate::xml::TokenView;
use crate::xml::XmlToken;
use crate::xml::find_char;
use crate::xml::find_char_from;
use crate::xml::get_attr;
use crate::xml::spec_attr;
use crate::xml::spec_tokens;
use crate::xml::sub_chars;
use crate::xml::tokenize;

verus! {

use vstd::string::StrSliceExecFns;
use vstd::string::StringSliceAdditionalSpecFns;

/// The value of an attribute, or the empty string when it is absent.
pub open spec fn attr_or_empty(attrs: Seq<char>, key: Seq<char>) -> Seq<char> {
    match spec_attr(attrs, key) {
        Some(v) => v,
        None => Seq::empty(),
    }
}

/// The derived title of a record: the leading sentence of its definition,
/// or the first hundred characters when no sentence boundary is found.
pub open spec fn title_of(def: Seq<char>) -> Seq<char> {
    match find_char(def, 0, '.') {
        Some(j) => def.take(j),
        None => if def.len() <= 100 {
            def
        } else {
            def.take(100)
        },
    }
}

/// A correlation record with the given identifier and nothing else.
pub open spec fn fresh_record(id: Seq<char>) -> CCIMappingView {
    CCIMappingView {
        id: id,
        title: Seq::empty(),
        definition: Seq::empty(),
        nist_controls: Seq::empty(),
        cci_type: Seq::empty(),
        status: Seq::empty(),
        publish_date: Seq::empty(),
    }
}

/// The catalog parser's whole state between two tokens.
#[derive(Debug)]
pub struct CatState {
    /// The record under construction, while inside a catalog item.
    pub cur: Option<CCIMapping>,
    /// Whether the parser stands inside a references block.
    pub in_refs: bool,
    /// Decoded text accumulated since the last tag.
    pub text: Vec<char>,
    /// The finished records.
    pub out: Vec<CCIMapping>,
}

/// Mathematical model of a [`CatState`].
#[verifier::ext_equal]
pub struct CatStateView {
    pub cur: Option<CCIMappingView>,
    pub in_refs: bool,
    pub text: Seq<char>,
    pub out: Seq<CCIMappingView>,
}

impl View for CatState {
    type V = CatStateView;

    open spec fn view(&self) -> CatStateView {
        CatStateView {
            cur: self.cur.deep_view(),
            in_refs: self.in_refs,
            text: self.text@,
            out: self.out.deep_view(),
        }
    }
}

/// The catalog parser's starting state.
pub open spec fn cat_init() -> CatStateView {
    CatStateView { cur: None, in_refs: false, text: Seq::empty(), out: Seq::empty() }
}

/// What one cross-reference entry does: inside a references block of a
/// record, a title mentioning "NIST SP 800-53" together with a non-empty
/// index appends the trimmed index to the record's control identifiers,
/// unless already present.
pub open spec fn add_reference(st: CatStateView, attrs: Seq<char>) -> CatStateView {
    if st.in_refs && st.cur is Some {
        let cur = st.cur->Some_0;
        let title = attr_or_empty(attrs, "title"@);
        let index = attr_or_empty(attrs, "index"@);
        if spec_contains_sub(title, "NIST SP 800-53"@) && index.len() > 0 {
            let clean = spec_trim_uws(index);
            if clean.len() > 0 && !cur.nist_controls.contains(clean) {
                CatStateView {
                    cur: Some(
                        CCIMappingView { nist_controls: cur.nist_controls.push(clean), ..cur },
                    ),
                    ..st
                }
            } else {
                st
            }
        } else {
            st
        }
    } else {
        st
    }
}

/// What a start tag does: a catalog item begins a fresh record carrying
/// its `id` attribute, a references block is entered, an open-form
/// cross-reference contributes like a self-closing one, and any start
/// tag discards accumulated text.
pub open spec fn cat_start(st: CatStateView, name: Seq<char>, attrs: Seq<char>) -> CatStateView {
    if name == "cci_item"@ {
        CatStateView { cur: Some(fresh_record(attr_or_empty(attrs, "id"@))), text: Seq::empty(), ..st }
    } else if name == "references"@ {
        CatStateView { in_refs: true, text: Seq::empty(), ..st }
    } else if name == "reference"@ {
        CatStateView { text: Seq::empty(), ..add_reference(st, attrs) }
    } else {
        CatStateView { text: Seq::empty(), ..st }
    }
}

/// What a self-closing tag does: only a cross-reference entry matters,
/// and accumulated text is kept.
pub open spec fn cat_empty(st: CatStateView, name: Seq<char>, attrs: Seq<char>) -> CatStateView {
    if name == "reference"@ {
        add_reference(st, attrs)
    } else {
        st
    }
}

/// What an end tag does: the text-bearing child elements assign the
/// record's fields, the end of an item emits the record when its
/// identifier is non-empty, and the end of a references block leaves it.
pub open spec fn cat_end(st: CatStateView, name: Seq<char>) -> CatStateView {
    let value = st.text;
    let st1 = if st.cur is Some {
        let cur = st.cur->Some_0;
        if name == "definition"@ {
            CatStateView {
                cur: Some(CCIMappingView { definition: value, title: title_of(value), ..cur }),
                ..st
            }
        } else if name == "type"@ {
            CatStateView { cur: Some(CCIMappingView { cci_type: value, ..cur }), ..st }
        } else if name == "status"@ {
            CatStateView { cur: Some(CCIMappingView { status: value, ..cur }), ..st }
        } else if name == "publishdate"@ {
            CatStateView { cur: Some(CCIMappingView { publish_date: value, ..cur }), ..st }
        } else {
            st
        }
    } else {
        st
    };
    let st2 = if name == "cci_item"@ {
        match st1.cur {
            Some(cur) => CatStateView {
                cur: None,
                out: if cur.id.len() > 0 {
                    st1.out.push(cur)
                } else {
                    st1.out
                },
                ..st1
            },
            None => st1,
        }
    } else if name == "references"@ {
        CatStateView { in_refs: false, ..st1 }
    } else {
        st1
    };
    CatStateView { text: Seq::empty(), ..st2 }
}

/// What one token does to the catalog parser state.
pub open spec fn cat_step(st: CatStateView, t: TokenView) -> CatStateView {
    match t {
        TokenView::Start { name, attrs } => cat_start(st, name, attrs),
        TokenView::Empty { name, attrs } => cat_empty(st, name, attrs),
        TokenView::End { name } => cat_end(st, name),
        TokenView::Text { raw } => CatStateView { text: st.text + spec_text_chunk(raw), ..st },
    }
}

/// The state after folding the tokens from `i` on.
pub open spec fn cat_fold_from(st: CatStateView, ts: Seq<TokenView>, i: int) -> CatStateView
    decreases ts.len() - i,
{
    if i < 0 || i >= ts.len() {
        st
    } else {
        cat_fold_from(cat_step(st, ts[i]), ts, i + 1)
    }
}

/// The records a catalog document parses to, or the position at which
/// parsing stops.
pub open spec fn spec_parse_cci(s: Seq<char>) -> Result<Seq<CCIMappingView>, int> {
    match spec_tokens(s) {
        Err(p) => Err(p),
        Ok(ts) => Ok(cat_fold_from(cat_init(), ts, 0).out),
    }
}

/// Every record of the state has a non-empty identifier.
pub open spec fn ids_nonempty(out: Seq<CCIMappingView>) -> bool {
    forall|j: int| 0 <= j < out.len() ==> out[j].id.len() > 0
}

proof fn lemma_cat_step_ids(st: CatStateView, t: TokenView)
    requires
        ids_nonempty(st.out),
    ensures
        ids_nonempty(cat_step(st, t).out),
{
    match t {
        TokenView::Start { .. } => {},
        TokenView::Empty { .. } => {},
        TokenView::End { .. } => {},
        TokenView::Text { .. } => {},
    }
}

/// Leniency of the catalog parser: every record the fold carries has a
/// non-empty identifier, because a finished item with an empty one is
/// discarded.
pub proof fn lemma_cat_fold_ids(st: CatStateView, ts: Seq<TokenView>, i: int)
    requires
        ids_nonempty(st.out),
    ensures
        ids_nonempty(cat_fold_from(st, ts, i).out),
    decreases ts.len() - i,
{
    if 0 <= i < ts.len() {
        lemma_cat_step_ids(st, ts[i]);
        lemma_cat_fold_ids(cat_step(st, ts[i]), ts, i + 1);
    }
}

/// The catalog parser's starting state, executably.
fn cat_init_exec() -> (st: CatState)
    ensures
        st@ == cat_init(),
{
    let st = CatState { cur: None, in_refs: false, text: Vec::new(), out: Vec::new() };
    proof {
        assert(st.out.deep_view() =~= Seq::<CCIMappingView>::empty());
        assert(st@ =~= cat_init());
    }
    st
}

/// The value of an attribute, or an empty vector when it is absent.
fn attr_or_empty_exec(attrs: &Vec<char>, key: &Vec<char>) -> (r: Vec<char>)
    ensures
        r@ == attr_or_empty(attrs@, key@),
{
    match get_attr(attrs, key) {
        Some(v) => v,
        None => Vec::new(),
    }
}

/// Appends the characters of `src` to `dst`.
fn cat_append_chars(dst: &mut Vec<char>, src: &Vec<char>)
    ensures
        final(dst)@ == old(dst)@ + src@,
{
    let mut i: usize = 0;
    proof {
        assert(dst@ =~= old(dst)@ + src@.take(0));
    }
    while i < src.len()
        invariant
            0 <= i <= src@.len(),
            dst@ == old(dst)@ + src@.take(i as int),
        decreases src@.len() - i,
    {
        dst.push(src[i]);
        assert(dst@ =~= old(dst)@ + src@.take(i as int + 1));
        i += 1;
    }
    assert(dst@ =~= old(dst)@ + src@);
}

/// Whether a trimmed control identifier is already recorded.
fn controls_contain(controls: &Vec<String>, x: &Vec<char>) -> (b: bool)
    ensures
        b == controls.deep_view().contains(x@),
{
    let mut j: usize = 0;
    while j < controls.len()
        invariant
            0 <= j <= controls@.len(),
            forall|k: int| 0 <= k < j ==> controls@[k]@ != x@,
        decreases controls@.len() - j,
    {
        if chars_eq_str(x, controls[j].as_str()) {
            assert(controls.deep_view()[j as int] == x@);
            return true;
        }
        j += 1;
    }
    proof {
        if controls.deep_view().contains(x@) {
            let k = choose|k: int| 0 <= k < controls.deep_view().len() && controls.deep_view()[k]
                == x@;
            assert(controls@[k]@ == x@);
        }
    }
    false
}

/// Applies one token to the catalog parser state.  Exactly [`cat_step`].
/// Applies one cross-reference entry to the state.  Exactly
/// [`add_reference`].
fn apply_reference(st: &mut CatState, attrs: &Vec<char>)
    ensures
        final(st)@ == add_reference(old(st)@, attrs@),
{
    if st.in_refs && st.cur.is_some() {
        let tkey = str_to_chars("title");
        let ikey = str_to_chars("index");
        let title = attr_or_empty_exec(attrs, &tkey);
        let index = attr_or_empty_exec(attrs, &ikey);
        let needle = str_to_chars("NIST SP 800-53");
        if contains_sub(&title, &needle) && index.len() > 0 {
            let clean = trim_chars_uws(&index);
            if clean.len() > 0 {
                match &mut st.cur {
                    Some(cur) => {
                        if !controls_contain(&cur.nist_controls, &clean) {
                            let ghost old_controls = cur.nist_controls.deep_view();
                            cur.nist_controls.push(chars_to_string(&clean));
                            assert(cur.nist_controls.deep_view() =~= old_controls.push(
                                spec_trim_uws(attr_or_empty(attrs@, "index"@)),
                            ));
                        }
                    },
                    None => {
                        assert(false);
                    },
                }
            }
        }
        assert(st@ =~= add_reference(old(st)@, attrs@));
    } else {
        assert(st@ =~= add_reference(old(st)@, attrs@));
    }
}

fn cat_step_exec(st: &mut CatState, t: &XmlToken)
    ensures
        final(st)@ == cat_step(old(st)@, t@),
{
    match t {
        XmlToken::Start { name, attrs } => {
            if chars_eq_str(name, "cci_item") {
                let key = str_to_chars("id");
                let id = attr_or_empty_exec(attrs, &key);
                st.cur = Some(
                    CCIMapping {
                        id: chars_to_string(&id),
                        title: String::new(),
                        definition: String::new(),
                        nist_controls: Vec::new(),
                        cci_type: String::new(),
                        status: String::new(),
                        publish_date: String::new(),
                    },
                );
                st.text = Vec::new();
                proof {
                    let c = st.cur->Some_0;
                    assert(c.nist_controls.deep_view() =~= Seq::<Seq<char>>::empty());
                    assert(c@ =~= fresh_record(attr_or_empty(attrs@, "id"@)));
                    assert(st@ =~= cat_step(old(st)@, t@));
                }
            } else if chars_eq_str(name, "references") {
                st.in_refs = true;
                st.text = Vec::new();
                assert(st@ =~= cat_step(old(st)@, t@));
            } else if chars_eq_str(name, "reference") {
                apply_reference(st, attrs);
                st.text = Vec::new();
                assert(st@ =~= cat_step(old(st)@, t@));
            } else {
                st.text = Vec::new();
                assert(st@ =~= cat_step(old(st)@, t@));
            }
        },
        XmlToken::Empty { name, attrs } => {
            if chars_eq_str(name, "reference") {
                apply_reference(st, attrs);
                assert(st@ =~= cat_step(old(st)@, t@));
            } else {
                assert(st@ =~= cat_step(old(st)@, t@));
            }
        },
        XmlToken::End { name } => {
            if st.cur.is_some() {
                if chars_eq_str(name, "definition") {
                    match &mut st.cur {
                        Some(cur) => {
                            let tend = match find_char_from(&st.text, 0, '.') {
                                Some(j) => j,
                                None => if st.text.len() <= 100 {
                                    st.text.len()
                                } else {
                                    100
                                },
                            };
                            let title = sub_chars(&st.text, 0, tend);
                            cur.definition = chars_to_string(&st.text);
                            cur.title = chars_to_string(&title);
                            assert(title@ =~= title_of(old(st)@.text));
                        },
                        None => {
                            assert(false);
                        },
                    }
                } else if chars_eq_str(name, "type") {
                    match &mut st.cur {
                        Some(cur) => {
                            cur.cci_type = chars_to_string(&st.text);
                        },
                        None => {
                            assert(false);
                        },
                    }
                } else if chars_eq_str(name, "status") {
                    match &mut st.cur {
                        Some(cur) => {
                            cur.status = chars_to_string(&st.text);
                        },
                        None => {
                            assert(false);
                        },
                    }
                } else if chars_eq_str(name, "publishdate") {
                    match &mut st.cur {
                        Some(cur) => {
                            cur.publish_date = chars_to_string(&st.text);
                        },
                        None => {
                            assert(false);
                        },
                    }
                }
            }
            if chars_eq_str(name, "cci_item") {
                let ghost old_out = st.out.deep_view();
                let ghost cur_view = st@.cur;
                match st.cur.take() {
                    Some(cur) => {
                        if cur.id.as_str().unicode_len() > 0 {
                            assert(cur@.id.len() > 0);
                            st.out.push(cur);
                            assert(st.out.deep_view() =~= old_out.push(cur_view->Some_0));
                        } else {
                            assert(cur@.id.len() == 0);
                        }
                    },
                    None => {},
                }
            } else if chars_eq_str(name, "references") {
                st.in_refs = false;
            }
            st.text = Vec::new();
            assert(st@ =~= cat_step(old(st)@, t@));
        },
        XmlToken::Text { raw } => {
            let chunk = text_chunk(raw);
            cat_append_chars(&mut st.text, &chunk);
            assert(st@ =~= cat_step(old(st)@, t@));
        },
    }
}

/// Parses one catalog document into its correlation records.  The result
/// is exactly [`spec_parse_cci`] of the text; every returned record has a
/// non-empty identifier, items without one being silently discarded; a
/// malformed document yields the position at which parsing stopped.
pub fn parse_cci_list(content: &str) -> (r: Result<Vec<CCIMapping>, StigError>)
    ensures
        match r {
            Ok(ms) => spec_parse_cci(content@) == Ok::<Seq<CCIMappingView>, int>(ms.deep_view())
                && forall|j: int| 0 <= j < ms@.len() ==> (#[trigger] ms@[j])@.id.len() > 0,
            Err(e) => {
                &&& spec_parse_cci(content@) is Err
                &&& e matches StigError::XmlParsing { position } && position as int == byte_offset(
                    content@,
                    spec_parse_cci(content@)->Err_0,
                )
            },
        },
{
    let chars = str_to_chars(content);
    let tokens = match tokenize(&chars) {
        Ok(ts) => ts,
        Err(p) => {
            let prefix = content.substring_char(0, p);
            proof {
                assert(prefix@ =~= content@.take(p as int));
                assert(prefix.spec_bytes() == vstd::utf8::encode_utf8(content@.take(p as int)));
            }
            let bytes = prefix.as_bytes_vec();
            return Err(StigError::XmlParsing { position: bytes.len() });
        },
    };
    let ghost tv = tokens.deep_view();
    let mut st = cat_init_exec();
    let mut i: usize = 0;
    while i < tokens.len()
        invariant
            0 <= i <= tokens@.len(),
            tv == tokens.deep_view(),
            tv.len() == tokens@.len(),
            spec_tokens(content@) == Ok::<Seq<TokenView>, int>(tv),
            cat_fold_from(cat_init(), tv, 0) == cat_fold_from(st@, tv, i as int),
        decreases tokens@.len() - i,
    {
        cat_step_exec(&mut st, &tokens[i]);
        i += 1;
    }
    proof {
        lemma_cat_fold_ids(cat_init(), tv, 0);
        assert forall|j: int| 0 <= j < st.out@.len() implies (#[trigger] st.out@[j])@.id.len()
            > 0 by {
            assert(st.out.deep_view()[j] == st.out@[j]@);
        }
    }
    Ok(st.out)
}

} // verus!
