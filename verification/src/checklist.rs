//! The checklist parser: a single pass over the token stream with three
//! mutually exclusive contexts — inside the asset block, inside the
//! benchmark-metadata block, inside one finding block — entered and left
//! on the matching start and end tags.  Name/value pairs accumulate in
//! per-block tables and are projected onto the named fields when the
//! block closes.  Unknown elements are ignored.

use vstd::prelude::*;
use crate::escape::spec_text_chunk;
use crate::escape::text_chunk;
use crate::model::AssetInfo;
use crate::model::AssetInfoView;
use crate::model::STIGChecklist;
use crate::model::STIGChecklistView;
use crate::model::STIGInfo;
use crate::model::STIGInfoView;
use crate::model::STIGVulnerability;
use crate::model::STIGVulnerabilityView;
use crate::model::StigError;
use crate::strutil::byte_offset;
use crate::strutil::chars_eq_str;
use crate::strutil::chars_to_string;
use crate::strutil::lower_string;
use crate::strutil::spec_lower;
use crate::strutil::str_eq;
use crate::strutil::str_to_chars;
use crate::xml::TokenView;
use crate::xml::XmlToken;
use crate::xml::spec_tokens;
use crate::xml::tokenize;

verus! {

use vstd::string::StrSliceExecFns;
use vstd::string::StringExecFns;
use vstd::string::StringSliceAdditionalSpecFns;

/// One key/value pair of a block's accumulation table.
#[derive(Debug)]
pub struct KV {
    pub key: String,
    pub value: String,
}

/// Mathematical model of a [`KV`].
#[verifier::ext_equal]
pub struct KVView {
    pub key: Seq<char>,
    pub value: Seq<char>,
}

impl View for KV {
    type V = KVView;

    open spec fn view(&self) -> KVView {
        KVView { key: self.key@, value: self.value@ }
    }
}

impl DeepView for KV {
    type V = KVView;

    open spec fn deep_view(&self) -> KVView {
        self.view()
    }
}

/// The value under `key` in an accumulation table; a later pair with the
/// same key wins, and a missing key yields the empty string.
pub open spec fn kv_lookup(pairs: Seq<KVView>, key: Seq<char>) -> Seq<char>
    decreases pairs.len(),
{
    if pairs.len() == 0 {
        Seq::empty()
    } else if pairs.last().key == key {
        pairs.last().value
    } else {
        kv_lookup(pairs.drop_last(), key)
    }
}

/// Looks a key up in an accumulation table, later pairs winning.
pub fn kv_lookup_exec(pairs: &Vec<KV>, key: &str) -> (r: String)
    ensures
        r@ == kv_lookup(pairs.deep_view(), key@),
{
    let mut j: usize = pairs.len();
    proof {
        assert(pairs.deep_view().take(j as int) =~= pairs.deep_view());
    }
    while j > 0
        invariant
            0 <= j <= pairs@.len(),
            pairs.deep_view().len() == pairs@.len(),
            kv_lookup(pairs.deep_view(), key@) == kv_lookup(pairs.deep_view().take(j as int), key@),
        decreases j,
    {
        proof {
            let d = pairs.deep_view();
            assert(d.take(j as int).last() == d[j - 1]);
            assert(d.take(j as int).drop_last() =~= d.take(j - 1));
        }
        if str_eq(pairs[j - 1].key.as_str(), key) {
            return pairs[j - 1].value.clone();
        }
        j -= 1;
    }
    proof {
        assert(pairs.deep_view().take(0) =~= Seq::<KVView>::empty());
    }
    String::new()
}

/// Which block the parser currently stands in.
#[derive(Debug, Clone, Copy, PartialEq, Eq, Structural)]
pub enum Ctx {
    /// Between blocks.
    Outside,
    /// Inside the asset block.
    InAsset,
    /// Inside the benchmark-metadata block.
    InStigInfo,
    /// Inside one finding block.
    InVuln,
}

/// The parser's whole state between two tokens.
#[derive(Debug)]
pub struct PState {
    pub ctx: Ctx,
    pub asset: AssetInfo,
    pub stig_info: STIGInfo,
    pub vulns: Vec<STIGVulnerability>,
    /// Decoded text accumulated since the last tag.
    pub text: Vec<char>,
    /// Benchmark-metadata pairs, keys already folded to lower case.
    pub si_pairs: Vec<KV>,
    /// The most recent metadata name element, folded to lower case.
    pub cur_sid: String,
    /// Finding-attribute pairs of the current finding block.
    pub pairs: Vec<KV>,
    /// The most recent finding-attribute name element.
    pub cur_attr: String,
    /// Correlation-identifier references of the current finding block.
    pub cci_refs: Vec<String>,
    pub cur_status: String,
    pub cur_details: String,
    pub cur_comments: String,
    pub cur_override: Option<String>,
    pub cur_justification: Option<String>,
}

/// Mathematical model of a [`PState`].
#[verifier::ext_equal]
pub struct PStateView {
    pub ctx: Ctx,
    pub asset: AssetInfoView,
    pub stig_info: STIGInfoView,
    pub vulns: Seq<STIGVulnerabilityView>,
    pub text: Seq<char>,
    pub si_pairs: Seq<KVView>,
    pub cur_sid: Seq<char>,
    pub pairs: Seq<KVView>,
    pub cur_attr: Seq<char>,
    pub cci_refs: Seq<Seq<char>>,
    pub cur_status: Seq<char>,
    pub cur_details: Seq<char>,
    pub cur_comments: Seq<char>,
    pub cur_override: Option<Seq<char>>,
    pub cur_justification: Option<Seq<char>>,
}

impl View for PState {
    type V = PStateView;

    open spec fn view(&self) -> PStateView {
        PStateView {
            ctx: self.ctx,
            asset: self.asset@,
            stig_info: self.stig_info@,
            vulns: self.vulns.deep_view(),
            text: self.text@,
            si_pairs: self.si_pairs.deep_view(),
            cur_sid: self.cur_sid@,
            pairs: self.pairs.deep_view(),
            cur_attr: self.cur_attr@,
            cci_refs: self.cci_refs.deep_view(),
            cur_status: self.cur_status@,
            cur_details: self.cur_details@,
            cur_comments: self.cur_comments@,
            cur_override: self.cur_override.deep_view(),
            cur_justification: self.cur_justification.deep_view(),
        }
    }
}

/// An asset descriptor with every field empty.
pub open spec fn empty_asset() -> AssetInfoView {
    AssetInfoView {
        role: Seq::empty(),
        asset_type: Seq::empty(),
        marking: Seq::empty(),
        host_name: Seq::empty(),
        host_ip: Seq::empty(),
        host_mac: Seq::empty(),
        host_fqdn: Seq::empty(),
        target_comment: Seq::empty(),
        tech_area: Seq::empty(),
        target_key: Seq::empty(),
        web_or_database: false,
        web_db_site: Seq::empty(),
        web_db_instance: Seq::empty(),
    }
}

/// Benchmark metadata with every field empty.
pub open spec fn empty_stig_info() -> STIGInfoView {
    STIGInfoView {
        version: Seq::empty(),
        classification: Seq::empty(),
        custom_name: Seq::empty(),
        stig_id: Seq::empty(),
        description: Seq::empty(),
        file_name: Seq::empty(),
        release_info: Seq::empty(),
        title: Seq::empty(),
        uuid: Seq::empty(),
        notice: Seq::empty(),
        source: Seq::empty(),
    }
}

/// The parser's starting state.
pub open spec fn init_state() -> PStateView {
    PStateView {
        ctx: Ctx::Outside,
        asset: empty_asset(),
        stig_info: empty_stig_info(),
        vulns: Seq::empty(),
        text: Seq::empty(),
        si_pairs: Seq::empty(),
        cur_sid: Seq::empty(),
        pairs: Seq::empty(),
        cur_attr: Seq::empty(),
        cci_refs: Seq::empty(),
        cur_status: Seq::empty(),
        cur_details: Seq::empty(),
        cur_comments: Seq::empty(),
        cur_override: None,
        cur_justification: None,
    }
}

/// What a start tag does: the three block openers switch the context and
/// a finding opener resets the per-finding accumulation; any start tag
/// discards accumulated text.
pub open spec fn step_start(st: PStateView, name: Seq<char>) -> PStateView {
    if name == "ASSET"@ {
        PStateView { ctx: Ctx::InAsset, text: Seq::empty(), ..st }
    } else if name == "STIG_INFO"@ {
        PStateView { ctx: Ctx::InStigInfo, text: Seq::empty(), ..st }
    } else if name == "VULN"@ {
        PStateView {
            ctx: Ctx::InVuln,
            text: Seq::empty(),
            pairs: Seq::empty(),
            cci_refs: Seq::empty(),
            cur_status: Seq::empty(),
            cur_details: Seq::empty(),
            cur_comments: Seq::empty(),
            cur_override: None,
            cur_justification: None,
            ..st
        }
    } else {
        PStateView { text: Seq::empty(), ..st }
    }
}

/// What an end tag's accumulated text means for the current block's
/// fields and tables.
pub open spec fn assign_fields(st: PStateView, name: Seq<char>) -> PStateView {
    let value = st.text;
    if st.ctx is InAsset {
        if name == "ROLE"@ {
            PStateView { asset: AssetInfoView { role: value, ..st.asset }, ..st }
        } else if name == "ASSET_TYPE"@ {
            PStateView { asset: AssetInfoView { asset_type: value, ..st.asset }, ..st }
        } else if name == "MARKING"@ {
            PStateView { asset: AssetInfoView { marking: value, ..st.asset }, ..st }
        } else if name == "HOST_NAME"@ {
            PStateView { asset: AssetInfoView { host_name: value, ..st.asset }, ..st }
        } else if name == "HOST_IP"@ {
            PStateView { asset: AssetInfoView { host_ip: value, ..st.asset }, ..st }
        } else if name == "HOST_MAC"@ {
            PStateView { asset: AssetInfoView { host_mac: value, ..st.asset }, ..st }
        } else if name == "HOST_FQDN"@ {
            PStateView { asset: AssetInfoView { host_fqdn: value, ..st.asset }, ..st }
        } else if name == "TARGET_COMMENT"@ {
            PStateView { asset: AssetInfoView { target_comment: value, ..st.asset }, ..st }
        } else if name == "TECH_AREA"@ {
            PStateView { asset: AssetInfoView { tech_area: value, ..st.asset }, ..st }
        } else if name == "TARGET_KEY"@ {
            PStateView { asset: AssetInfoView { target_key: value, ..st.asset }, ..st }
        } else if name == "WEB_OR_DATABASE"@ {
            PStateView {
                asset: AssetInfoView { web_or_database: value == "true"@, ..st.asset },
                ..st
            }
        } else if name == "WEB_DB_SITE"@ {
            PStateView { asset: AssetInfoView { web_db_site: value, ..st.asset }, ..st }
        } else if name == "WEB_DB_INSTANCE"@ {
            PStateView { asset: AssetInfoView { web_db_instance: value, ..st.asset }, ..st }
        } else {
            st
        }
    } else if st.ctx is InStigInfo {
        if name == "SID_NAME"@ {
            PStateView { cur_sid: spec_lower(value), ..st }
        } else if name == "SID_DATA"@ {
            PStateView { si_pairs: st.si_pairs.push(KVView { key: st.cur_sid, value }), ..st }
        } else {
            st
        }
    } else if st.ctx is InVuln {
        if name == "VULN_ATTRIBUTE"@ {
            PStateView { cur_attr: value, ..st }
        } else if name == "ATTRIBUTE_DATA"@ {
            if st.cur_attr == "CCI_REF"@ {
                if value.len() > 0 {
                    PStateView { cci_refs: st.cci_refs.push(value), ..st }
                } else {
                    st
                }
            } else {
                PStateView { pairs: st.pairs.push(KVView { key: st.cur_attr, value }), ..st }
            }
        } else if name == "STATUS"@ {
            PStateView { cur_status: value, ..st }
        } else if name == "FINDING_DETAILS"@ {
            PStateView { cur_details: value, ..st }
        } else if name == "COMMENTS"@ {
            PStateView { cur_comments: value, ..st }
        } else if name == "SEVERITY_OVERRIDE"@ {
            PStateView {
                cur_override: if value.len() == 0 {
                    None
                } else {
                    Some(value)
                },
                ..st
            }
        } else if name == "SEVERITY_JUSTIFICATION"@ {
            PStateView {
                cur_justification: if value.len() == 0 {
                    None
                } else {
                    Some(value)
                },
                ..st
            }
        } else {
            st
        }
    } else {
        st
    }
}

/// The benchmark metadata projected from the accumulated pairs.
pub open spec fn project_stig_info(pairs: Seq<KVView>) -> STIGInfoView {
    STIGInfoView {
        version: kv_lookup(pairs, "version"@),
        classification: kv_lookup(pairs, "classification"@),
        custom_name: kv_lookup(pairs, "customname"@),
        stig_id: kv_lookup(pairs, "stigid"@),
        description: kv_lookup(pairs, "description"@),
        file_name: kv_lookup(pairs, "filename"@),
        release_info: kv_lookup(pairs, "releaseinfo"@),
        title: kv_lookup(pairs, "title"@),
        uuid: kv_lookup(pairs, "uuid"@),
        notice: kv_lookup(pairs, "notice"@),
        source: kv_lookup(pairs, "source"@),
    }
}

/// The finding projected from the accumulated pairs, references and
/// direct child elements of one finding block.
pub open spec fn project_vuln(st: PStateView) -> STIGVulnerabilityView {
    STIGVulnerabilityView {
        vuln_num: kv_lookup(st.pairs, "Vuln_Num"@),
        severity: kv_lookup(st.pairs, "Severity"@),
        group_title: kv_lookup(st.pairs, "Group_Title"@),
        rule_id: kv_lookup(st.pairs, "Rule_ID"@),
        rule_ver: kv_lookup(st.pairs, "Rule_Ver"@),
        rule_title: kv_lookup(st.pairs, "Rule_Title"@),
        vuln_discuss: kv_lookup(st.pairs, "Vuln_Discuss"@),
        check_content: kv_lookup(st.pairs, "Check_Content"@),
        fix_text: kv_lookup(st.pairs, "Fix_Text"@),
        cci_refs: st.cci_refs,
        status: st.cur_status,
        finding_details: st.cur_details,
        comments: st.cur_comments,
        severity_override: st.cur_override,
        severity_justification: st.cur_justification,
        stig_id: kv_lookup(st.pairs, "Rule_Ver"@),
    }
}

/// What an end tag does after field assignment: the three block closers
/// leave their context, the metadata block is projected, and a finding
/// block appends its finding.
pub open spec fn close_blocks(st: PStateView, name: Seq<char>) -> PStateView {
    if name == "ASSET"@ {
        PStateView {
            ctx: if st.ctx is InAsset {
                Ctx::Outside
            } else {
                st.ctx
            },
            ..st
        }
    } else if name == "STIG_INFO"@ {
        PStateView {
            ctx: if st.ctx is InStigInfo {
                Ctx::Outside
            } else {
                st.ctx
            },
            stig_info: project_stig_info(st.si_pairs),
            ..st
        }
    } else if name == "VULN"@ {
        if st.ctx is InVuln {
            PStateView { ctx: Ctx::Outside, vulns: st.vulns.push(project_vuln(st)), ..st }
        } else {
            st
        }
    } else {
        st
    }
}

/// What an end tag does: assign the accumulated text, close a block if
/// one ends here, discard the accumulated text.
pub open spec fn step_end(st: PStateView, name: Seq<char>) -> PStateView {
    let st1 = assign_fields(st, name);
    let st2 = close_blocks(st1, name);
    PStateView { text: Seq::empty(), ..st2 }
}

/// What one token does to the parser state.
pub open spec fn step(st: PStateView, t: TokenView) -> PStateView {
    match t {
        TokenView::Start { name, .. } => step_start(st, name),
        TokenView::Empty { .. } => st,
        TokenView::End { name } => step_end(st, name),
        TokenView::Text { raw } => PStateView { text: st.text + spec_text_chunk(raw), ..st },
    }
}

/// The state after folding the tokens from `i` on.
pub open spec fn fold_from(st: PStateView, ts: Seq<TokenView>, i: int) -> PStateView
    decreases ts.len() - i,
{
    if i < 0 || i >= ts.len() {
        st
    } else {
        fold_from(step(st, ts[i]), ts, i + 1)
    }
}

/// The checklist a document parses to, or the position at which parsing
/// stops.
pub open spec fn spec_parse_checklist(s: Seq<char>) -> Result<STIGChecklistView, int> {
    match spec_tokens(s) {
        Err(p) => Err(p),
        Ok(ts) => {
            let fin = fold_from(init_state(), ts, 0);
            Ok(
                STIGChecklistView {
                    asset: fin.asset,
                    stig_info: fin.stig_info,
                    vulnerabilities: fin.vulns,
                },
            )
        },
    }
}

/// The parser's starting state, executably.
fn init_pstate() -> (st: PState)
    ensures
        st@ == init_state(),
{
    let st = PState {
        ctx: Ctx::Outside,
        asset: AssetInfo {
            role: String::new(),
            asset_type: String::new(),
            marking: String::new(),
            host_name: String::new(),
            host_ip: String::new(),
            host_mac: String::new(),
            host_fqdn: String::new(),
            target_comment: String::new(),
            tech_area: String::new(),
            target_key: String::new(),
            web_or_database: false,
            web_db_site: String::new(),
            web_db_instance: String::new(),
        },
        stig_info: STIGInfo {
            version: String::new(),
            classification: String::new(),
            custom_name: String::new(),
            stig_id: String::new(),
            description: String::new(),
            file_name: String::new(),
            release_info: String::new(),
            title: String::new(),
            uuid: String::new(),
            notice: String::new(),
            source: String::new(),
        },
        vulns: Vec::new(),
        text: Vec::new(),
        si_pairs: Vec::new(),
        cur_sid: String::new(),
        pairs: Vec::new(),
        cur_attr: String::new(),
        cci_refs: Vec::new(),
        cur_status: String::new(),
        cur_details: String::new(),
        cur_comments: String::new(),
        cur_override: None,
        cur_justification: None,
    };
    proof {
        assert(st.vulns.deep_view() =~= Seq::<STIGVulnerabilityView>::empty());
        assert(st.si_pairs.deep_view() =~= Seq::<KVView>::empty());
        assert(st.pairs.deep_view() =~= Seq::<KVView>::empty());
        assert(st.cci_refs.deep_view() =~= Seq::<Seq<char>>::empty());
        assert(st@ =~= init_state());
    }
    st
}

/// Appends the characters of `src` to `dst`.
fn append_chars(dst: &mut Vec<char>, src: &Vec<char>)
    ensures
        final(dst)@ == old(dst)@ + src@,
{
    let mut i: usize = 0;
    proof {
        assert(dst@ =~= old(dst)@ + src@.take(0));
    }
    while i < src.len()
        invariant
            0 <= i <= src@.len(),
            dst@ == old(dst)@ + src@.take(i as int),
        decreases src@.len() - i,
    {
        dst.push(src[i]);
        assert(dst@ =~= old(dst)@ + src@.take(i as int + 1));
        i += 1;
    }
    assert(dst@ =~= old(dst)@ + src@);
}

/// Clones a vector of strings, keeping its model.
pub fn clone_strings(v: &Vec<String>) -> (r: Vec<String>)
    ensures
        r.deep_view() == v.deep_view(),
{
    let mut r: Vec<String> = Vec::new();
    let mut i: usize = 0;
    while i < v.len()
        invariant
            0 <= i <= v@.len(),
            r@.len() == i,
            forall|j: int| 0 <= j < i ==> r@[j]@ == v@[j]@,
        decreases v@.len() - i,
    {
        r.push(v[i].clone());
        i += 1;
    }
    proof {
        assert forall|j: int| 0 <= j < v@.len() implies r.deep_view()[j] == v.deep_view()[j] by {
            assert(r@[j]@ == v@[j]@);
        }
        assert(r.deep_view() =~= v.deep_view());
    }
    r
}

/// Applies a start tag to the state.  Exactly [`step_start`].
fn step_start_exec(st: &mut PState, name: &Vec<char>)
    ensures
        final(st)@ == step_start(old(st)@, name@),
{
    if chars_eq_str(name, "ASSET") {
        st.ctx = Ctx::InAsset;
        st.text = Vec::new();
        assert(st@ =~= step_start(old(st)@, name@));
    } else if chars_eq_str(name, "STIG_INFO") {
        st.ctx = Ctx::InStigInfo;
        st.text = Vec::new();
        assert(st@ =~= step_start(old(st)@, name@));
    } else if chars_eq_str(name, "VULN") {
        st.ctx = Ctx::InVuln;
        st.text = Vec::new();
        st.pairs = Vec::new();
        st.cci_refs = Vec::new();
        st.cur_status = String::new();
        st.cur_details = String::new();
        st.cur_comments = String::new();
        st.cur_override = None;
        st.cur_justification = None;
        proof {
            assert(st.pairs.deep_view() =~= Seq::<KVView>::empty());
            assert(st.cci_refs.deep_view() =~= Seq::<Seq<char>>::empty());
            assert(st@ =~= step_start(old(st)@, name@));
        }
    } else {
        st.text = Vec::new();
        assert(st@ =~= step_start(old(st)@, name@));
    }
}

/// Applies an end tag's field assignment to the state.  Exactly
/// [`assign_fields`].
fn assign_fields_exec(st: &mut PState, name: &Vec<char>)
    ensures
        final(st)@ == assign_fields(old(st)@, name@),
{
    match st.ctx {
        Ctx::InAsset => {
            if chars_eq_str(name, "ROLE") {
                st.asset.role = chars_to_string(&st.text);
            } else if chars_eq_str(name, "ASSET_TYPE") {
                st.asset.asset_type = chars_to_string(&st.text);
            } else if chars_eq_str(name, "MARKING") {
                st.asset.marking = chars_to_string(&st.text);
            } else if chars_eq_str(name, "HOST_NAME") {
                st.asset.host_name = chars_to_string(&st.text);
            } else if chars_eq_str(name, "HOST_IP") {
                st.asset.host_ip = chars_to_string(&st.text);
            } else if chars_eq_str(name, "HOST_MAC") {
                st.asset.host_mac = chars_to_string(&st.text);
            } else if chars_eq_str(name, "HOST_FQDN") {
                st.asset.host_fqdn = chars_to_string(&st.text);
            } else if chars_eq_str(name, "TARGET_COMMENT") {
                st.asset.target_comment = chars_to_string(&st.text);
            } else if chars_eq_str(name, "TECH_AREA") {
                st.asset.tech_area = chars_to_string(&st.text);
            } else if chars_eq_str(name, "TARGET_KEY") {
                st.asset.target_key = chars_to_string(&st.text);
            } else if chars_eq_str(name, "WEB_OR_DATABASE") {
                st.asset.web_or_database = chars_eq_str(&st.text, "true");
            } else if chars_eq_str(name, "WEB_DB_SITE") {
                st.asset.web_db_site = chars_to_string(&st.text);
            } else if chars_eq_str(name, "WEB_DB_INSTANCE") {
                st.asset.web_db_instance = chars_to_string(&st.text);
            }
            assert(st@ =~= assign_fields(old(st)@, name@));
        },
        Ctx::InStigInfo => {
            if chars_eq_str(name, "SID_NAME") {
                let v = chars_to_string(&st.text);
                st.cur_sid = lower_string(&v);
            } else if chars_eq_str(name, "SID_DATA") {
                let ghost old_pairs = st.si_pairs.deep_view();
                let key = st.cur_sid.clone();
                let value = chars_to_string(&st.text);
                st.si_pairs.push(KV { key, value });
                assert(st.si_pairs.deep_view() =~= old_pairs.push(
                    KVView { key: old(st)@.cur_sid, value: old(st)@.text },
                ));
            }
            assert(st@ =~= assign_fields(old(st)@, name@));
        },
        Ctx::InVuln => {
            if chars_eq_str(name, "VULN_ATTRIBUTE") {
                st.cur_attr = chars_to_string(&st.text);
            } else if chars_eq_str(name, "ATTRIBUTE_DATA") {
                if str_eq(st.cur_attr.as_str(), "CCI_REF") {
                    if st.text.len() > 0 {
                        let ghost old_refs = st.cci_refs.deep_view();
                        let value = chars_to_string(&st.text);
                        st.cci_refs.push(value);
                        assert(st.cci_refs.deep_view() =~= old_refs.push(old(st)@.text));
                    }
                } else {
                    let ghost old_pairs = st.pairs.deep_view();
                    let key = st.cur_attr.clone();
                    let value = chars_to_string(&st.text);
                    st.pairs.push(KV { key, value });
                    assert(st.pairs.deep_view() =~= old_pairs.push(
                        KVView { key: old(st)@.cur_attr, value: old(st)@.text },
                    ));
                }
            } else if chars_eq_str(name, "STATUS") {
                st.cur_status = chars_to_string(&st.text);
            } else if chars_eq_str(name, "FINDING_DETAILS") {
                st.cur_details = chars_to_string(&st.text);
            } else if chars_eq_str(name, "COMMENTS") {
                st.cur_comments = chars_to_string(&st.text);
            } else if chars_eq_str(name, "SEVERITY_OVERRIDE") {
                if st.text.len() == 0 {
                    st.cur_override = None;
                } else {
                    st.cur_override = Some(chars_to_string(&st.text));
                }
            } else if chars_eq_str(name, "SEVERITY_JUSTIFICATION") {
                if st.text.len() == 0 {
                    st.cur_justification = None;
                } else {
                    st.cur_justification = Some(chars_to_string(&st.text));
                }
            }
            assert(st@ =~= assign_fields(old(st)@, name@));
        },
        Ctx::Outside => {
            assert(st@ =~= assign_fields(old(st)@, name@));
        },
    }
}

/// Projects the benchmark metadata from the accumulated pairs.  Exactly
/// [`project_stig_info`].
fn project_stig_info_exec(pairs: &Vec<KV>) -> (r: STIGInfo)
    ensures
        r@ == project_stig_info(pairs.deep_view()),
{
    let r = STIGInfo {
        version: kv_lookup_exec(pairs, "version"),
        classification: kv_lookup_exec(pairs, "classification"),
        custom_name: kv_lookup_exec(pairs, "customname"),
        stig_id: kv_lookup_exec(pairs, "stigid"),
        description: kv_lookup_exec(pairs, "description"),
        file_name: kv_lookup_exec(pairs, "filename"),
        release_info: kv_lookup_exec(pairs, "releaseinfo"),
        title: kv_lookup_exec(pairs, "title"),
        uuid: kv_lookup_exec(pairs, "uuid"),
        notice: kv_lookup_exec(pairs, "notice"),
        source: kv_lookup_exec(pairs, "source"),
    };
    assert(r@ =~= project_stig_info(pairs.deep_view()));
    r
}

/// Projects the current finding from the state.  Exactly
/// [`project_vuln`].
fn project_vuln_exec(st: &PState) -> (r: STIGVulnerability)
    ensures
        r@ == project_vuln(st@),
{
    let r = STIGVulnerability {
        vuln_num: kv_lookup_exec(&st.pairs, "Vuln_Num"),
        severity: kv_lookup_exec(&st.pairs, "Severity"),
        group_title: kv_lookup_exec(&st.pairs, "Group_Title"),
        rule_id: kv_lookup_exec(&st.pairs, "Rule_ID"),
        rule_ver: kv_lookup_exec(&st.pairs, "Rule_Ver"),
        rule_title: kv_lookup_exec(&st.pairs, "Rule_Title"),
        vuln_discuss: kv_lookup_exec(&st.pairs, "Vuln_Discuss"),
        check_content: kv_lookup_exec(&st.pairs, "Check_Content"),
        fix_text: kv_lookup_exec(&st.pairs, "Fix_Text"),
        cci_refs: clone_strings(&st.cci_refs),
        status: st.cur_status.clone(),
        finding_details: st.cur_details.clone(),
        comments: st.cur_comments.clone(),
        severity_override: match &st.cur_override {
            Some(s) => Some(s.clone()),
            None => None,
        },
        severity_justification: match &st.cur_justification {
            Some(s) => Some(s.clone()),
            None => None,
        },
        stig_id: kv_lookup_exec(&st.pairs, "Rule_Ver"),
    };
    assert(r@ =~= project_vuln(st@));
    r
}

/// Applies an end tag's block closing to the state.  Exactly
/// [`close_blocks`].
fn close_blocks_exec(st: &mut PState, name: &Vec<char>)
    ensures
        final(st)@ == close_blocks(old(st)@, name@),
{
    if chars_eq_str(name, "ASSET") {
        if matches!(st.ctx, Ctx::InAsset) {
            st.ctx = Ctx::Outside;
        }
        assert(st@ =~= close_blocks(old(st)@, name@));
    } else if chars_eq_str(name, "STIG_INFO") {
        if matches!(st.ctx, Ctx::InStigInfo) {
            st.ctx = Ctx::Outside;
        }
        st.stig_info = project_stig_info_exec(&st.si_pairs);
        assert(st@ =~= close_blocks(old(st)@, name@));
    } else if chars_eq_str(name, "VULN") {
        if matches!(st.ctx, Ctx::InVuln) {
            let ghost old_vulns = st.vulns.deep_view();
            let vuln = project_vuln_exec(st);
            st.vulns.push(vuln);
            st.ctx = Ctx::Outside;
            assert(st.vulns.deep_view() =~= old_vulns.push(project_vuln(old(st)@)));
        }
        assert(st@ =~= close_blocks(old(st)@, name@));
    } else {
        assert(st@ =~= close_blocks(old(st)@, name@));
    }
}

/// Applies one token to the state.  Exactly [`step`].
fn step_exec(st: &mut PState, t: &XmlToken)
    ensures
        final(st)@ == step(old(st)@, t@),
{
    match t {
        XmlToken::Start { name, .. } => {
            step_start_exec(st, name);
        },
        XmlToken::Empty { .. } => {
        },
        XmlToken::End { name } => {
            assign_fields_exec(st, name);
            close_blocks_exec(st, name);
            st.text = Vec::new();
            assert(st@ =~= step_end(old(st)@, name@));
        },
        XmlToken::Text { raw } => {
            let chunk = text_chunk(raw);
            append_chars(&mut st.text, &chunk);
            assert(st@ =~= step(old(st)@, t@));
        },
    }
}

/// Parses one checklist document.  The result is exactly
/// [`spec_parse_checklist`] of the text; a malformed document yields
/// the byte offset at which parsing stopped.
pub fn parse_stig_checklist(content: &str) -> (r: Result<STIGChecklist, StigError>)
    ensures
        match r {
            Ok(c) => spec_parse_checklist(content@) == Ok::<STIGChecklistView, int>(c@),
            Err(e) => {
                &&& spec_parse_checklist(content@) is Err
                &&& e matches StigError::XmlParsing { position } && position as int == byte_offset(
                    content@,
                    spec_parse_checklist(content@)->Err_0,
                )
            },
        },
{
    let chars = str_to_chars(content);
    let tokens = match tokenize(&chars) {
        Ok(ts) => ts,
        Err(p) => {
            let prefix = content.substring_char(0, p);
            proof {
                assert(prefix@ =~= content@.take(p as int));
                assert(prefix.spec_bytes() == vstd::utf8::encode_utf8(content@.take(p as int)));
            }
            let bytes = prefix.as_bytes_vec();
            return Err(StigError::XmlParsing { position: bytes.len() });
        },
    };
    let ghost tv = tokens.deep_view();
    let mut st = init_pstate();
    let mut i: usize = 0;
    while i < tokens.len()
        invariant
            0 <= i <= tokens@.len(),
            tv == tokens.deep_view(),
            tv.len() == tokens@.len(),
            spec_tokens(content@) == Ok::<Seq<TokenView>, int>(tv),
            fold_from(init_state(), tv, 0) == fold_from(st@, tv, i as int),
        decreases tokens@.len() - i,
    {
        step_exec(&mut st, &tokens[i]);
        i += 1;
    }
    let checklist = STIGChecklist { asset: st.asset, stig_info: st.stig_info, vulnerabilities: st.vulns };
    proof {
        assert(checklist@ =~= match spec_parse_checklist(content@) {
            Ok(c) => c,
            Err(_) => checklist@,
        });
    }
    Ok(checklist)
}

} // verus!
