//! The checklist serializer: re-emits a checklist structure in the wire
//! format, with every field in a fixed, explicit order and all text
//! content entity-escaped, so that the byte layout matches what the
//! viewer tooling expects.

use vstd::prelude::*;
use crate::escape::escape_xml;
use crate::escape::spec_escape;
use crate::model::AssetInfoView;
use crate::model::STIGChecklist;
use crate::model::STIGChecklistView;
use crate::model::STIGInfoView;
use crate::model::STIGVulnerability;
use crate::model::STIGVulnerabilityView;
use crate::model::StigError;

verus! {

use vstd::string::StringExecFns;

/// One serialized element: opening text, escaped value, closing text.
pub open spec fn spec_field(open: Seq<char>, value: Seq<char>, close: Seq<char>) -> Seq<char> {
    open + spec_escape(value) + close
}

/// One serialized finding attribute: a `STIG_DATA` block holding the
/// attribute name and its value, both escaped.
pub open spec fn spec_stig_data(attr: Seq<char>, value: Seq<char>) -> Seq<char> {
    "\t\t\t\t<STIG_DATA>\n\t\t\t\t\t<VULN_ATTRIBUTE>"@ + spec_escape(attr)
        + "</VULN_ATTRIBUTE>\n\t\t\t\t\t<ATTRIBUTE_DATA>"@ + spec_escape(value)
        + "</ATTRIBUTE_DATA>\n\t\t\t\t</STIG_DATA>\n"@
}

/// The text of an optional field, the empty string when absent.
pub open spec fn opt_str(v: Option<Seq<char>>) -> Seq<char> {
    match v {
        Some(s) => s,
        None => ""@,
    }
}

/// The document head and the first half of the asset block.
pub open spec fn spec_prolog_a(a: AssetInfoView) -> Seq<char> {
    "<?xml version=\"1.0\" encoding=\"UTF-8\"?>\n<!--DISA STIG Viewer :: 2.18-->\n<CHECKLIST>\n\t<ASSET>\n"@
        + spec_field("\t\t<ROLE>"@, a.role, "</ROLE>\n"@)
        + spec_field("\t\t<ASSET_TYPE>"@, a.asset_type, "</ASSET_TYPE>\n"@)
        + spec_field("\t\t<MARKING>"@, a.marking, "</MARKING>\n"@)
        + spec_field("\t\t<HOST_NAME>"@, a.host_name, "</HOST_NAME>\n"@)
        + spec_field("\t\t<HOST_IP>"@, a.host_ip, "</HOST_IP>\n"@)
        + spec_field("\t\t<HOST_MAC>"@, a.host_mac, "</HOST_MAC>\n"@)
        + spec_field("\t\t<HOST_FQDN>"@, a.host_fqdn, "</HOST_FQDN>\n"@)
}

/// The second half of the asset block, with the boolean flag written
/// bare, and the opening of the benchmark section.
pub open spec fn spec_prolog_b(a: AssetInfoView) -> Seq<char> {
    spec_field("\t\t<TARGET_COMMENT>"@, a.target_comment, "</TARGET_COMMENT>\n"@)
        + spec_field("\t\t<TECH_AREA>"@, a.tech_area, "</TECH_AREA>\n"@)
        + spec_field("\t\t<TARGET_KEY>"@, a.target_key, "</TARGET_KEY>\n"@)
        + ("\t\t<WEB_OR_DATABASE>"@ + (if a.web_or_database {
        "true"@
    } else {
        "false"@
    }) + "</WEB_OR_DATABASE>\n"@)
        + spec_field("\t\t<WEB_DB_SITE>"@, a.web_db_site, "</WEB_DB_SITE>\n"@)
        + spec_field("\t\t<WEB_DB_INSTANCE>"@, a.web_db_instance, "</WEB_DB_INSTANCE>\n"@)
        + "\t</ASSET>\n\t<STIGS>\n\t\t<iSTIG>\n\t\t\t<STIG_INFO>\n"@
}

/// The document head: declaration, vendor comment, and the asset block
/// with every descriptor field in fixed order.
pub open spec fn spec_prolog(a: AssetInfoView) -> Seq<char> {
    spec_prolog_a(a) + spec_prolog_b(a)
}

/// One benchmark-metadata entry: an `SI_DATA` block naming the key and
/// holding the escaped value.
pub open spec fn spec_si(name_open: Seq<char>, value: Seq<char>) -> Seq<char> {
    name_open + spec_escape(value) + "</SID_DATA>\n\t\t\t\t</SI_DATA>\n"@
}

/// The benchmark-metadata block: the eleven fields re-expanded as
/// name/value pairs in fixed order.
pub open spec fn spec_stig_info(s: STIGInfoView) -> Seq<char> {
    spec_si("\t\t\t\t<SI_DATA>\n\t\t\t\t\t<SID_NAME>version</SID_NAME>\n\t\t\t\t\t<SID_DATA>"@, s.version)
        + spec_si(
        "\t\t\t\t<SI_DATA>\n\t\t\t\t\t<SID_NAME>classification</SID_NAME>\n\t\t\t\t\t<SID_DATA>"@,
        s.classification,
    ) + spec_si(
        "\t\t\t\t<SI_DATA>\n\t\t\t\t\t<SID_NAME>customname</SID_NAME>\n\t\t\t\t\t<SID_DATA>"@,
        s.custom_name,
    ) + spec_si(
        "\t\t\t\t<SI_DATA>\n\t\t\t\t\t<SID_NAME>stigid</SID_NAME>\n\t\t\t\t\t<SID_DATA>"@,
        s.stig_id,
    ) + spec_si(
        "\t\t\t\t<SI_DATA>\n\t\t\t\t\t<SID_NAME>description</SID_NAME>\n\t\t\t\t\t<SID_DATA>"@,
        s.description,
    ) + spec_si(
        "\t\t\t\t<SI_DATA>\n\t\t\t\t\t<SID_NAME>filename</SID_NAME>\n\t\t\t\t\t<SID_DATA>"@,
        s.file_name,
    ) + spec_si(
        "\t\t\t\t<SI_DATA>\n\t\t\t\t\t<SID_NAME>releaseinfo</SID_NAME>\n\t\t\t\t\t<SID_DATA>"@,
        s.release_info,
    ) + spec_si(
        "\t\t\t\t<SI_DATA>\n\t\t\t\t\t<SID_NAME>title</SID_NAME>\n\t\t\t\t\t<SID_DATA>"@,
        s.title,
    ) + spec_si(
        "\t\t\t\t<SI_DATA>\n\t\t\t\t\t<SID_NAME>uuid</SID_NAME>\n\t\t\t\t\t<SID_DATA>"@,
        s.uuid,
    ) + spec_si(
        "\t\t\t\t<SI_DATA>\n\t\t\t\t\t<SID_NAME>notice</SID_NAME>\n\t\t\t\t\t<SID_DATA>"@,
        s.notice,
    ) + spec_si(
        "\t\t\t\t<SI_DATA>\n\t\t\t\t\t<SID_NAME>source</SID_NAME>\n\t\t\t\t\t<SID_DATA>"@,
        s.source,
    ) + "\t\t\t</STIG_INFO>\n"@
}

/// The repeated correlation-identifier entries of one finding, from
/// index `j` on.
pub open spec fn spec_ccis(refs: Seq<Seq<char>>, j: int) -> Seq<char>
    decreases refs.len() - j,
{
    if j < 0 || j >= refs.len() {
        Seq::empty()
    } else {
        spec_stig_data("CCI_REF"@, refs[j]) + spec_ccis(refs, j + 1)
    }
}

/// The first half of a finding's fixed-order attribute entries.
pub open spec fn spec_vuln_attrs_a(v: STIGVulnerabilityView) -> Seq<char> {
    "\t\t\t<VULN>\n"@ + spec_stig_data("Vuln_Num"@, v.vuln_num) + spec_stig_data(
        "Severity"@,
        v.severity,
    ) + spec_stig_data("Group_Title"@, v.group_title) + spec_stig_data("Rule_ID"@, v.rule_id)
        + spec_stig_data("Rule_Ver"@, v.rule_ver) + spec_stig_data("Rule_Title"@, v.rule_title)
        + spec_stig_data("Vuln_Discuss"@, v.vuln_discuss) + spec_stig_data("IA_Controls"@, ""@)
        + spec_stig_data("Check_Content"@, v.check_content) + spec_stig_data(
        "Fix_Text"@,
        v.fix_text,
    ) + spec_stig_data("False_Positives"@, ""@) + spec_stig_data("False_Negatives"@, ""@)
        + spec_stig_data("Documentable"@, "false"@)
}

/// The second half of a finding's fixed-order attribute entries.
/// `STIGRef` is synthesized from the benchmark title and release,
/// `TargetKey` copied from the asset descriptor.
pub open spec fn spec_vuln_attrs_b(info: STIGInfoView, asset: AssetInfoView) -> Seq<char> {
    spec_stig_data("Mitigations"@, ""@) + spec_stig_data("Potential_Impact"@, ""@)
        + spec_stig_data("Third_Party_Tools"@, ""@) + spec_stig_data("Mitigation_Control"@, ""@)
        + spec_stig_data("Responsibility"@, ""@) + spec_stig_data(
        "Security_Override_Guidance"@,
        ""@,
    ) + spec_stig_data("Check_Content_Ref"@, "M"@) + spec_stig_data("Weight"@, "10.0"@)
        + spec_stig_data("Class"@, "Unclass"@) + spec_stig_data(
        "STIGRef"@,
        info.title + " :: "@ + info.release_info,
    ) + spec_stig_data("TargetKey"@, asset.target_key) + spec_stig_data("STIG_UUID"@, ""@)
        + spec_stig_data("LEGACY_ID"@, ""@)
}

/// The fixed-order attribute entries of one finding, before its
/// correlation identifiers.
pub open spec fn spec_vuln_pre(
    v: STIGVulnerabilityView,
    info: STIGInfoView,
    asset: AssetInfoView,
) -> Seq<char> {
    spec_vuln_attrs_a(v) + spec_vuln_attrs_b(info, asset)
}

/// The direct status and finding elements closing one finding block.
pub open spec fn spec_vuln_post(v: STIGVulnerabilityView) -> Seq<char> {
    spec_field("\t\t\t\t<STATUS>"@, v.status, "</STATUS>\n"@) + spec_field(
        "\t\t\t\t<FINDING_DETAILS>"@,
        v.finding_details,
        "</FINDING_DETAILS>\n"@,
    ) + spec_field("\t\t\t\t<COMMENTS>"@, v.comments, "</COMMENTS>\n"@) + spec_field(
        "\t\t\t\t<SEVERITY_OVERRIDE>"@,
        opt_str(v.severity_override),
        "</SEVERITY_OVERRIDE>\n"@,
    ) + spec_field(
        "\t\t\t\t<SEVERITY_JUSTIFICATION>"@,
        opt_str(v.severity_justification),
        "</SEVERITY_JUSTIFICATION>\n"@,
    ) + "\t\t\t</VULN>\n"@
}

/// One whole serialized finding block.
pub open spec fn spec_vuln(
    v: STIGVulnerabilityView,
    info: STIGInfoView,
    asset: AssetInfoView,
) -> Seq<char> {
    spec_vuln_pre(v, info, asset) + spec_ccis(v.cci_refs, 0) + spec_vuln_post(v)
}

/// The serialized finding blocks from index `i` on.
pub open spec fn spec_vulns(c: STIGChecklistView, i: int) -> Seq<char>
    decreases c.vulnerabilities.len() - i,
{
    if i < 0 || i >= c.vulnerabilities.len() {
        Seq::empty()
    } else {
        spec_vuln(c.vulnerabilities[i], c.stig_info, c.asset) + spec_vulns(c, i + 1)
    }
}

/// The closing tags of the document.
pub open spec fn spec_epilog() -> Seq<char> {
    "\t\t</iSTIG>\n\t</STIGS>\n</CHECKLIST>\n"@
}

/// The whole serialized document of a checklist.
pub open spec fn spec_ckl(c: STIGChecklistView) -> Seq<char> {
    spec_prolog(c.asset) + spec_stig_info(c.stig_info) + spec_vulns(c, 0) + spec_epilog()
}

/// Appends literal text.
fn push_raw(out: &mut String, s: &str)
    ensures
        final(out)@ == old(out)@ + s@,
{
    out.append(s);
}

/// Appends one element: opening text, escaped value, closing text.
fn push_field(out: &mut String, open: &str, value: &str, close: &str)
    ensures
        final(out)@ == old(out)@ + spec_field(open@, value@, close@),
{
    out.append(open);
    let e = escape_xml(value);
    out.append(e.as_str());
    out.append(close);
    assert(out@ =~= old(out)@ + spec_field(open@, value@, close@));
}

/// Appends one finding attribute as a `STIG_DATA` block, both the
/// attribute name and the value escaped.
pub fn add_stig_data(xml: &mut String, attribute: &str, value: &str)
    ensures
        final(xml)@ == old(xml)@ + spec_stig_data(attribute@, value@),
{
    xml.append("\t\t\t\t<STIG_DATA>\n\t\t\t\t\t<VULN_ATTRIBUTE>");
    let ea = escape_xml(attribute);
    xml.append(ea.as_str());
    xml.append("</VULN_ATTRIBUTE>\n\t\t\t\t\t<ATTRIBUTE_DATA>");
    let ev = escape_xml(value);
    xml.append(ev.as_str());
    xml.append("</ATTRIBUTE_DATA>\n\t\t\t\t</STIG_DATA>\n");
    assert(xml@ =~= old(xml)@ + spec_stig_data(attribute@, value@));
}

/// Appends the document head and the first half of the asset block.
#[verifier::rlimit(100)]
fn push_prolog_a(out: &mut String, c: &STIGChecklist)
    ensures
        final(out)@ == old(out)@ + spec_prolog_a(c@.asset),
{
    push_raw(
        out,
        "<?xml version=\"1.0\" encoding=\"UTF-8\"?>\n<!--DISA STIG Viewer :: 2.18-->\n<CHECKLIST>\n\t<ASSET>\n",
    );
    push_field(out, "\t\t<ROLE>", c.asset.role.as_str(), "</ROLE>\n");
    push_field(out, "\t\t<ASSET_TYPE>", c.asset.asset_type.as_str(), "</ASSET_TYPE>\n");
    push_field(out, "\t\t<MARKING>", c.asset.marking.as_str(), "</MARKING>\n");
    push_field(out, "\t\t<HOST_NAME>", c.asset.host_name.as_str(), "</HOST_NAME>\n");
    push_field(out, "\t\t<HOST_IP>", c.asset.host_ip.as_str(), "</HOST_IP>\n");
    push_field(out, "\t\t<HOST_MAC>", c.asset.host_mac.as_str(), "</HOST_MAC>\n");
    push_field(out, "\t\t<HOST_FQDN>", c.asset.host_fqdn.as_str(), "</HOST_FQDN>\n");
    assert(out@ =~= old(out)@ + spec_prolog_a(c@.asset));
}

/// Appends the second half of the asset block and the opening of the
/// benchmark section.
#[verifier::rlimit(100)]
fn push_prolog_b(out: &mut String, c: &STIGChecklist)
    ensures
        final(out)@ == old(out)@ + spec_prolog_b(c@.asset),
{
    push_field(out, "\t\t<TARGET_COMMENT>", c.asset.target_comment.as_str(), "</TARGET_COMMENT>\n");
    push_field(out, "\t\t<TECH_AREA>", c.asset.tech_area.as_str(), "</TECH_AREA>\n");
    push_field(out, "\t\t<TARGET_KEY>", c.asset.target_key.as_str(), "</TARGET_KEY>\n");
    push_raw(out, "\t\t<WEB_OR_DATABASE>");
    if c.asset.web_or_database {
        push_raw(out, "true");
    } else {
        push_raw(out, "false");
    }
    push_raw(out, "</WEB_OR_DATABASE>\n");
    push_field(out, "\t\t<WEB_DB_SITE>", c.asset.web_db_site.as_str(), "</WEB_DB_SITE>\n");
    push_field(
        out,
        "\t\t<WEB_DB_INSTANCE>",
        c.asset.web_db_instance.as_str(),
        "</WEB_DB_INSTANCE>\n",
    );
    push_raw(out, "\t</ASSET>\n\t<STIGS>\n\t\t<iSTIG>\n\t\t\t<STIG_INFO>\n");
    assert(out@ =~= old(out)@ + spec_prolog_b(c@.asset));
}

/// Appends the document head and the asset block.
fn push_prolog(out: &mut String, c: &STIGChecklist)
    ensures
        final(out)@ == old(out)@ + spec_prolog(c@.asset),
{
    push_prolog_a(out, c);
    push_prolog_b(out, c);
    assert(out@ =~= old(out)@ + spec_prolog(c@.asset));
}

/// Appends the benchmark-metadata block.
fn push_stig_info(out: &mut String, c: &STIGChecklist)
    ensures
        final(out)@ == old(out)@ + spec_stig_info(c@.stig_info),
{
    push_field(
        out,
        "\t\t\t\t<SI_DATA>\n\t\t\t\t\t<SID_NAME>version</SID_NAME>\n\t\t\t\t\t<SID_DATA>",
        c.stig_info.version.as_str(),
        "</SID_DATA>\n\t\t\t\t</SI_DATA>\n",
    );
    push_field(
        out,
        "\t\t\t\t<SI_DATA>\n\t\t\t\t\t<SID_NAME>classification</SID_NAME>\n\t\t\t\t\t<SID_DATA>",
        c.stig_info.classification.as_str(),
        "</SID_DATA>\n\t\t\t\t</SI_DATA>\n",
    );
    push_field(
        out,
        "\t\t\t\t<SI_DATA>\n\t\t\t\t\t<SID_NAME>customname</SID_NAME>\n\t\t\t\t\t<SID_DATA>",
        c.stig_info.custom_name.as_str(),
        "</SID_DATA>\n\t\t\t\t</SI_DATA>\n",
    );
    push_field(
        out,
        "\t\t\t\t<SI_DATA>\n\t\t\t\t\t<SID_NAME>stigid</SID_NAME>\n\t\t\t\t\t<SID_DATA>",
        c.stig_info.stig_id.as_str(),
        "</SID_DATA>\n\t\t\t\t</SI_DATA>\n",
    );
    push_field(
        out,
        "\t\t\t\t<SI_DATA>\n\t\t\t\t\t<SID_NAME>description</SID_NAME>\n\t\t\t\t\t<SID_DATA>",
        c.stig_info.description.as_str(),
        "</SID_DATA>\n\t\t\t\t</SI_DATA>\n",
    );
    push_field(
        out,
        "\t\t\t\t<SI_DATA>\n\t\t\t\t\t<SID_NAME>filename</SID_NAME>\n\t\t\t\t\t<SID_DATA>",
        c.stig_info.file_name.as_str(),
        "</SID_DATA>\n\t\t\t\t</SI_DATA>\n",
    );
    push_field(
        out,
        "\t\t\t\t<SI_DATA>\n\t\t\t\t\t<SID_NAME>releaseinfo</SID_NAME>\n\t\t\t\t\t<SID_DATA>",
        c.stig_info.release_info.as_str(),
        "</SID_DATA>\n\t\t\t\t</SI_DATA>\n",
    );
    push_field(
        out,
        "\t\t\t\t<SI_DATA>\n\t\t\t\t\t<SID_NAME>title</SID_NAME>\n\t\t\t\t\t<SID_DATA>",
        c.stig_info.title.as_str(),
        "</SID_DATA>\n\t\t\t\t</SI_DATA>\n",
    );
    push_field(
        out,
        "\t\t\t\t<SI_DATA>\n\t\t\t\t\t<SID_NAME>uuid</SID_NAME>\n\t\t\t\t\t<SID_DATA>",
        c.stig_info.uuid.as_str(),
        "</SID_DATA>\n\t\t\t\t</SI_DATA>\n",
    );
    push_field(
        out,
        "\t\t\t\t<SI_DATA>\n\t\t\t\t\t<SID_NAME>notice</SID_NAME>\n\t\t\t\t\t<SID_DATA>",
        c.stig_info.notice.as_str(),
        "</SID_DATA>\n\t\t\t\t</SI_DATA>\n",
    );
    push_field(
        out,
        "\t\t\t\t<SI_DATA>\n\t\t\t\t\t<SID_NAME>source</SID_NAME>\n\t\t\t\t\t<SID_DATA>",
        c.stig_info.source.as_str(),
        "</SID_DATA>\n\t\t\t\t</SI_DATA>\n",
    );
    push_raw(out, "\t\t\t</STIG_INFO>\n");
    assert(out@ =~= old(out)@ + spec_stig_info(c@.stig_info));
}

/// Appends the first half of a finding's attribute entries.
#[verifier::rlimit(100)]
fn push_vuln_attrs_a(out: &mut String, v: &STIGVulnerability)
    ensures
        final(out)@ == old(out)@ + spec_vuln_attrs_a(v@),
{
    push_raw(out, "\t\t\t<VULN>\n");
    add_stig_data(out, "Vuln_Num", v.vuln_num.as_str());
    add_stig_data(out, "Severity", v.severity.as_str());
    add_stig_data(out, "Group_Title", v.group_title.as_str());
    add_stig_data(out, "Rule_ID", v.rule_id.as_str());
    add_stig_data(out, "Rule_Ver", v.rule_ver.as_str());
    add_stig_data(out, "Rule_Title", v.rule_title.as_str());
    add_stig_data(out, "Vuln_Discuss", v.vuln_discuss.as_str());
    add_stig_data(out, "IA_Controls", "");
    add_stig_data(out, "Check_Content", v.check_content.as_str());
    add_stig_data(out, "Fix_Text", v.fix_text.as_str());
    add_stig_data(out, "False_Positives", "");
    add_stig_data(out, "False_Negatives", "");
    add_stig_data(out, "Documentable", "false");
    assert(out@ =~= old(out)@ + spec_vuln_attrs_a(v@));
}

/// Appends the second half of a finding's attribute entries.
#[verifier::rlimit(100)]
fn push_vuln_attrs_b(out: &mut String, c: &STIGChecklist)
    ensures
        final(out)@ == old(out)@ + spec_vuln_attrs_b(c@.stig_info, c@.asset),
{
    add_stig_data(out, "Mitigations", "");
    add_stig_data(out, "Potential_Impact", "");
    add_stig_data(out, "Third_Party_Tools", "");
    add_stig_data(out, "Mitigation_Control", "");
    add_stig_data(out, "Responsibility", "");
    add_stig_data(out, "Security_Override_Guidance", "");
    add_stig_data(out, "Check_Content_Ref", "M");
    add_stig_data(out, "Weight", "10.0");
    add_stig_data(out, "Class", "Unclass");
    let mut stig_ref = c.stig_info.title.clone();
    stig_ref.append(" :: ");
    stig_ref.append(c.stig_info.release_info.as_str());
    add_stig_data(out, "STIGRef", stig_ref.as_str());
    add_stig_data(out, "TargetKey", c.asset.target_key.as_str());
    add_stig_data(out, "STIG_UUID", "");
    add_stig_data(out, "LEGACY_ID", "");
    assert(out@ =~= old(out)@ + spec_vuln_attrs_b(c@.stig_info, c@.asset));
}

/// Appends one whole finding block.
#[verifier::rlimit(100)]
fn push_vuln(out: &mut String, v: &STIGVulnerability, c: &STIGChecklist)
    ensures
        final(out)@ == old(out)@ + spec_vuln(v@, c@.stig_info, c@.asset),
{
    push_vuln_attrs_a(out, v);
    push_vuln_attrs_b(out, c);
    assert(out@ =~= old(out)@ + spec_vuln_pre(v@, c@.stig_info, c@.asset));
    let ghost pre_done = out@;
    let ghost refs = v@.cci_refs;
    let mut j: usize = 0;
    proof {
        assert(pre_done + spec_ccis(refs, 0) =~= out@ + spec_ccis(refs, 0));
    }
    while j < v.cci_refs.len()
        invariant
            0 <= j <= v.cci_refs@.len(),
            refs == v@.cci_refs,
            refs.len() == v.cci_refs@.len(),
            out@ + spec_ccis(refs, j as int) == pre_done + spec_ccis(refs, 0),
        decreases v.cci_refs@.len() - j,
    {
        let ghost before = out@;
        proof {
            assert(refs[j as int] == v.cci_refs@[j as int]@);
        }
        add_stig_data(out, "CCI_REF", v.cci_refs[j].as_str());
        proof {
            assert(out@ + spec_ccis(refs, j as int + 1) =~= before + (spec_stig_data(
                "CCI_REF"@,
                refs[j as int],
            ) + spec_ccis(refs, j as int + 1)));
        }
        j += 1;
    }
    proof {
        assert(spec_ccis(refs, refs.len() as int) =~= Seq::<char>::empty());
        assert(out@ + Seq::<char>::empty() =~= out@);
        assert(out@ =~= pre_done + spec_ccis(refs, 0));
    }
    push_vuln_post(out, v);
    assert(out@ =~= old(out)@ + spec_vuln(v@, c@.stig_info, c@.asset));
}

/// Appends the direct status and finding elements closing one finding
/// block.
#[verifier::rlimit(100)]
fn push_vuln_post(out: &mut String, v: &STIGVulnerability)
    ensures
        final(out)@ == old(out)@ + spec_vuln_post(v@),
{
    push_field(out, "\t\t\t\t<STATUS>", v.status.as_str(), "</STATUS>\n");
    push_field(
        out,
        "\t\t\t\t<FINDING_DETAILS>",
        v.finding_details.as_str(),
        "</FINDING_DETAILS>\n",
    );
    push_field(out, "\t\t\t\t<COMMENTS>", v.comments.as_str(), "</COMMENTS>\n");
    let ov: &str = match &v.severity_override {
        Some(s) => s.as_str(),
        None => "",
    };
    push_field(out, "\t\t\t\t<SEVERITY_OVERRIDE>", ov, "</SEVERITY_OVERRIDE>\n");
    let ju: &str = match &v.severity_justification {
        Some(s) => s.as_str(),
        None => "",
    };
    push_field(out, "\t\t\t\t<SEVERITY_JUSTIFICATION>", ju, "</SEVERITY_JUSTIFICATION>\n");
    push_raw(out, "\t\t\t</VULN>\n");
    assert(out@ =~= old(out)@ + spec_vuln_post(v@));
}

/// Serializes a checklist structure back into the wire format.  The
/// result is exactly [`spec_ckl`] of the checklist; serialization never
/// fails.
#[verifier::rlimit(100)]
pub fn generate_ckl_xml(checklist: &STIGChecklist) -> (r: Result<String, StigError>)
    ensures
        r is Ok,
        r matches Ok(s) ==> s@ == spec_ckl(checklist@),
{
    let mut out = String::new();
    proof {
        assert(out@ =~= Seq::<char>::empty());
    }
    push_prolog(&mut out, checklist);
    push_stig_info(&mut out, checklist);
    let ghost head = out@;
    let mut i: usize = 0;
    proof {
        assert(head + spec_vulns(checklist@, 0) =~= out@ + spec_vulns(checklist@, 0));
    }
    while i < checklist.vulnerabilities.len()
        invariant
            0 <= i <= checklist.vulnerabilities@.len(),
            checklist@.vulnerabilities.len() == checklist.vulnerabilities@.len(),
            out@ + spec_vulns(checklist@, i as int) == head + spec_vulns(checklist@, 0),
        decreases checklist.vulnerabilities@.len() - i,
    {
        let ghost before = out@;
        proof {
            assert(checklist@.vulnerabilities[i as int] == checklist.vulnerabilities@[i as int]@);
        }
        push_vuln(&mut out, &checklist.vulnerabilities[i], checklist);
        proof {
            assert(out@ + spec_vulns(checklist@, i as int + 1) =~= before + (spec_vuln(
                checklist@.vulnerabilities[i as int],
                checklist@.stig_info,
                checklist@.asset,
            ) + spec_vulns(checklist@, i as int + 1)));
        }
        i += 1;
    }
    proof {
        assert(spec_vulns(checklist@, checklist@.vulnerabilities.len() as int) =~= Seq::<
            char,
        >::empty());
        assert(out@ + Seq::<char>::empty() =~= out@);
        assert(out@ =~= head + spec_vulns(checklist@, 0));
    }
    push_raw(&mut out, "\t\t</iSTIG>\n\t</STIGS>\n</CHECKLIST>\n");
    assert(out@ =~= spec_ckl(checklist@)) by {
        assert(Seq::<char>::empty() + spec_prolog(checklist@.asset) =~= spec_prolog(
            checklist@.asset,
        ));
    }
    Ok(out)
}

} // verus!
