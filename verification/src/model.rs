//! Data model of the mapping engine: catalog records, checklist
//! structures, derived control mappings, and the engine's error type.

use vstd::prelude::*;

verus! {

/// Error surfaced by the parsing components.
#[derive(Debug, Clone, Copy, PartialEq, Eq)]
pub enum StigError {
    /// The document is not well formed; `position` is the byte offset at
    /// which parsing stopped.
    XmlParsing { position: usize },
    /// The merger was handed an empty list of documents.
    InvalidFormat,
}

/// One control-correlation record from the catalog.
#[derive(Debug, PartialEq, Eq)]
pub struct CCIMapping {
    pub id: String,
    pub title: String,
    pub definition: String,
    pub nist_controls: Vec<String>,
    pub cci_type: String,
    pub status: String,
    pub publish_date: String,
}

/// Mathematical model of a [`CCIMapping`].
#[verifier::ext_equal]
pub struct CCIMappingView {
    pub id: Seq<char>,
    pub title: Seq<char>,
    pub definition: Seq<char>,
    pub nist_controls: Seq<Seq<char>>,
    pub cci_type: Seq<char>,
    pub status: Seq<char>,
    pub publish_date: Seq<char>,
}

impl View for CCIMapping {
    type V = CCIMappingView;

    open spec fn view(&self) -> CCIMappingView {
        CCIMappingView {
            id: self.id@,
            title: self.title@,
            definition: self.definition@,
            nist_controls: self.nist_controls.deep_view(),
            cci_type: self.cci_type@,
            status: self.status@,
            publish_date: self.publish_date@,
        }
    }
}

impl DeepView for CCIMapping {
    type V = CCIMappingView;

    open spec fn deep_view(&self) -> CCIMappingView {
        self.view()
    }
}

/// One finding (a "vulnerability" in the source domain); its natural key
/// is the finding number `vuln_num`.
#[derive(Debug, PartialEq, Eq)]
pub struct STIGVulnerability {
    pub vuln_num: String,
    pub severity: String,
    pub group_title: String,
    pub rule_id: String,
    pub rule_ver: String,
    pub rule_title: String,
    pub vuln_discuss: String,
    pub check_content: String,
    pub fix_text: String,
    pub cci_refs: Vec<String>,
    pub status: String,
    pub finding_details: String,
    pub comments: String,
    pub severity_override: Option<String>,
    pub severity_justification: Option<String>,
    pub stig_id: String,
}

/// Mathematical model of a [`STIGVulnerability`].
#[verifier::ext_equal]
pub struct STIGVulnerabilityView {
    pub vuln_num: Seq<char>,
    pub severity: Seq<char>,
    pub group_title: Seq<char>,
    pub rule_id: Seq<char>,
    pub rule_ver: Seq<char>,
    pub rule_title: Seq<char>,
    pub vuln_discuss: Seq<char>,
    pub check_content: Seq<char>,
    pub fix_text: Seq<char>,
    pub cci_refs: Seq<Seq<char>>,
    pub status: Seq<char>,
    pub finding_details: Seq<char>,
    pub comments: Seq<char>,
    pub severity_override: Option<Seq<char>>,
    pub severity_justification: Option<Seq<char>>,
    pub stig_id: Seq<char>,
}

impl View for STIGVulnerability {
    type V = STIGVulnerabilityView;

    open spec fn view(&self) -> STIGVulnerabilityView {
        STIGVulnerabilityView {
            vuln_num: self.vuln_num@,
            severity: self.severity@,
            group_title: self.group_title@,
            rule_id: self.rule_id@,
            rule_ver: self.rule_ver@,
            rule_title: self.rule_title@,
            vuln_discuss: self.vuln_discuss@,
            check_content: self.check_content@,
            fix_text: self.fix_text@,
            cci_refs: self.cci_refs.deep_view(),
            status: self.status@,
            finding_details: self.finding_details@,
            comments: self.comments@,
            severity_override: self.severity_override.deep_view(),
            severity_justification: self.severity_justification.deep_view(),
            stig_id: self.stig_id@,
        }
    }
}

impl DeepView for STIGVulnerability {
    type V = STIGVulnerabilityView;

    open spec fn deep_view(&self) -> STIGVulnerabilityView {
        self.view()
    }
}

impl Clone for STIGVulnerability {
    /// Clones every field; the copy has the same model as the original.
    fn clone(&self) -> (res: Self)
        ensures
            res@ == self@,
    {
        let res = STIGVulnerability {
            vuln_num: self.vuln_num.clone(),
            severity: self.severity.clone(),
            group_title: self.group_title.clone(),
            rule_id: self.rule_id.clone(),
            rule_ver: self.rule_ver.clone(),
            rule_title: self.rule_title.clone(),
            vuln_discuss: self.vuln_discuss.clone(),
            check_content: self.check_content.clone(),
            fix_text: self.fix_text.clone(),
            cci_refs: self.cci_refs.clone(),
            status: self.status.clone(),
            finding_details: self.finding_details.clone(),
            comments: self.comments.clone(),
            severity_override: match &self.severity_override {
                Some(s) => Some(s.clone()),
                None => None,
            },
            severity_justification: match &self.severity_justification {
                Some(s) => Some(s.clone()),
                None => None,
            },
            stig_id: self.stig_id.clone(),
        };
        proof {
            assert(res.cci_refs.deep_view() =~= self.cci_refs.deep_view());
            assert(res@ =~= self@);
        }
        res
    }
}

/// Descriptive fields for the scanned target asset.
#[derive(Debug, PartialEq, Eq)]
pub struct AssetInfo {
    pub role: String,
    pub asset_type: String,
    pub marking: String,
    pub host_name: String,
    pub host_ip: String,
    pub host_mac: String,
    pub host_fqdn: String,
    pub target_comment: String,
    pub tech_area: String,
    pub target_key: String,
    pub web_or_database: bool,
    pub web_db_site: String,
    pub web_db_instance: String,
}

/// Mathematical model of an [`AssetInfo`].
#[verifier::ext_equal]
pub struct AssetInfoView {
    pub role: Seq<char>,
    pub asset_type: Seq<char>,
    pub marking: Seq<char>,
    pub host_name: Seq<char>,
    pub host_ip: Seq<char>,
    pub host_mac: Seq<char>,
    pub host_fqdn: Seq<char>,
    pub target_comment: Seq<char>,
    pub tech_area: Seq<char>,
    pub target_key: Seq<char>,
    pub web_or_database: bool,
    pub web_db_site: Seq<char>,
    pub web_db_instance: Seq<char>,
}

impl View for AssetInfo {
    type V = AssetInfoView;

    open spec fn view(&self) -> AssetInfoView {
        AssetInfoView {
            role: self.role@,
            asset_type: self.asset_type@,
            marking: self.marking@,
            host_name: self.host_name@,
            host_ip: self.host_ip@,
            host_mac: self.host_mac@,
            host_fqdn: self.host_fqdn@,
            target_comment: self.target_comment@,
            tech_area: self.tech_area@,
            target_key: self.target_key@,
            web_or_database: self.web_or_database,
            web_db_site: self.web_db_site@,
            web_db_instance: self.web_db_instance@,
        }
    }
}

impl DeepView for AssetInfo {
    type V = AssetInfoView;

    open spec fn deep_view(&self) -> AssetInfoView {
        self.view()
    }
}

/// Benchmark identity carried by a checklist document.
#[derive(Debug, PartialEq, Eq)]
pub struct STIGInfo {
    pub version: String,
    pub classification: String,
    pub custom_name: String,
    pub stig_id: String,
    pub description: String,
    pub file_name: String,
    pub release_info: String,
    pub title: String,
    pub uuid: String,
    pub notice: String,
    pub source: String,
}

/// Mathematical model of a [`STIGInfo`].
#[verifier::ext_equal]
pub struct STIGInfoView {
    pub version: Seq<char>,
    pub classification: Seq<char>,
    pub custom_name: Seq<char>,
    pub stig_id: Seq<char>,
    pub description: Seq<char>,
    pub file_name: Seq<char>,
    pub release_info: Seq<char>,
    pub title: Seq<char>,
    pub uuid: Seq<char>,
    pub notice: Seq<char>,
    pub source: Seq<char>,
}

impl View for STIGInfo {
    type V = STIGInfoView;

    open spec fn view(&self) -> STIGInfoView {
        STIGInfoView {
            version: self.version@,
            classification: self.classification@,
            custom_name: self.custom_name@,
            stig_id: self.stig_id@,
            description: self.description@,
            file_name: self.file_name@,
            release_info: self.release_info@,
            title: self.title@,
            uuid: self.uuid@,
            notice: self.notice@,
            source: self.source@,
        }
    }
}

impl DeepView for STIGInfo {
    type V = STIGInfoView;

    open spec fn deep_view(&self) -> STIGInfoView {
        self.view()
    }
}

/// Aggregate root of one checklist document: asset metadata, benchmark
/// metadata, and the ordered list of findings.
#[derive(Debug, PartialEq, Eq)]
pub struct STIGChecklist {
    pub asset: AssetInfo,
    pub stig_info: STIGInfo,
    pub vulnerabilities: Vec<STIGVulnerability>,
}

/// Mathematical model of a [`STIGChecklist`].
#[verifier::ext_equal]
pub struct STIGChecklistView {
    pub asset: AssetInfoView,
    pub stig_info: STIGInfoView,
    pub vulnerabilities: Seq<STIGVulnerabilityView>,
}

impl View for STIGChecklist {
    type V = STIGChecklistView;

    open spec fn view(&self) -> STIGChecklistView {
        STIGChecklistView {
            asset: self.asset@,
            stig_info: self.stig_info@,
            vulnerabilities: self.vulnerabilities.deep_view(),
        }
    }
}

impl DeepView for STIGChecklist {
    type V = STIGChecklistView;

    open spec fn deep_view(&self) -> STIGChecklistView {
        self.view()
    }
}

/// One derived mapping: a NIST control, the correlation identifiers that
/// reach it, the findings that reference those identifiers, and the
/// control's compliance and risk verdicts.
#[derive(Debug, PartialEq, Eq)]
pub struct MappedControl {
    pub nist_control: String,
    pub ccis: Vec<String>,
    pub stigs: Vec<STIGVulnerability>,
    pub compliance_status: String,
    pub risk_level: String,
}

/// Mathematical model of a [`MappedControl`].
#[verifier::ext_equal]
pub struct MappedControlView {
    pub nist_control: Seq<char>,
    pub ccis: Seq<Seq<char>>,
    pub stigs: Seq<STIGVulnerabilityView>,
    pub compliance_status: Seq<char>,
    pub risk_level: Seq<char>,
}

impl View for MappedControl {
    type V = MappedControlView;

    open spec fn view(&self) -> MappedControlView {
        MappedControlView {
            nist_control: self.nist_control@,
            ccis: self.ccis.deep_view(),
            stigs: self.stigs.deep_view(),
            compliance_status: self.compliance_status@,
            risk_level: self.risk_level@,
        }
    }
}

impl DeepView for MappedControl {
    type V = MappedControlView;

    open spec fn deep_view(&self) -> MappedControlView {
        self.view()
    }
}

/// Count-based statistics over a mapping.
#[derive(Debug, Clone, Copy, PartialEq, Eq, Structural)]
pub struct MappingSummary {
    pub total_controls: usize,
    pub compliant_controls: usize,
    pub non_compliant_controls: usize,
    pub not_applicable_controls: usize,
    pub not_reviewed_controls: usize,
    pub high_risk_findings: usize,
    pub medium_risk_findings: usize,
    pub low_risk_findings: usize,
}

/// The persisted aggregate: the checklist, the catalog records used, the
/// derived control mappings, and the summary statistics.
#[derive(Debug, PartialEq, Eq)]
pub struct STIGMappingResult {
    pub checklist: STIGChecklist,
    pub cci_mappings: Vec<CCIMapping>,
    pub mapped_controls: Vec<MappedControl>,
    pub summary: MappingSummary,
}

/// Mathematical model of a [`STIGMappingResult`].
#[verifier::ext_equal]
pub struct STIGMappingResultView {
    pub checklist: STIGChecklistView,
    pub cci_mappings: Seq<CCIMappingView>,
    pub mapped_controls: Seq<MappedControlView>,
    pub summary: MappingSummary,
}

impl View for STIGMappingResult {
    type V = STIGMappingResultView;

    open spec fn view(&self) -> STIGMappingResultView {
        STIGMappingResultView {
            checklist: self.checklist@,
            cci_mappings: self.cci_mappings.deep_view(),
            mapped_controls: self.mapped_controls.deep_view(),
            summary: self.summary,
        }
    }
}

impl DeepView for STIGMappingResult {
    type V = STIGMappingResultView;

    open spec fn deep_view(&self) -> STIGMappingResultView {
        self.view()
    }
}

} // verus!
