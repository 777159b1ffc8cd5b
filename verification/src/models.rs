//! Data records exchanged with the surrounding system: plans of action,
//! notes, systems, groups, baseline controls, and the stored variants of
//! the mapping structures.  The engine treats them as plain values; the
//! surrounding system persists them and carries them across its
//! boundaries.

use vstd::prelude::*;


verus! {

/// A plan-of-action collection as the surrounding system exports it.
#[derive(Debug)]
pub struct POAMData {
    pub poams: Vec<POAM>,
    pub notes: Vec<Note>,
    pub stig_mappings: Option<Vec<STIGMappingData>>,
}

/// One plan of action and milestones.
#[derive(Debug, Clone)]
pub struct POAM {
    pub id: i64,
    pub title: String,
    pub description: String,
    pub start_date: String,
    pub end_date: String,
    pub status: String,
    pub priority: String,
    pub risk_level: String,
    pub milestones: Vec<Milestone>,
    pub resources: Option<String>,
    pub source_identifying_vulnerability: Option<String>,
    pub raw_severity: Option<String>,
    pub severity: Option<String>,
    pub relevance_of_threat: Option<String>,
    pub likelihood: Option<String>,
    pub impact: Option<String>,
    pub residual_risk: Option<String>,
    pub mitigations: Option<String>,
    pub devices_affected: Option<String>,
    pub source_stig_mapping_id: Option<String>,
    pub selected_vulnerabilities: Option<Vec<String>>,
}

/// One milestone of a plan of action.
#[derive(Debug, Clone)]
pub struct Milestone {
    pub id: String,
    pub title: String,
    pub due_date: String,
    pub status: String,
    pub description: String,
}

/// One free-form note.
#[derive(Debug, Clone)]
pub struct Note {
    pub id: String,
    pub title: String,
    pub content: String,
    pub date: String,
    pub poam_ids: Option<Vec<i64>>,
    pub poam_titles: Option<Vec<String>>,
    pub folder: Option<String>,
    pub tags: Option<Vec<String>>,
}

/// The association of a note with a plan of action.
#[derive(Debug, Clone)]
pub struct NotePOAMAssociation {
    pub note_id: String,
    pub poam_id: i64,
}

/// A stored mapping: the engine's result together with bookkeeping
/// fields the surrounding system maintains.
#[derive(Debug, Clone)]
pub struct STIGMappingData {
    pub id: String,
    pub name: String,
    pub description: Option<String>,
    pub created_date: String,
    pub updated_date: String,
    pub stig_info: STIGInfo,
    pub asset_info: AssetInfo,
    pub mapping_result: STIGMappingResult,
    pub cci_mappings: Option<Vec<CCIMapping>>,
}

/// The stored shape of one correlation record.
#[derive(Debug, Clone)]
pub struct CCIMapping {
    pub cci_id: String,
    pub control_number: String,
    pub definition: String,
    pub enhancement: Option<String>,
    pub nist_control: String,
}

/// The stored shape of benchmark metadata.
#[derive(Debug, Clone)]
pub struct STIGInfo {
    pub title: String,
    pub version: String,
    pub release_info: String,
    pub classification: String,
    pub description: Option<String>,
}

/// The stored shape of asset metadata.
#[derive(Debug, Clone)]
pub struct AssetInfo {
    pub asset_type: String,
    pub host_name: Option<String>,
    pub host_ip: Option<String>,
    pub host_mac: Option<String>,
    pub host_fqdn: Option<String>,
    pub target_comment: Option<String>,
}

/// The stored shape of a mapping result.
#[derive(Debug, Clone)]
pub struct STIGMappingResult {
    pub total_vulnerabilities: i32,
    pub mapped_controls: Vec<MappedControl>,
    pub summary: MappingSummary,
}

/// The stored shape of one derived control mapping; unlike the engine's
/// own, it carries an explicit findings count.
#[derive(Debug, Clone)]
pub struct MappedControl {
    pub nist_control: String,
    pub ccis: Vec<String>,
    pub stigs: Vec<crate::model::STIGVulnerability>,
    pub compliance_status: String,
    pub risk_level: String,
    pub findings_count: i32,
}

/// The stored shape of the summary counts.
#[derive(Debug, Clone, Copy, PartialEq, Eq, Structural)]
pub struct MappingSummary {
    pub total_controls: i32,
    pub compliant_controls: i32,
    pub non_compliant_controls: i32,
    pub not_applicable_controls: i32,
    pub not_reviewed_controls: i32,
    pub high_risk_findings: i32,
    pub medium_risk_findings: i32,
    pub low_risk_findings: i32,
}

/// One test case of a security test plan.
#[derive(Debug, Clone)]
pub struct TestCase {
    pub id: String,
    pub nist_control: String,
    pub cci_ref: String,
    pub stig_vuln_id: String,
    pub test_description: String,
    pub test_procedure: String,
    pub expected_result: String,
    pub actual_result: Option<String>,
    pub status: String,
    pub notes: Option<String>,
    pub evidence_files: Option<Vec<String>>,
    pub tested_by: Option<String>,
    pub tested_date: Option<String>,
    pub risk_rating: String,
}

/// A prepared selection of controls awaiting a test plan.
#[derive(Debug, Clone)]
pub struct StpPrepList {
    pub id: String,
    pub name: String,
    pub description: Option<String>,
    pub created_date: String,
    pub updated_date: String,
    pub source_mapping_id: Option<String>,
    pub stig_info: STIGInfo,
    pub asset_info: AssetInfo,
    pub prep_status: String,
    pub selected_controls: Vec<PrepControl>,
    pub control_count: i32,
}

/// One selected control of a prepared list.
#[derive(Debug, Clone)]
pub struct PrepControl {
    pub nist_control: String,
    pub ccis: Vec<String>,
    pub stigs: Vec<crate::model::STIGVulnerability>,
    pub compliance_status: String,
    pub risk_level: String,
    pub notes: Option<String>,
    pub selected_for_stp: bool,
}

/// The association of a control with a plan of action.
#[derive(Debug, Clone)]
pub struct ControlPOAMAssociation {
    pub id: String,
    pub control_id: String,
    pub poam_id: i64,
    pub association_date: String,
    pub created_by: Option<String>,
    pub notes: Option<String>,
}

/// One baseline control of a system.
#[derive(Debug, Clone)]
pub struct BaselineControl {
    pub id: String,
    pub family: String,
    pub title: String,
    pub implementation_status: String,
    pub date_added: String,
    pub responsible_party: String,
    pub notes: String,
    pub system_id: String,
}

/// One tracked system.
#[derive(Debug, Clone)]
pub struct System {
    pub id: String,
    pub name: String,
    pub description: Option<String>,
    pub created_date: String,
    pub updated_date: String,
    pub owner: Option<String>,
    pub classification: Option<String>,
    pub tags: Option<Vec<String>>,
    pub is_active: bool,
    pub poam_count: Option<i32>,
    pub last_accessed: Option<String>,
    pub group_id: Option<String>,
}

/// Count-based overview of one system.
#[derive(Debug, Clone)]
pub struct SystemSummary {
    pub id: String,
    pub name: String,
    pub description: Option<String>,
    pub owner: Option<String>,
    pub classification: Option<String>,
    pub tags: Option<Vec<String>>,
    pub poam_count: i32,
    pub notes_count: i32,
    pub stig_mappings_count: i32,
    pub test_plans_count: i32,
    pub last_accessed: Option<String>,
    pub created_date: String,
    pub group_id: Option<String>,
}

/// A group of systems.
#[derive(Debug, Clone)]
pub struct SystemGroup {
    pub id: String,
    pub name: String,
    pub description: Option<String>,
    pub color: Option<String>,
    pub created_date: String,
    pub updated_date: String,
    pub created_by: Option<String>,
    pub is_active: bool,
    pub system_count: Option<i32>,
}

/// The membership of a system in a group.
#[derive(Debug, Clone)]
pub struct GroupSystemAssociation {
    pub id: String,
    pub group_id: String,
    pub system_id: String,
    pub added_date: String,
    pub added_by: Option<String>,
    pub display_order: i32,
}

/// Count-based overview of one group.
#[derive(Debug, Clone)]
pub struct GroupSummary {
    pub id: String,
    pub name: String,
    pub description: Option<String>,
    pub color: Option<String>,
    pub system_count: i32,
    pub total_poam_count: i32,
    pub total_notes_count: i32,
    pub total_stig_mappings_count: i32,
    pub total_test_plans_count: i32,
    pub created_date: String,
    pub last_accessed: Option<String>,
    pub systems: Option<Vec<SystemSummary>>,
}

/// A plan of action spanning the systems of a group.
#[derive(Debug, Clone)]
pub struct GroupPOAM {
    pub id: i64,
    pub title: String,
    pub description: String,
    pub start_date: String,
    pub end_date: String,
    pub status: String,
    pub priority: String,
    pub risk_level: String,
    pub group_id: String,
    pub affected_systems: Vec<String>,
    pub milestones: Vec<Milestone>,
    pub resources: Option<String>,
    pub source_identifying_vulnerability: Option<String>,
    pub raw_severity: Option<String>,
    pub severity: Option<String>,
    pub relevance_of_threat: Option<String>,
    pub likelihood: Option<String>,
    pub impact: Option<String>,
    pub residual_risk: Option<String>,
    pub mitigations: Option<String>,
    pub devices_affected: Option<String>,
}

/// One baseline control tracked at group level.
#[derive(Debug, Clone)]
pub struct GroupBaselineControl {
    pub id: String,
    pub family: String,
    pub title: String,
    pub implementation_status: String,
    pub date_added: String,
    pub responsible_party: Option<String>,
    pub notes: Option<String>,
    pub group_id: String,
}

/// The association of a group-level control with a group plan of action.
#[derive(Debug, Clone)]
pub struct GroupControlPOAMAssociation {
    pub id: String,
    pub control_id: String,
    pub group_poam_id: i64,
    pub association_date: String,
    pub group_id: String,
    pub created_by: Option<String>,
    pub notes: Option<String>,
}

/// Per-system vulnerability counts of a group analysis.
#[derive(Debug)]
pub struct SystemVulnerabilitySummary {
    pub system_id: String,
    pub system_name: String,
    pub total_vulnerabilities: i32,
    pub critical_count: i32,
    pub high_count: i32,
    pub medium_count: i32,
    pub low_count: i32,
    pub unique_vulnerabilities: Vec<String>,
}

/// Errors of the surrounding system's application-lock handling.
#[derive(Debug, Clone, PartialEq, Eq)]
pub enum SecurityError {
    HashError(String),
    VerifyError(String),
    ReadError(String),
    WriteError(String),
    InvalidPassword,
    NotConfigured,
}

/// The stored form of one derived control mapping: the engine's entry
/// with its findings count made explicit as the number of findings it
/// holds.
pub fn persisted_mapped_control(c: crate::model::MappedControl) -> (r: MappedControl)
    requires
        c.stigs@.len() <= i32::MAX,
    ensures
        r.nist_control@ == c.nist_control@,
        r.ccis.deep_view() == c.ccis.deep_view(),
        r.stigs.deep_view() == c.stigs.deep_view(),
        r.compliance_status@ == c.compliance_status@,
        r.risk_level@ == c.risk_level@,
        r.findings_count == c.stigs@.len(),
{
    let findings_count = c.stigs.len() as i32;
    let crate::model::MappedControl { nist_control, ccis, stigs, compliance_status, risk_level } = c;
    MappedControl {
        nist_control,
        ccis,
        stigs,
        compliance_status,
        risk_level,
        findings_count,
    }
}

/// The stored form of the summary counts; each count is clamped to the
/// signed 32-bit range.
pub fn persisted_summary(s: &crate::model::MappingSummary) -> (r: MappingSummary)
    ensures
        r.total_controls == clamp_i32(s.total_controls),
        r.compliant_controls == clamp_i32(s.compliant_controls),
        r.non_compliant_controls == clamp_i32(s.non_compliant_controls),
        r.not_applicable_controls == clamp_i32(s.not_applicable_controls),
        r.not_reviewed_controls == clamp_i32(s.not_reviewed_controls),
        r.high_risk_findings == clamp_i32(s.high_risk_findings),
        r.medium_risk_findings == clamp_i32(s.medium_risk_findings),
        r.low_risk_findings == clamp_i32(s.low_risk_findings),
{
    MappingSummary {
        total_controls: clamp_i32_exec(s.total_controls),
        compliant_controls: clamp_i32_exec(s.compliant_controls),
        non_compliant_controls: clamp_i32_exec(s.non_compliant_controls),
        not_applicable_controls: clamp_i32_exec(s.not_applicable_controls),
        not_reviewed_controls: clamp_i32_exec(s.not_reviewed_controls),
        high_risk_findings: clamp_i32_exec(s.high_risk_findings),
        medium_risk_findings: clamp_i32_exec(s.medium_risk_findings),
        low_risk_findings: clamp_i32_exec(s.low_risk_findings),
    }
}

/// A count clamped to the signed 32-bit range.
pub open spec fn clamp_i32(n: usize) -> int {
    if n <= i32::MAX {
        n as int
    } else {
        i32::MAX as int
    }
}

/// Executable form of [`clamp_i32`].
fn clamp_i32_exec(n: usize) -> (r: i32)
    ensures
        r == clamp_i32(n),
{
    if n <= 0x7FFF_FFFF {
        n as i32
    } else {
        i32::MAX
    }
}

} // verus!
