//! Tests of entity escaping, date normalization and the stored-record
//! conversions.

use stig_mapper::escape_xml;
use stig_mapper::model::{MappedControl, MappingSummary, STIGVulnerability};
use stig_mapper::models::{persisted_mapped_control, persisted_summary};
use stig_mapper::normalize_date_format;
use stig_mapper::parse_date_slashes;

#[test]
fn escape_replaces_the_five_special_characters() {
    assert_eq!(escape_xml("a<b&c>\"d'"), "a&lt;b&amp;c&gt;&quot;d&apos;");
}

#[test]
fn escape_leaves_plain_text_alone() {
    assert_eq!(escape_xml("plain text 123"), "plain text 123");
    assert_eq!(escape_xml(""), "");
}

#[test]
fn iso_dates_pass_through() {
    assert_eq!(normalize_date_format("2024-01-02"), "2024-01-02");
    assert_eq!(normalize_date_format("2024-01-02 extra"), "2024-01-02");
}

#[test]
fn month_first_dates_normalize() {
    assert_eq!(normalize_date_format("1/2/2024"), "2024-01-02");
    assert_eq!(normalize_date_format("12/31/2023"), "2023-12-31");
}

#[test]
fn day_first_dates_normalize() {
    assert_eq!(normalize_date_format("25/12/2023"), "2023-12-25");
}

#[test]
fn timestamps_keep_their_date_part() {
    assert_eq!(normalize_date_format("2024-03-04T05:06:07Z"), "2024-03-04");
}

#[test]
fn unrecognized_dates_are_returned_unchanged() {
    assert_eq!(normalize_date_format("not a date"), "not a date");
    assert_eq!(normalize_date_format("13/13/2020"), "13/13/2020");
    assert_eq!(normalize_date_format("1/2"), "1/2");
}

#[test]
fn date_parts_split_on_slashes_or_dashes() {
    assert_eq!(
        parse_date_slashes("1/2/2024"),
        Some(vec!["1".to_string(), "2".to_string(), "2024".to_string()])
    );
    assert_eq!(
        parse_date_slashes("5-6-1999"),
        Some(vec!["5".to_string(), "6".to_string(), "1999".to_string()])
    );
    assert_eq!(parse_date_slashes("1/2"), None);
    assert_eq!(parse_date_slashes("plain"), None);
}

fn finding(num: &str) -> STIGVulnerability {
    STIGVulnerability {
        vuln_num: num.to_string(),
        severity: "low".to_string(),
        group_title: String::new(),
        rule_id: String::new(),
        rule_ver: String::new(),
        rule_title: String::new(),
        vuln_discuss: String::new(),
        check_content: String::new(),
        fix_text: String::new(),
        cci_refs: Vec::new(),
        status: "Open".to_string(),
        finding_details: String::new(),
        comments: String::new(),
        severity_override: None,
        severity_justification: None,
        stig_id: String::new(),
    }
}

#[test]
fn stored_control_counts_its_findings() {
    let c = MappedControl {
        nist_control: "AC-2".to_string(),
        ccis: vec!["CCI-000001".to_string()],
        stigs: vec![finding("V-1"), finding("V-2")],
        compliance_status: "non-compliant".to_string(),
        risk_level: "high".to_string(),
    };
    let stored = persisted_mapped_control(c);
    assert_eq!(stored.findings_count, 2);
    assert_eq!(stored.nist_control, "AC-2");
    assert_eq!(stored.stigs.len(), 2);
}

#[test]
fn stored_summary_carries_the_counts() {
    let s = MappingSummary {
        total_controls: 3,
        compliant_controls: 1,
        non_compliant_controls: 2,
        not_applicable_controls: 0,
        not_reviewed_controls: 0,
        high_risk_findings: 1,
        medium_risk_findings: 0,
        low_risk_findings: 1,
    };
    let stored = persisted_summary(&s);
    assert_eq!(stored.total_controls, 3);
    assert_eq!(stored.non_compliant_controls, 2);
    assert_eq!(stored.low_risk_findings, 1);
}
