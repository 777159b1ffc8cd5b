//! End-to-end tests of the parsers, the merger, the aggregator, the
//! summary calculator and the serializer.

use stig_mapper::model::{AssetInfo, CCIMapping, STIGChecklist, STIGInfo, STIGVulnerability};
use stig_mapper::StigError;
use stig_mapper::{
    create_mapping_result, generate_ckl_xml, map_stig_to_nist_controls,
    parse_and_merge_stig_checklists, parse_cci_list, parse_stig_checklist,
};

fn sample_ckl() -> String {
    let mut s = String::new();
    s.push_str("<?xml version=\"1.0\" encoding=\"UTF-8\"?>\n");
    s.push_str("<!--DISA STIG Viewer :: 2.18-->\n");
    s.push_str("<CHECKLIST>\n<ASSET>\n");
    s.push_str("<ROLE>Member Server</ROLE>\n");
    s.push_str("<ASSET_TYPE>Computing</ASSET_TYPE>\n");
    s.push_str("<MARKING>CUI</MARKING>\n");
    s.push_str("<HOST_NAME>web01</HOST_NAME>\n");
    s.push_str("<HOST_IP>10.0.0.5</HOST_IP>\n");
    s.push_str("<HOST_MAC>00:11:22:33:44:55</HOST_MAC>\n");
    s.push_str("<HOST_FQDN>web01.example.mil</HOST_FQDN>\n");
    s.push_str("<TARGET_COMMENT>primary &amp; backup</TARGET_COMMENT>\n");
    s.push_str("<TECH_AREA></TECH_AREA>\n");
    s.push_str("<TARGET_KEY>4029</TARGET_KEY>\n");
    s.push_str("<WEB_OR_DATABASE>true</WEB_OR_DATABASE>\n");
    s.push_str("<WEB_DB_SITE>site1</WEB_DB_SITE>\n");
    s.push_str("<WEB_DB_INSTANCE>inst1</WEB_DB_INSTANCE>\n");
    s.push_str("</ASSET>\n<STIGS>\n<iSTIG>\n<STIG_INFO>\n");
    s.push_str("<SI_DATA><SID_NAME>version</SID_NAME><SID_DATA>2</SID_DATA></SI_DATA>\n");
    s.push_str(
        "<SI_DATA><SID_NAME>classification</SID_NAME><SID_DATA>UNCLASSIFIED</SID_DATA></SI_DATA>\n",
    );
    s.push_str("<SI_DATA><SID_NAME>customname</SID_NAME><SID_DATA></SID_DATA></SI_DATA>\n");
    s.push_str(
        "<SI_DATA><SID_NAME>stigid</SID_NAME><SID_DATA>MS_Windows_STIG</SID_DATA></SI_DATA>\n",
    );
    s.push_str(
        "<SI_DATA><SID_NAME>description</SID_NAME><SID_DATA>Windows guidance</SID_DATA></SI_DATA>\n",
    );
    s.push_str(
        "<SI_DATA><SID_NAME>filename</SID_NAME><SID_DATA>U_MS_Windows.xml</SID_DATA></SI_DATA>\n",
    );
    s.push_str(
        "<SI_DATA><SID_NAME>releaseinfo</SID_NAME><SID_DATA>Release: 2 Benchmark Date: 01 Jan 2024</SID_DATA></SI_DATA>\n",
    );
    s.push_str(
        "<SI_DATA><SID_NAME>title</SID_NAME><SID_DATA>Windows Server STIG</SID_DATA></SI_DATA>\n",
    );
    s.push_str(
        "<SI_DATA><SID_NAME>uuid</SID_NAME><SID_DATA>9d5b0c93-aaaa-bbbb-cccc-000000000001</SID_DATA></SI_DATA>\n",
    );
    s.push_str("<SI_DATA><SID_NAME>notice</SID_NAME><SID_DATA>terms-of-use</SID_DATA></SI_DATA>\n");
    s.push_str("<SI_DATA><SID_NAME>source</SID_NAME><SID_DATA>STIG.DOD.MIL</SID_DATA></SI_DATA>\n");
    s.push_str("</STIG_INFO>\n");
    s.push_str("<VULN>\n");
    s.push_str(
        "<STIG_DATA><VULN_ATTRIBUTE>Vuln_Num</VULN_ATTRIBUTE><ATTRIBUTE_DATA>V-1001</ATTRIBUTE_DATA></STIG_DATA>\n",
    );
    s.push_str(
        "<STIG_DATA><VULN_ATTRIBUTE>Severity</VULN_ATTRIBUTE><ATTRIBUTE_DATA>high</ATTRIBUTE_DATA></STIG_DATA>\n",
    );
    s.push_str(
        "<STIG_DATA><VULN_ATTRIBUTE>Group_Title</VULN_ATTRIBUTE><ATTRIBUTE_DATA>Password policy</ATTRIBUTE_DATA></STIG_DATA>\n",
    );
    s.push_str(
        "<STIG_DATA><VULN_ATTRIBUTE>Rule_ID</VULN_ATTRIBUTE><ATTRIBUTE_DATA>SV-1001r1_rule</ATTRIBUTE_DATA></STIG_DATA>\n",
    );
    s.push_str(
        "<STIG_DATA><VULN_ATTRIBUTE>Rule_Ver</VULN_ATTRIBUTE><ATTRIBUTE_DATA>WN-000001</ATTRIBUTE_DATA></STIG_DATA>\n",
    );
    s.push_str(
        "<STIG_DATA><VULN_ATTRIBUTE>Rule_Title</VULN_ATTRIBUTE><ATTRIBUTE_DATA>Passwords &amp; lockout &lt;must&gt; be set</ATTRIBUTE_DATA></STIG_DATA>\n",
    );
    s.push_str(
        "<STIG_DATA><VULN_ATTRIBUTE>Vuln_Discuss</VULN_ATTRIBUTE><ATTRIBUTE_DATA>Weak passwords risk compromise.</ATTRIBUTE_DATA></STIG_DATA>\n",
    );
    s.push_str(
        "<STIG_DATA><VULN_ATTRIBUTE>Check_Content</VULN_ATTRIBUTE><ATTRIBUTE_DATA>Check the policy.</ATTRIBUTE_DATA></STIG_DATA>\n",
    );
    s.push_str(
        "<STIG_DATA><VULN_ATTRIBUTE>Fix_Text</VULN_ATTRIBUTE><ATTRIBUTE_DATA>Fix the policy.</ATTRIBUTE_DATA></STIG_DATA>\n",
    );
    s.push_str(
        "<STIG_DATA><VULN_ATTRIBUTE>CCI_REF</VULN_ATTRIBUTE><ATTRIBUTE_DATA>CCI-000001</ATTRIBUTE_DATA></STIG_DATA>\n",
    );
    s.push_str(
        "<STIG_DATA><VULN_ATTRIBUTE>CCI_REF</VULN_ATTRIBUTE><ATTRIBUTE_DATA>CCI-000002</ATTRIBUTE_DATA></STIG_DATA>\n",
    );
    s.push_str("<STATUS>Open</STATUS>\n");
    s.push_str("<FINDING_DETAILS>details &quot;here&quot;</FINDING_DETAILS>\n");
    s.push_str("<COMMENTS>none</COMMENTS>\n");
    s.push_str("<SEVERITY_OVERRIDE></SEVERITY_OVERRIDE>\n");
    s.push_str("<SEVERITY_JUSTIFICATION></SEVERITY_JUSTIFICATION>\n");
    s.push_str("</VULN>\n");
    s.push_str("<VULN>\n");
    s.push_str(
        "<STIG_DATA><VULN_ATTRIBUTE>Vuln_Num</VULN_ATTRIBUTE><ATTRIBUTE_DATA>V-1002</ATTRIBUTE_DATA></STIG_DATA>\n",
    );
    s.push_str(
        "<STIG_DATA><VULN_ATTRIBUTE>Severity</VULN_ATTRIBUTE><ATTRIBUTE_DATA>low</ATTRIBUTE_DATA></STIG_DATA>\n",
    );
    s.push_str(
        "<STIG_DATA><VULN_ATTRIBUTE>Rule_Ver</VULN_ATTRIBUTE><ATTRIBUTE_DATA>WN-000002</ATTRIBUTE_DATA></STIG_DATA>\n",
    );
    s.push_str(
        "<STIG_DATA><VULN_ATTRIBUTE>CCI_REF</VULN_ATTRIBUTE><ATTRIBUTE_DATA>CCI-000001</ATTRIBUTE_DATA></STIG_DATA>\n",
    );
    s.push_str("<STATUS>NotAFinding</STATUS>\n");
    s.push_str("<FINDING_DETAILS></FINDING_DETAILS>\n");
    s.push_str("<COMMENTS></COMMENTS>\n");
    s.push_str("<SEVERITY_OVERRIDE>medium</SEVERITY_OVERRIDE>\n");
    s.push_str("<SEVERITY_JUSTIFICATION>downgraded</SEVERITY_JUSTIFICATION>\n");
    s.push_str("</VULN>\n");
    s.push_str("</iSTIG>\n</STIGS>\n</CHECKLIST>\n");
    s
}

#[test]
fn parses_asset_and_benchmark_metadata() {
    let c = parse_stig_checklist(&sample_ckl()).unwrap();
    assert_eq!(c.asset.role, "Member Server");
    assert_eq!(c.asset.host_name, "web01");
    assert_eq!(c.asset.target_comment, "primary & backup");
    assert_eq!(c.asset.tech_area, "");
    assert!(c.asset.web_or_database);
    assert_eq!(c.stig_info.version, "2");
    assert_eq!(c.stig_info.classification, "UNCLASSIFIED");
    assert_eq!(c.stig_info.custom_name, "");
    assert_eq!(c.stig_info.stig_id, "MS_Windows_STIG");
    assert_eq!(c.stig_info.title, "Windows Server STIG");
    assert_eq!(c.stig_info.source, "STIG.DOD.MIL");
}

#[test]
fn parses_findings_with_repeated_references() {
    let c = parse_stig_checklist(&sample_ckl()).unwrap();
    assert_eq!(c.vulnerabilities.len(), 2);
    let v1 = &c.vulnerabilities[0];
    assert_eq!(v1.vuln_num, "V-1001");
    assert_eq!(v1.severity, "high");
    assert_eq!(v1.rule_title, "Passwords & lockout <must> be set");
    assert_eq!(v1.cci_refs, vec!["CCI-000001".to_string(), "CCI-000002".to_string()]);
    assert_eq!(v1.status, "Open");
    assert_eq!(v1.finding_details, "details \"here\"");
    assert_eq!(v1.severity_override, None);
    assert_eq!(v1.stig_id, "WN-000001");
    let v2 = &c.vulnerabilities[1];
    assert_eq!(v2.status, "NotAFinding");
    assert_eq!(v2.severity_override, Some("medium".to_string()));
    assert_eq!(v2.severity_justification, Some("downgraded".to_string()));
}

#[test]
fn comments_and_foreign_sections_are_skipped() {
    let doc = "<CHECKLIST><!-- a comment with <tags> inside --><ASSET>\
               <ROLE>srv<!-- mid --></ROLE>\
               <HOST_NAME><![CDATA[ignored]]></HOST_NAME>\
               </ASSET></CHECKLIST>";
    let c = parse_stig_checklist(doc).unwrap();
    assert_eq!(c.asset.role, "srv");
    assert_eq!(c.asset.host_name, "");
}

#[test]
fn undecodable_text_contributes_nothing() {
    let doc = "<CHECKLIST><ASSET><ROLE>bad &unknown; entity</ROLE>\
               <HOST_NAME>good &amp; fine</HOST_NAME></ASSET></CHECKLIST>";
    let c = parse_stig_checklist(doc).unwrap();
    assert_eq!(c.asset.role, "");
    assert_eq!(c.asset.host_name, "good & fine");
}

#[test]
fn whitespace_only_content_reads_as_empty() {
    let doc = "<CHECKLIST><ASSET><ROLE>\n\t  \n</ROLE></ASSET></CHECKLIST>";
    let c = parse_stig_checklist(doc).unwrap();
    assert_eq!(c.asset.role, "");
}

#[test]
fn malformed_document_reports_position() {
    let r = parse_stig_checklist("<CHECKLIST><ASSET");
    match r {
        Err(StigError::XmlParsing { position }) => assert_eq!(position, 11),
        other => panic!("expected a parse error, got {:?}", other),
    }
}

#[test]
fn parse_positions_are_byte_offsets() {
    // the accented character occupies two bytes but one character
    let r = parse_stig_checklist("<R>é</R><x");
    match r {
        Err(StigError::XmlParsing { position }) => assert_eq!(position, 9),
        other => panic!("expected a parse error, got {:?}", other),
    }
}

#[test]
fn mismatched_end_tag_is_an_error() {
    let r = parse_stig_checklist("<CHECKLIST><ASSET></CHECKLIST></ASSET>");
    match r {
        Err(StigError::XmlParsing { position }) => assert_eq!(position, 18),
        other => panic!("expected a parse error, got {:?}", other),
    }
}

#[test]
fn unclosed_element_at_end_of_input_is_an_error() {
    let r = parse_stig_checklist("<CHECKLIST>");
    match r {
        Err(StigError::XmlParsing { position }) => assert_eq!(position, 11),
        other => panic!("expected a parse error, got {:?}", other),
    }
}

#[test]
fn character_references_decode() {
    let doc = "<CHECKLIST><ASSET><ROLE>A&#66;&#x43;</ROLE>\
               <HOST_NAME>x&#xD800;y</HOST_NAME></ASSET></CHECKLIST>";
    let c = parse_stig_checklist(doc).unwrap();
    assert_eq!(c.asset.role, "ABC");
    // a surrogate is no scalar: the run is undecodable and contributes nothing
    assert_eq!(c.asset.host_name, "");
}

#[test]
fn unicode_whitespace_is_trimmed_from_text() {
    let doc = "<CHECKLIST><ASSET><ROLE>\u{A0}srv\u{3000}</ROLE></ASSET></CHECKLIST>";
    let c = parse_stig_checklist(doc).unwrap();
    assert_eq!(c.asset.role, "srv");
}

#[test]
fn round_trip_preserves_parsed_checklist() {
    let c = parse_stig_checklist(&sample_ckl()).unwrap();
    let xml = generate_ckl_xml(&c).unwrap();
    let c2 = parse_stig_checklist(&xml).unwrap();
    assert_eq!(c, c2);
}

#[test]
fn serializer_emits_fixed_header() {
    let c = parse_stig_checklist(&sample_ckl()).unwrap();
    let xml = generate_ckl_xml(&c).unwrap();
    assert!(xml.starts_with(
        "<?xml version=\"1.0\" encoding=\"UTF-8\"?>\n<!--DISA STIG Viewer :: 2.18-->\n<CHECKLIST>\n"
    ));
    assert!(xml.contains("<VULN_ATTRIBUTE>STIGRef</VULN_ATTRIBUTE><ATTRIBUTE_DATA>") == false);
    assert!(xml.contains(
        "<VULN_ATTRIBUTE>STIGRef</VULN_ATTRIBUTE>\n\t\t\t\t\t<ATTRIBUTE_DATA>Windows Server STIG :: Release: 2 Benchmark Date: 01 Jan 2024</ATTRIBUTE_DATA>"
    ));
    assert!(xml.ends_with("</CHECKLIST>\n"));
}

fn cci(id: &str, controls: &[&str]) -> CCIMapping {
    CCIMapping {
        id: id.to_string(),
        title: String::new(),
        definition: String::new(),
        nist_controls: controls.iter().map(|c| c.to_string()).collect(),
        cci_type: String::new(),
        status: String::new(),
        publish_date: String::new(),
    }
}

fn finding(num: &str, status: &str, severity: &str, refs: &[&str]) -> STIGVulnerability {
    STIGVulnerability {
        vuln_num: num.to_string(),
        severity: severity.to_string(),
        group_title: String::new(),
        rule_id: String::new(),
        rule_ver: String::new(),
        rule_title: String::new(),
        vuln_discuss: String::new(),
        check_content: String::new(),
        fix_text: String::new(),
        cci_refs: refs.iter().map(|c| c.to_string()).collect(),
        status: status.to_string(),
        finding_details: String::new(),
        comments: String::new(),
        severity_override: None,
        severity_justification: None,
        stig_id: String::new(),
    }
}

fn empty_asset() -> AssetInfo {
    AssetInfo {
        role: String::new(),
        asset_type: String::new(),
        marking: String::new(),
        host_name: String::new(),
        host_ip: String::new(),
        host_mac: String::new(),
        host_fqdn: String::new(),
        target_comment: String::new(),
        tech_area: String::new(),
        target_key: String::new(),
        web_or_database: false,
        web_db_site: String::new(),
        web_db_instance: String::new(),
    }
}

fn empty_stig_info() -> STIGInfo {
    STIGInfo {
        version: String::new(),
        classification: String::new(),
        custom_name: String::new(),
        stig_id: String::new(),
        description: String::new(),
        file_name: String::new(),
        release_info: String::new(),
        title: String::new(),
        uuid: String::new(),
        notice: String::new(),
        source: String::new(),
    }
}

fn checklist_of(vulns: Vec<STIGVulnerability>) -> STIGChecklist {
    STIGChecklist { asset: empty_asset(), stig_info: empty_stig_info(), vulnerabilities: vulns }
}

#[test]
fn scenario_one_control_two_findings() {
    let catalog = vec![cci("CCI-000001", &["AC-2"])];
    let checklist = checklist_of(vec![
        finding("V-1", "Open", "high", &["CCI-000001"]),
        finding("V-2", "NotAFinding", "low", &["CCI-000001"]),
    ]);
    let result = create_mapping_result(checklist, catalog);
    assert_eq!(result.mapped_controls.len(), 1);
    let mc = &result.mapped_controls[0];
    assert_eq!(mc.nist_control, "AC-2");
    assert_eq!(mc.ccis, vec!["CCI-000001".to_string()]);
    assert_eq!(mc.stigs.len(), 2);
    assert_eq!(mc.stigs[0].vuln_num, "V-1");
    assert_eq!(mc.stigs[1].vuln_num, "V-2");
    assert_eq!(mc.compliance_status, "non-compliant");
    assert_eq!(mc.risk_level, "high");
    let s = &result.summary;
    assert_eq!(s.total_controls, 1);
    assert_eq!(s.non_compliant_controls, 1);
    assert_eq!(s.compliant_controls, 0);
    assert_eq!(s.not_applicable_controls, 0);
    assert_eq!(s.not_reviewed_controls, 0);
    assert_eq!(s.high_risk_findings, 1);
    assert_eq!(s.medium_risk_findings, 0);
    assert_eq!(s.low_risk_findings, 0);
}

#[test]
fn aggregation_is_order_independent() {
    let catalog = vec![
        cci("CCI-000001", &["AC-2", "AC-3"]),
        cci("CCI-000002", &["AU-9"]),
    ];
    let forward = checklist_of(vec![
        finding("V-1", "Open", "medium", &["CCI-000001"]),
        finding("V-2", "NotApplicable", "high", &["CCI-000001", "CCI-000002"]),
        finding("V-3", "NotAFinding", "low", &["CCI-000002"]),
    ]);
    let backward = checklist_of(vec![
        finding("V-3", "NotAFinding", "low", &["CCI-000002"]),
        finding("V-2", "NotApplicable", "high", &["CCI-000001", "CCI-000002"]),
        finding("V-1", "Open", "medium", &["CCI-000001"]),
    ]);
    let a = map_stig_to_nist_controls(&forward, &catalog);
    let b = map_stig_to_nist_controls(&backward, &catalog);
    assert_eq!(a.len(), b.len());
    for (x, y) in a.iter().zip(b.iter()) {
        assert_eq!(x.nist_control, y.nist_control);
        assert_eq!(x.compliance_status, y.compliance_status);
        assert_eq!(x.risk_level, y.risk_level);
        let mut cx = x.ccis.clone();
        let mut cy = y.ccis.clone();
        cx.sort();
        cy.sort();
        assert_eq!(cx, cy);
        let mut nx: Vec<String> = x.stigs.iter().map(|s| s.vuln_num.clone()).collect();
        let mut ny: Vec<String> = y.stigs.iter().map(|s| s.vuln_num.clone()).collect();
        nx.sort();
        ny.sort();
        assert_eq!(nx, ny);
    }
}

#[test]
fn aggregation_output_is_sorted_by_control() {
    let catalog = vec![
        cci("CCI-000010", &["SC-7"]),
        cci("CCI-000011", &["AC-2"]),
        cci("CCI-000012", &["AU-9"]),
    ];
    let checklist = checklist_of(vec![finding(
        "V-1",
        "Open",
        "low",
        &["CCI-000010", "CCI-000011", "CCI-000012"],
    )]);
    let controls = map_stig_to_nist_controls(&checklist, &catalog);
    let names: Vec<&str> = controls.iter().map(|c| c.nist_control.as_str()).collect();
    assert_eq!(names, vec!["AC-2", "AU-9", "SC-7"]);
}

#[test]
fn duplicate_references_yield_one_identifier() {
    let catalog = vec![cci("CCI-000001", &["AC-2"])];
    let checklist = checklist_of(vec![finding(
        "V-1",
        "Open",
        "low",
        &["CCI-000001", "CCI-000001", "CCI-000001"],
    )]);
    let controls = map_stig_to_nist_controls(&checklist, &catalog);
    assert_eq!(controls.len(), 1);
    assert_eq!(controls[0].ccis, vec!["CCI-000001".to_string()]);
}

#[test]
fn findings_deduplicate_by_number_but_both_statuses_count() {
    let catalog = vec![cci("CCI-000001", &["AC-2"])];
    let checklist = checklist_of(vec![
        finding("V-1", "NotAFinding", "low", &["CCI-000001"]),
        finding("V-1", "Open", "low", &["CCI-000001"]),
    ]);
    let controls = map_stig_to_nist_controls(&checklist, &catalog);
    assert_eq!(controls.len(), 1);
    assert_eq!(controls[0].stigs.len(), 1);
    assert_eq!(controls[0].compliance_status, "non-compliant");
}

#[test]
fn risk_counts_severity_of_closed_findings() {
    let catalog = vec![cci("CCI-000001", &["AC-2"])];
    let checklist = checklist_of(vec![
        finding("V-1", "NotAFinding", "HIGH", &["CCI-000001"]),
        finding("V-2", "NotApplicable", "low", &["CCI-000001"]),
    ]);
    let controls = map_stig_to_nist_controls(&checklist, &catalog);
    assert_eq!(controls[0].compliance_status, "compliant");
    assert_eq!(controls[0].risk_level, "high");
}

#[test]
fn unmatched_references_produce_no_controls() {
    let catalog = vec![cci("CCI-000009", &["AC-2"])];
    let checklist = checklist_of(vec![finding("V-1", "Open", "high", &["CCI-000001"])]);
    let controls = map_stig_to_nist_controls(&checklist, &catalog);
    assert!(controls.is_empty());
}

#[test]
fn later_catalog_records_win_for_a_repeated_identifier() {
    let catalog = vec![cci("CCI-000001", &["AC-2"]), cci("CCI-000001", &["AU-9"])];
    let checklist = checklist_of(vec![finding("V-1", "Open", "high", &["CCI-000001"])]);
    let controls = map_stig_to_nist_controls(&checklist, &catalog);
    assert_eq!(controls.len(), 1);
    assert_eq!(controls[0].nist_control, "AU-9");
}

#[test]
fn merger_rejects_empty_input() {
    let r = parse_and_merge_stig_checklists(&Vec::new());
    assert_eq!(r, Err(StigError::InvalidFormat));
}

#[test]
fn merger_keeps_first_metadata_and_concatenates_findings() {
    let doc1 = sample_ckl();
    let doc2 = sample_ckl().replace("web01", "db02").replace("V-1001", "V-2001");
    let merged = parse_and_merge_stig_checklists(&vec![doc1.clone(), doc2]).unwrap();
    assert_eq!(merged.asset.host_name, "web01");
    assert_eq!(merged.vulnerabilities.len(), 4);
    assert_eq!(merged.vulnerabilities[0].vuln_num, "V-1001");
    assert_eq!(merged.vulnerabilities[2].vuln_num, "V-2001");
}

#[test]
fn merger_skips_later_unparseable_documents() {
    let merged =
        parse_and_merge_stig_checklists(&vec![sample_ckl(), "<broken".to_string()]).unwrap();
    assert_eq!(merged.asset.host_name, "web01");
    assert_eq!(merged.vulnerabilities.len(), 2);
}

#[test]
fn merger_fails_when_first_document_is_malformed() {
    let r = parse_and_merge_stig_checklists(&vec!["<broken".to_string(), sample_ckl()]);
    assert!(matches!(r, Err(StigError::XmlParsing { .. })));
}
