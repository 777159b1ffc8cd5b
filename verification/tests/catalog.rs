//! Tests of the catalog parser: identifier attributes, cross-reference
//! filtering, derived titles, and leniency toward incomplete items.

use stig_mapper::parse_cci_list;
use stig_mapper::StigError;

fn sample_catalog() -> String {
    let mut s = String::new();
    s.push_str("<?xml version=\"1.0\" encoding=\"UTF-8\"?>\n");
    s.push_str("<cci_list>\n<cci_items>\n");
    s.push_str("<cci_item id=\"CCI-000001\">\n");
    s.push_str("<status>draft</status>\n");
    s.push_str("<publishdate>2009-05-13</publishdate>\n");
    s.push_str("<type>policy</type>\n");
    s.push_str(
        "<definition>The organization develops an access control policy. More text follows.</definition>\n",
    );
    s.push_str("<references>\n");
    s.push_str(
        "<reference creator=\"NIST\" title=\"NIST SP 800-53\" version=\"3\" index=\" AC-1 a \"/>\n",
    );
    s.push_str(
        "<reference creator=\"NIST\" title=\"NIST SP 800-53 Revision 4\" version=\"4\" index=\"AC-1 a 1\"/>\n",
    );
    s.push_str(
        "<reference creator=\"NIST\" title=\"NIST SP 800-53\" version=\"3\" index=\" AC-1 a \"/>\n",
    );
    s.push_str("<reference creator=\"DISA\" title=\"General Guidance\" index=\"G-1\"/>\n");
    s.push_str("<reference creator=\"NIST\" title=\"NIST SP 800-53\" version=\"3\" index=\"\"/>\n");
    s.push_str("</references>\n");
    s.push_str("</cci_item>\n");
    s.push_str("<cci_item>\n");
    s.push_str("<definition>An item without an identifier.</definition>\n");
    s.push_str("</cci_item>\n");
    s.push_str("</cci_items>\n</cci_list>\n");
    s
}

#[test]
fn one_record_per_item_with_identifier() {
    let records = parse_cci_list(&sample_catalog()).unwrap();
    assert_eq!(records.len(), 1);
    assert_eq!(records[0].id, "CCI-000001");
}

#[test]
fn cross_references_are_filtered_trimmed_and_deduplicated() {
    let records = parse_cci_list(&sample_catalog()).unwrap();
    assert_eq!(
        records[0].nist_controls,
        vec!["AC-1 a".to_string(), "AC-1 a 1".to_string()]
    );
}

#[test]
fn leaf_fields_are_trimmed_and_assigned() {
    let records = parse_cci_list(&sample_catalog()).unwrap();
    let r = &records[0];
    assert_eq!(r.status, "draft");
    assert_eq!(r.publish_date, "2009-05-13");
    assert_eq!(r.cci_type, "policy");
    assert_eq!(
        r.definition,
        "The organization develops an access control policy. More text follows."
    );
}

#[test]
fn title_is_the_leading_sentence() {
    let records = parse_cci_list(&sample_catalog()).unwrap();
    assert_eq!(records[0].title, "The organization develops an access control policy");
}

#[test]
fn title_truncates_to_one_hundred_characters_without_a_sentence() {
    let long: String = "x".repeat(150);
    let doc = format!(
        "<cci_list><cci_item id=\"CCI-000100\"><definition>{}</definition></cci_item></cci_list>",
        long
    );
    let records = parse_cci_list(&doc).unwrap();
    assert_eq!(records[0].definition.len(), 150);
    assert_eq!(records[0].title.len(), 100);
}

#[test]
fn open_form_cross_references_contribute_too() {
    let doc = "<cci_list><cci_item id=\"CCI-000200\"><references>\
               <reference title=\"NIST SP 800-53\" index=\"AC-2\"></reference>\
               <reference title=\"NIST SP 800-53\" index=\"AU-9\"/>\
               </references></cci_item></cci_list>";
    let records = parse_cci_list(doc).unwrap();
    assert_eq!(records.len(), 1);
    assert_eq!(records[0].nist_controls, vec!["AC-2".to_string(), "AU-9".to_string()]);
}

#[test]
fn malformed_catalog_reports_position() {
    let r = parse_cci_list("<cci_list><cci_item");
    assert!(matches!(r, Err(StigError::XmlParsing { position: 10 })));
}

#[test]
fn empty_catalog_yields_no_records() {
    let records = parse_cci_list("<cci_list></cci_list>").unwrap();
    assert!(records.is_empty());
}
