//! A verified engine for DISA checklist and CCI-catalog documents.
//!
//! The library parses a security benchmark checklist (per-host findings
//! against a technical control baseline) and a Control Correlation
//! Identifier catalog, derives a traceability mapping from findings to
//! NIST SP 800-53 controls with per-control compliance and risk verdicts,
//! reduces the mapping to count-based statistics, and re-emits a checklist
//! structure in the original wire format.
//!
//! All components — catalog parser, checklist parser, merger, aggregator
//! with summary calculator, and serializer — are pure, synchronous
//! transformations over already-loaded text.  Reading files and persisting
//! results belong to the surrounding system.

pub mod aggregate;
pub mod catalog;
pub mod checklist;
pub mod dates;
pub mod escape;
pub mod merge;
pub mod model;
pub mod models;
pub mod serialize;
pub mod strutil;
pub mod summary;
pub mod xml;

pub use aggregate::map_stig_to_nist_controls;
pub use catalog::parse_cci_list;
pub use checklist::parse_stig_checklist;
pub use dates::normalize_date_format;
pub use dates::parse_date_slashes;
pub use escape::escape_xml;
pub use merge::parse_and_merge_stig_checklists;

pub use model::AssetInfo;
pub use model::CCIMapping;
pub use model::MappedControl;
pub use model::MappingSummary;
pub use model::STIGChecklist;
pub use model::STIGInfo;
pub use model::STIGMappingResult;
pub use model::STIGVulnerability;
pub use model::StigError;
pub use serialize::add_stig_data;
pub use serialize::generate_ckl_xml;
pub use summary::create_mapping_result;
