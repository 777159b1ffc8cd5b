//! The summary calculator: reduces the derived control mappings and the
//! raw finding list to count-based statistics, and assembles the
//! persisted aggregate.

use vstd::prelude::*;
use crate::aggregate::ccis_for;
use crate::aggregate::compliance_of;
use crate::aggregate::control_present;
use crate::aggregate::map_stig_to_nist_controls;
use crate::aggregate::risk_of;
use crate::aggregate::stigs_for;
use crate::model::CCIMapping;
use crate::model::MappedControl;
use crate::model::MappedControlView;
use crate::model::MappingSummary;
use crate::model::STIGChecklist;
use crate::model::STIGMappingResult;
use crate::model::STIGVulnerabilityView;
use crate::strutil::lower_string;
use crate::strutil::spec_lower;
use crate::strutil::spec_str_lt;
use crate::strutil::str_eq;

verus! {

/// How many controls carry the given compliance verdict.
pub open spec fn count_status(cs: Seq<MappedControlView>, st: Seq<char>) -> int
    decreases cs.len(),
{
    if cs.len() == 0 {
        0
    } else {
        count_status(cs.drop_last(), st) + if cs.last().compliance_status == st {
            1int
        } else {
            0int
        }
    }
}

/// How many findings are open and of the given severity,
/// case-insensitively.
pub open spec fn count_open_sev(vulns: Seq<STIGVulnerabilityView>, sv: Seq<char>) -> int
    decreases vulns.len(),
{
    if vulns.len() == 0 {
        0
    } else {
        count_open_sev(vulns.drop_last(), sv) + if spec_lower(vulns.last().severity) == sv
            && vulns.last().status == "Open"@ {
            1int
        } else {
            0int
        }
    }
}

/// Counts the controls carrying the given compliance verdict.
fn count_status_exec(cs: &Vec<MappedControl>, st: &str) -> (r: usize)
    ensures
        r == count_status(cs.deep_view(), st@),
{
    let ghost d = cs.deep_view();
    let mut cnt: usize = 0;
    let mut i: usize = 0;
    proof {
        assert(d.take(0) =~= Seq::<MappedControlView>::empty());
    }
    while i < cs.len()
        invariant
            0 <= i <= cs@.len(),
            d == cs.deep_view(),
            d.len() == cs@.len(),
            cnt == count_status(d.take(i as int), st@),
            cnt <= i,
        decreases cs@.len() - i,
    {
        proof {
            assert(d.take(i as int + 1).drop_last() =~= d.take(i as int));
            assert(d.take(i as int + 1).last() == d[i as int]);
            assert(d[i as int] == cs@[i as int]@);
        }
        if str_eq(cs[i].compliance_status.as_str(), st) {
            cnt += 1;
        }
        i += 1;
    }
    proof {
        assert(d.take(cs@.len() as int) =~= d);
    }
    cnt
}

/// Counts the open findings of the given severity.
fn count_open_sev_exec(vulns: &Vec<crate::model::STIGVulnerability>, sv: &str) -> (r: usize)
    ensures
        r == count_open_sev(vulns.deep_view(), sv@),
{
    let ghost d = vulns.deep_view();
    let mut cnt: usize = 0;
    let mut i: usize = 0;
    proof {
        assert(d.take(0) =~= Seq::<STIGVulnerabilityView>::empty());
    }
    while i < vulns.len()
        invariant
            0 <= i <= vulns@.len(),
            d == vulns.deep_view(),
            d.len() == vulns@.len(),
            cnt == count_open_sev(d.take(i as int), sv@),
            cnt <= i,
        decreases vulns@.len() - i,
    {
        proof {
            assert(d.take(i as int + 1).drop_last() =~= d.take(i as int));
            assert(d.take(i as int + 1).last() == d[i as int]);
            assert(d[i as int] == vulns@[i as int]@);
        }
        let sev = lower_string(&vulns[i].severity);
        if str_eq(sev.as_str(), sv) && str_eq(vulns[i].status.as_str(), "Open") {
            cnt += 1;
        }
        i += 1;
    }
    proof {
        assert(d.take(vulns@.len() as int) =~= d);
    }
    cnt
}

/// Derives the control mappings and reduces them to the persisted
/// aggregate: the checklist, the catalog records used, the mappings, and
/// the summary counts.
pub fn create_mapping_result(checklist: STIGChecklist, cci_mappings: Vec<CCIMapping>) -> (r:
    STIGMappingResult)
    ensures
        r@.checklist == checklist@,
        r@.cci_mappings == cci_mappings.deep_view(),
        // the mappings: one entry per reached control, sorted strictly ascending
        forall|a: int, b: int|
            0 <= a < b < r@.mapped_controls.len() ==> spec_str_lt(
                (#[trigger] r@.mapped_controls[a]).nist_control,
                (#[trigger] r@.mapped_controls[b]).nist_control,
            ),
        forall|i: int|
            0 <= i < r@.mapped_controls.len() ==> control_present(
                checklist@.vulnerabilities,
                cci_mappings.deep_view(),
                (#[trigger] r@.mapped_controls[i]).nist_control,
            ),
        forall|k: Seq<char>|
            control_present(checklist@.vulnerabilities, cci_mappings.deep_view(), k)
                ==> exists|i: int|
                0 <= i < r@.mapped_controls.len() && (#[trigger] r@.mapped_controls[i]).nist_control
                    == k,
        forall|i: int|
            0 <= i < r@.mapped_controls.len() ==> {
                let e = #[trigger] r@.mapped_controls[i];
                &&& e.compliance_status == compliance_of(
                    checklist@.vulnerabilities,
                    cci_mappings.deep_view(),
                    e.nist_control,
                )
                &&& e.risk_level == risk_of(
                    checklist@.vulnerabilities,
                    cci_mappings.deep_view(),
                    e.nist_control,
                )
                &&& e.ccis == ccis_for(
                    checklist@.vulnerabilities,
                    cci_mappings.deep_view(),
                    e.nist_control,
                )
                &&& e.stigs == stigs_for(
                    checklist@.vulnerabilities,
                    cci_mappings.deep_view(),
                    e.nist_control,
                )
            },
        // the summary counts
        r@.summary.total_controls == r@.mapped_controls.len(),
        r@.summary.compliant_controls == count_status(r@.mapped_controls, "compliant"@),
        r@.summary.non_compliant_controls == count_status(r@.mapped_controls, "non-compliant"@),
        r@.summary.not_applicable_controls == count_status(r@.mapped_controls, "not-applicable"@),
        r@.summary.not_reviewed_controls == count_status(r@.mapped_controls, "not-reviewed"@),
        r@.summary.high_risk_findings == count_open_sev(checklist@.vulnerabilities, "high"@),
        r@.summary.medium_risk_findings == count_open_sev(checklist@.vulnerabilities, "medium"@),
        r@.summary.low_risk_findings == count_open_sev(checklist@.vulnerabilities, "low"@),
{
    let mapped_controls = map_stig_to_nist_controls(&checklist, &cci_mappings);
    let ghost md = mapped_controls.deep_view();
    let ghost vd = checklist@.vulnerabilities;
    let ghost cd = cci_mappings.deep_view();
    let summary = MappingSummary {
        total_controls: mapped_controls.len(),
        compliant_controls: count_status_exec(&mapped_controls, "compliant"),
        non_compliant_controls: count_status_exec(&mapped_controls, "non-compliant"),
        not_applicable_controls: count_status_exec(&mapped_controls, "not-applicable"),
        not_reviewed_controls: count_status_exec(&mapped_controls, "not-reviewed"),
        high_risk_findings: count_open_sev_exec(&checklist.vulnerabilities, "high"),
        medium_risk_findings: count_open_sev_exec(&checklist.vulnerabilities, "medium"),
        low_risk_findings: count_open_sev_exec(&checklist.vulnerabilities, "low"),
    };
    let result = STIGMappingResult { checklist, cci_mappings, mapped_controls, summary };
    proof {
        assert(result@.mapped_controls == md);
        assert forall|k: Seq<char>| control_present(vd, cd, k) implies exists|i: int|
            0 <= i < result@.mapped_controls.len() && (#[trigger] result@.mapped_controls[
                i
            ]).nist_control == k by {
            let w = choose|w: int| 0 <= w < md.len() && (#[trigger] md[w]).nist_control == k;
            assert(result@.mapped_controls[w].nist_control == k);
        }
    }
    result
}

} // verus!
