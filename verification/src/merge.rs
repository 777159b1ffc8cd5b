//! The checklist merger: parses several checklist documents and
//! concatenates their findings onto the first document's asset and
//! benchmark metadata.  An empty input list is an error, and so is a
//! first document that fails to parse; a later document that fails to
//! parse is skipped, the merge succeeding over the parseable ones.

use vstd::prelude::*;
use crate::checklist::parse_stig_checklist;
use crate::checklist::spec_parse_checklist;
use crate::strutil::byte_offset;
use crate::model::STIGChecklist;
use crate::model::STIGChecklistView;
use crate::model::STIGVulnerabilityView;
use crate::model::StigError;

verus! {

/// The concatenated findings of the parseable documents from `i` on, in
/// input order; documents that fail to parse contribute nothing.
pub open spec fn spec_merge_from(cs: Seq<Seq<char>>, i: int) -> Seq<STIGVulnerabilityView>
    decreases cs.len() - i,
{
    if i < 0 || i >= cs.len() {
        Seq::empty()
    } else {
        match spec_parse_checklist(cs[i]) {
            Err(_) => spec_merge_from(cs, i + 1),
            Ok(c) => c.vulnerabilities + spec_merge_from(cs, i + 1),
        }
    }
}

/// The merged checklist of a non-empty list of documents: the first
/// document's metadata, and the findings of exactly the documents that
/// parse, in input order.  `Err(None)` stands for an empty input list,
/// `Err(Some(p))` for a first document that stops parsing at `p`; a
/// failure of any later document does not fail the merge.
pub open spec fn spec_merge(cs: Seq<Seq<char>>) -> Result<STIGChecklistView, Option<int>> {
    if cs.len() == 0 {
        Err(None)
    } else {
        match spec_parse_checklist(cs[0]) {
            Err(p) => Err(Some(p)),
            Ok(first) => Ok(
                STIGChecklistView {
                    asset: first.asset,
                    stig_info: first.stig_info,
                    vulnerabilities: spec_merge_from(cs, 0),
                },
            ),
        }
    }
}

/// Parses each document and concatenates the findings of the parseable
/// ones onto the first document's metadata.  Exactly [`spec_merge`]: an
/// empty list yields the invalid-format error and nothing else does; a
/// first document that fails to parse yields its parse error; later
/// documents that fail to parse are skipped.
pub fn parse_and_merge_stig_checklists(contents: &Vec<String>) -> (r: Result<
    STIGChecklist,
    StigError,
>)
    ensures
        match r {
            Ok(c) => spec_merge(contents.deep_view()) == Ok::<STIGChecklistView, Option<int>>(c@),
            Err(e) => match e {
                StigError::InvalidFormat => contents@.len() == 0,
                StigError::XmlParsing { position } => {
                    &&& spec_merge(contents.deep_view()) is Err
                    &&& spec_merge(contents.deep_view())->Err_0 matches Some(p) && position as int
                        == byte_offset(contents.deep_view()[0], p)
                },
            },
        },
        contents@.len() == 0 <==> r == Err::<STIGChecklist, StigError>(StigError::InvalidFormat),
{
    let ghost cd = contents.deep_view();
    let n = contents.len();
    if n == 0 {
        return Err(StigError::InvalidFormat);
    }
    proof {
        assert(cd[0] == contents@[0]@);
    }
    let first = match parse_stig_checklist(contents[0].as_str()) {
        Ok(c) => c,
        Err(e) => {
            return Err(e);
        },
    };
    let STIGChecklist { asset, stig_info, vulnerabilities } = first;
    let mut vulns = vulnerabilities;
    let ghost first_view = spec_parse_checklist(cd[0])->Ok_0;
    proof {
        assert(vulns.deep_view() == first_view.vulnerabilities);
        assert(spec_merge_from(cd, 0) == vulns.deep_view() + spec_merge_from(cd, 1));
    }
    let mut i: usize = 1;
    while i < n
        invariant
            1 <= i <= n,
            n == contents@.len(),
            cd == contents.deep_view(),
            cd.len() == n,
            spec_parse_checklist(cd[0]) == Ok::<STIGChecklistView, int>(first_view),
            asset@ == first_view.asset,
            stig_info@ == first_view.stig_info,
            spec_merge_from(cd, 0) == vulns.deep_view() + spec_merge_from(cd, i as int),
        decreases n - i,
    {
        proof {
            assert(cd[i as int] == contents@[i as int]@);
        }
        let ghost old_vulns = vulns.deep_view();
        match parse_stig_checklist(contents[i].as_str()) {
            Ok(c) => {
                let STIGChecklist { vulnerabilities: mut v2, .. } = c;
                let ghost c_view = spec_parse_checklist(cd[i as int])->Ok_0;
                proof {
                    assert(c_view.vulnerabilities == v2.deep_view());
                }
                vulns.append(&mut v2);
                proof {
                    assert(vulns.deep_view() =~~= old_vulns + c_view.vulnerabilities);
                    assert(old_vulns + (c_view.vulnerabilities + spec_merge_from(
                        cd,
                        i as int + 1,
                    )) =~~= (old_vulns + c_view.vulnerabilities) + spec_merge_from(
                        cd,
                        i as int + 1,
                    ));
                }
            },
            Err(_) => {
                // a later document that does not parse is skipped
            },
        }
        i += 1;
    }
    proof {
        assert(spec_merge_from(cd, n as int) =~= Seq::<STIGVulnerabilityView>::empty());
        assert(vulns.deep_view() + Seq::<STIGVulnerabilityView>::empty() =~~= vulns.deep_view());
        assert(spec_merge_from(cd, 0) == vulns.deep_view());
    }
    let merged = STIGChecklist { asset, stig_info, vulnerabilities: vulns };
    proof {
        assert(spec_merge(cd) is Ok);
        assert(merged@ =~= spec_merge(cd)->Ok_0);
    }
    Ok(merged)
}

} // verus!
