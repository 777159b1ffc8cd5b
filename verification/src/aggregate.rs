//! The control-mapping aggregator: for every NIST control reached by any
//! finding through any correlation identifier, it derives the set of
//! identifiers, the findings (deduplicated by finding number), a
//! compliance verdict and a risk verdict.  The verdicts are determined
//! solely by which statuses and severities occur among the correlated
//! findings, so the reduction is independent of the findings' order; the
//! output is sorted by control identifier.

use vstd::prelude::*;
use crate::model::CCIMapping;
use crate::model::CCIMappingView;
use crate::model::MappedControl;
use crate::model::MappedControlView;
use crate::model::STIGChecklist;
use crate::model::STIGVulnerability;
use crate::model::STIGVulnerabilityView;
use crate::strutil::lower_string;
use crate::strutil::spec_lower;
use crate::strutil::spec_str_lt;
use crate::strutil::str_eq;
use crate::strutil::str_lt;
use crate::strutil::lemma_str_lt_connected;
use crate::strutil::lemma_str_lt_irrefl;
use crate::strutil::lemma_str_lt_trans;
use crate::checklist::clone_strings;

verus! {

use vstd::string::StringExecFns;

/// The control identifiers of the last catalog record carrying `id`,
/// mirroring a lookup table built by insertion where later records win.
pub open spec fn cat_lookup(cat: Seq<CCIMappingView>, id: Seq<char>) -> Option<Seq<Seq<char>>>
    decreases cat.len(),
{
    if cat.len() == 0 {
        None
    } else if cat.last().id == id {
        Some(cat.last().nist_controls)
    } else {
        cat_lookup(cat.drop_last(), id)
    }
}

/// Whether the correlation identifier `cci` reaches the control `k`
/// through the catalog.
pub open spec fn ref_maps_to(cat: Seq<CCIMappingView>, cci: Seq<char>, k: Seq<char>) -> bool {
    match cat_lookup(cat, cci) {
        Some(cs) => cs.contains(k),
        None => false,
    }
}

/// Whether the finding `v` references the control `k` through any of its
/// correlation identifiers.
pub open spec fn vuln_correlates(
    v: STIGVulnerabilityView,
    cat: Seq<CCIMappingView>,
    k: Seq<char>,
) -> bool {
    exists|rj: int| 0 <= rj < v.cci_refs.len() && ref_maps_to(cat, v.cci_refs[rj], k)
}

/// Whether any finding of the checklist reaches the control `k`.
pub open spec fn control_present(
    vulns: Seq<STIGVulnerabilityView>,
    cat: Seq<CCIMappingView>,
    k: Seq<char>,
) -> bool {
    exists|vi: int| 0 <= vi < vulns.len() && vuln_correlates(vulns[vi], cat, k)
}

/// Whether some finding correlated to `k` has exactly the given status.
pub open spec fn has_status(
    vulns: Seq<STIGVulnerabilityView>,
    cat: Seq<CCIMappingView>,
    k: Seq<char>,
    st: Seq<char>,
) -> bool {
    exists|vi: int|
        0 <= vi < vulns.len() && vuln_correlates(vulns[vi], cat, k) && vulns[vi].status == st
}

/// Whether some finding correlated to `k` has the given severity,
/// case-insensitively.
pub open spec fn has_severity(
    vulns: Seq<STIGVulnerabilityView>,
    cat: Seq<CCIMappingView>,
    k: Seq<char>,
    sv: Seq<char>,
) -> bool {
    exists|vi: int|
        0 <= vi < vulns.len() && vuln_correlates(vulns[vi], cat, k) && spec_lower(
            vulns[vi].severity,
        ) == sv
}

/// The compliance verdict of the control `k`: an open finding anywhere
/// beats a closed one, which beats not-applicable, which beats the
/// default.
pub open spec fn compliance_of(
    vulns: Seq<STIGVulnerabilityView>,
    cat: Seq<CCIMappingView>,
    k: Seq<char>,
) -> Seq<char> {
    if has_status(vulns, cat, k, "Open"@) {
        "non-compliant"@
    } else if has_status(vulns, cat, k, "NotAFinding"@) {
        "compliant"@
    } else if has_status(vulns, cat, k, "NotApplicable"@) {
        "not-applicable"@
    } else {
        "not-reviewed"@
    }
}

/// The risk verdict of the control `k`: the highest severity among all
/// correlated findings regardless of their status.
pub open spec fn risk_of(
    vulns: Seq<STIGVulnerabilityView>,
    cat: Seq<CCIMappingView>,
    k: Seq<char>,
) -> Seq<char> {
    if has_severity(vulns, cat, k, "high"@) {
        "high"@
    } else if has_severity(vulns, cat, k, "medium"@) {
        "medium"@
    } else {
        "low"@
    }
}

/// The identifier list of the control `k` grown by the references of one
/// finding, from index `j` on: an identifier that reaches `k` and is not
/// yet present is appended.
pub open spec fn ccis_refs_fold(
    acc: Seq<Seq<char>>,
    refs: Seq<Seq<char>>,
    j: int,
    cat: Seq<CCIMappingView>,
    k: Seq<char>,
) -> Seq<Seq<char>>
    decreases refs.len() - j,
{
    if j < 0 || j >= refs.len() {
        acc
    } else {
        let acc1 = if ref_maps_to(cat, refs[j], k) && !acc.contains(refs[j]) {
            acc.push(refs[j])
        } else {
            acc
        };
        ccis_refs_fold(acc1, refs, j + 1, cat, k)
    }
}

/// The identifier list of the control `k` grown by the findings from
/// index `i` on, in encounter order.
pub open spec fn ccis_fold(
    acc: Seq<Seq<char>>,
    vulns: Seq<STIGVulnerabilityView>,
    i: int,
    cat: Seq<CCIMappingView>,
    k: Seq<char>,
) -> Seq<Seq<char>>
    decreases vulns.len() - i,
{
    if i < 0 || i >= vulns.len() {
        acc
    } else {
        ccis_fold(ccis_refs_fold(acc, vulns[i].cci_refs, 0, cat, k), vulns, i + 1, cat, k)
    }
}

/// The deduplicated, insertion-ordered identifier list of the control
/// `k`.
pub open spec fn ccis_for(
    vulns: Seq<STIGVulnerabilityView>,
    cat: Seq<CCIMappingView>,
    k: Seq<char>,
) -> Seq<Seq<char>> {
    ccis_fold(Seq::empty(), vulns, 0, cat, k)
}

/// Whether a finding with the given finding number is already recorded.
pub open spec fn has_vuln_num(acc: Seq<STIGVulnerabilityView>, num: Seq<char>) -> bool {
    exists|ai: int| 0 <= ai < acc.len() && acc[ai].vuln_num == num
}

/// The finding list of the control `k` grown by the findings from index
/// `i` on: a correlated finding is appended unless one with its finding
/// number is already present.
pub open spec fn stigs_fold(
    acc: Seq<STIGVulnerabilityView>,
    vulns: Seq<STIGVulnerabilityView>,
    i: int,
    cat: Seq<CCIMappingView>,
    k: Seq<char>,
) -> Seq<STIGVulnerabilityView>
    decreases vulns.len() - i,
{
    if i < 0 || i >= vulns.len() {
        acc
    } else {
        let v = vulns[i];
        let acc1 = if vuln_correlates(v, cat, k) && !has_vuln_num(acc, v.vuln_num) {
            acc.push(v)
        } else {
            acc
        };
        stigs_fold(acc1, vulns, i + 1, cat, k)
    }
}

/// The finding list of the control `k`, deduplicated by finding number,
/// in encounter order.
pub open spec fn stigs_for(
    vulns: Seq<STIGVulnerabilityView>,
    cat: Seq<CCIMappingView>,
    k: Seq<char>,
) -> Seq<STIGVulnerabilityView> {
    stigs_fold(Seq::empty(), vulns, 0, cat, k)
}

/// No two entries are the same character sequence.
pub open spec fn distinct_seqs(s: Seq<Seq<char>>) -> bool {
    forall|i: int, j: int| 0 <= i < j < s.len() ==> s[i] != s[j]
}

/// The entries are in strictly ascending lexicographic order.
pub open spec fn sorted_strict(s: Seq<Seq<char>>) -> bool {
    forall|i: int, j: int| 0 <= i < j < s.len() ==> spec_str_lt(s[i], s[j])
}

/// Appending an element adds exactly that element to the members.
proof fn lemma_push_contains<A>(s: Seq<A>, x: A)
    ensures
        forall|y: A| #[trigger] s.push(x).contains(y) <==> s.contains(y) || y == x,
{
    assert forall|y: A| #[trigger] s.push(x).contains(y) implies s.contains(y) || y == x by {
        let w = choose|w: int| 0 <= w < s.push(x).len() && (#[trigger] s.push(x)[w]) == y;
        if w < s.len() {
            assert(s[w] == y);
        }
    }
    assert forall|y: A| s.contains(y) || y == x implies #[trigger] s.push(x).contains(y) by {
        if s.contains(y) {
            let w = choose|w: int| 0 <= w < s.len() && (#[trigger] s[w]) == y;
            assert(s.push(x)[w] == y);
        } else {
            assert(s.push(x)[s.len() as int] == y);
        }
    }
}

/// Two strictly sorted sequences with the same members are equal: the
/// sorted output of the aggregation is uniquely determined by which
/// controls are present.
pub proof fn lemma_sorted_unique(s1: Seq<Seq<char>>, s2: Seq<Seq<char>>)
    requires
        sorted_strict(s1),
        sorted_strict(s2),
        forall|k: Seq<char>| s1.contains(k) <==> s2.contains(k),
    ensures
        s1 == s2,
    decreases s1.len(),
{
    if s1.len() == 0 {
        if s2.len() > 0 {
            assert(s2.contains(s2[0]));
            assert(s1.contains(s2[0]));
            assert(false);
        }
        assert(s1 =~= s2);
    } else {
        assert(s1.contains(s1[0]));
        assert(s2.contains(s1[0]));
        assert(s2.len() > 0);
        assert(s2.contains(s2[0]));
        assert(s1.contains(s2[0]));
        // both heads are their sequence's minimum, so they are equal
        let w = choose|w: int| 0 <= w < s2.len() && (#[trigger] s2[w]) == s1[0];
        let u = choose|u: int| 0 <= u < s1.len() && (#[trigger] s1[u]) == s2[0];
        if w > 0 && u > 0 {
            assert(spec_str_lt(s2[0], s2[w]));
            assert(spec_str_lt(s1[0], s1[u]));
            lemma_str_lt_trans(s1[0], s2[0], s1[0]);
            lemma_str_lt_irrefl(s1[0]);
            assert(false);
        }
        if w > 0 && u == 0 {
            assert(spec_str_lt(s2[0], s2[w]));
            lemma_str_lt_irrefl(s1[0]);
            assert(false);
        }
        assert(s1[0] == s2[0]);
        // the tails hold the same members
        let t1 = s1.skip(1);
        let t2 = s2.skip(1);
        assert forall|k: Seq<char>| t1.contains(k) implies t2.contains(k) by {
            let a = choose|a: int| 0 <= a < t1.len() && (#[trigger] t1[a]) == k;
            assert(s1[a + 1] == k);
            assert(spec_str_lt(s1[0], k));
            lemma_str_lt_irrefl(k);
            assert(s1.contains(k));
            assert(s2.contains(k));
            let b = choose|b: int| 0 <= b < s2.len() && (#[trigger] s2[b]) == k;
            assert(b > 0);
            assert(t2[b - 1] == k);
        }
        assert forall|k: Seq<char>| t2.contains(k) implies t1.contains(k) by {
            let a = choose|a: int| 0 <= a < t2.len() && (#[trigger] t2[a]) == k;
            assert(s2[a + 1] == k);
            assert(spec_str_lt(s2[0], k));
            lemma_str_lt_irrefl(k);
            assert(s2.contains(k));
            assert(s1.contains(k));
            let b = choose|b: int| 0 <= b < s1.len() && (#[trigger] s1[b]) == k;
            assert(b > 0);
            assert(t1[b - 1] == k);
        }
        assert forall|a: int, b: int| 0 <= a < b < t1.len() implies spec_str_lt(t1[a], t1[b]) by {
            assert(t1[a] == s1[a + 1]);
            assert(t1[b] == s1[b + 1]);
        }
        assert forall|a: int, b: int| 0 <= a < b < t2.len() implies spec_str_lt(t2[a], t2[b]) by {
            assert(t2[a] == s2[a + 1]);
            assert(t2[b] == s2[b + 1]);
        }
        lemma_sorted_unique(t1, t2);
        assert forall|i: int| 0 <= i < s1.len() implies s1[i] == s2[i] by {
            if i > 0 {
                assert(s1[i] == t1[i - 1]);
                assert(s2[i] == t2[i - 1]);
            }
        }
        assert(s1 =~= s2);
    }
}

/// Appending a fresh element keeps the entries pairwise distinct.
proof fn lemma_push_distinct(s: Seq<Seq<char>>, x: Seq<char>)
    requires
        distinct_seqs(s),
        !s.contains(x),
    ensures
        distinct_seqs(s.push(x)),
{
    assert forall|a: int, b: int| 0 <= a < b < s.push(x).len() implies s.push(x)[a] != s.push(x)[
        b
    ] by {
        if b == s.len() {
            assert(s.contains(s[a]));
        }
    }
}

proof fn lemma_ccis_refs_fold_distinct(
    acc: Seq<Seq<char>>,
    refs: Seq<Seq<char>>,
    j: int,
    cat: Seq<CCIMappingView>,
    k: Seq<char>,
)
    requires
        distinct_seqs(acc),
    ensures
        distinct_seqs(ccis_refs_fold(acc, refs, j, cat, k)),
    decreases refs.len() - j,
{
    if 0 <= j < refs.len() {
        if ref_maps_to(cat, refs[j], k) && !acc.contains(refs[j]) {
            lemma_push_distinct(acc, refs[j]);
            lemma_ccis_refs_fold_distinct(acc.push(refs[j]), refs, j + 1, cat, k);
        } else {
            lemma_ccis_refs_fold_distinct(acc, refs, j + 1, cat, k);
        }
    }
}

proof fn lemma_ccis_fold_distinct(
    acc: Seq<Seq<char>>,
    vulns: Seq<STIGVulnerabilityView>,
    i: int,
    cat: Seq<CCIMappingView>,
    k: Seq<char>,
)
    requires
        distinct_seqs(acc),
    ensures
        distinct_seqs(ccis_fold(acc, vulns, i, cat, k)),
    decreases vulns.len() - i,
{
    if 0 <= i < vulns.len() {
        lemma_ccis_refs_fold_distinct(acc, vulns[i].cci_refs, 0, cat, k);
        lemma_ccis_fold_distinct(
            ccis_refs_fold(acc, vulns[i].cci_refs, 0, cat, k),
            vulns,
            i + 1,
            cat,
            k,
        );
    }
}

/// A control's identifier list never repeats an identifier: re-running
/// the aggregation over findings with duplicated references still yields
/// each identifier exactly once.
pub proof fn lemma_ccis_distinct(
    vulns: Seq<STIGVulnerabilityView>,
    cat: Seq<CCIMappingView>,
    k: Seq<char>,
)
    ensures
        distinct_seqs(ccis_for(vulns, cat, k)),
{
    lemma_ccis_fold_distinct(Seq::empty(), vulns, 0, cat, k);
}

/// A control's finding list never repeats a finding number.
pub proof fn lemma_stigs_nums_distinct(
    vulns: Seq<STIGVulnerabilityView>,
    cat: Seq<CCIMappingView>,
    k: Seq<char>,
)
    ensures
        forall|a: int, b: int|
            0 <= a < b < stigs_for(vulns, cat, k).len() ==> stigs_for(vulns, cat, k)[a].vuln_num
                != stigs_for(vulns, cat, k)[b].vuln_num,
{
    lemma_stigs_fold_nums_distinct(Seq::empty(), vulns, 0, cat, k);
}

proof fn lemma_stigs_fold_nums_distinct(
    acc: Seq<STIGVulnerabilityView>,
    vulns: Seq<STIGVulnerabilityView>,
    i: int,
    cat: Seq<CCIMappingView>,
    k: Seq<char>,
)
    requires
        forall|a: int, b: int| 0 <= a < b < acc.len() ==> acc[a].vuln_num != acc[b].vuln_num,
    ensures
        forall|a: int, b: int|
            0 <= a < b < stigs_fold(acc, vulns, i, cat, k).len() ==> stigs_fold(
                acc,
                vulns,
                i,
                cat,
                k,
            )[a].vuln_num != stigs_fold(acc, vulns, i, cat, k)[b].vuln_num,
    decreases vulns.len() - i,
{
    if 0 <= i < vulns.len() {
        let v = vulns[i];
        if vuln_correlates(v, cat, k) && !has_vuln_num(acc, v.vuln_num) {
            let acc1 = acc.push(v);
            assert forall|a: int, b: int| 0 <= a < b < acc1.len() implies acc1[a].vuln_num
                != acc1[b].vuln_num by {
                if b == acc.len() {
                    if acc[a].vuln_num == v.vuln_num {
                        assert(has_vuln_num(acc, v.vuln_num));
                    }
                }
            }
            lemma_stigs_fold_nums_distinct(acc1, vulns, i + 1, cat, k);
        } else {
            lemma_stigs_fold_nums_distinct(acc, vulns, i + 1, cat, k);
        }
    }
}

/// Which identifiers the fold gathers, as a statement over membership.
proof fn lemma_ccis_refs_fold_membership(
    acc: Seq<Seq<char>>,
    refs: Seq<Seq<char>>,
    j: int,
    cat: Seq<CCIMappingView>,
    k: Seq<char>,
)
    requires
        j >= 0,
    ensures
        forall|c: Seq<char>|
            #[trigger] ccis_refs_fold(acc, refs, j, cat, k).contains(c) <==> acc.contains(c) || (
            exists|rj: int| j <= rj < refs.len() && refs[rj] == c && ref_maps_to(cat, c, k)),
    decreases refs.len() - j,
{
    if j < refs.len() {
        let acc1 = if ref_maps_to(cat, refs[j], k) && !acc.contains(refs[j]) {
            acc.push(refs[j])
        } else {
            acc
        };
        assert(ccis_refs_fold(acc, refs, j, cat, k) == ccis_refs_fold(acc1, refs, j + 1, cat, k));
        lemma_ccis_refs_fold_membership(acc1, refs, j + 1, cat, k);
        if ref_maps_to(cat, refs[j], k) && !acc.contains(refs[j]) {
            lemma_push_contains(acc, refs[j]);
        }
        assert forall|c: Seq<char>|
            #[trigger] ccis_refs_fold(acc, refs, j, cat, k).contains(c) implies acc.contains(c)
            || (exists|rj: int| j <= rj < refs.len() && refs[rj] == c && ref_maps_to(
            cat,
            c,
            k,
        )) by {
            assert(ccis_refs_fold(acc1, refs, j + 1, cat, k).contains(c));
            if !acc.contains(c) {
                if acc1.contains(c) {
                    assert(c == refs[j] && ref_maps_to(cat, c, k));
                    assert(j <= j < refs.len() && refs[j] == c && ref_maps_to(cat, c, k));
                } else {
                    let rj = choose|rj: int|
                        j + 1 <= rj < refs.len() && refs[rj] == c && ref_maps_to(cat, c, k);
                    assert(j <= rj < refs.len() && refs[rj] == c && ref_maps_to(cat, c, k));
                }
            }
        }
        assert forall|c: Seq<char>|
            acc.contains(c) || (exists|rj: int|
                j <= rj < refs.len() && refs[rj] == c && ref_maps_to(
                    cat,
                    c,
                    k,
                )) implies #[trigger] ccis_refs_fold(acc, refs, j, cat, k).contains(c) by {
            if acc.contains(c) {
                assert(acc1.contains(c));
                assert(ccis_refs_fold(acc1, refs, j + 1, cat, k).contains(c));
            } else {
                let rj = choose|rj: int|
                    j <= rj < refs.len() && refs[rj] == c && ref_maps_to(cat, c, k);
                if rj == j {
                    assert(acc1.contains(c));
                } else {
                    assert(exists|rr: int|
                        j + 1 <= rr < refs.len() && refs[rr] == c && ref_maps_to(cat, c, k));
                }
                assert(ccis_refs_fold(acc1, refs, j + 1, cat, k).contains(c));
            }
        }
    }
}

/// Which finding carries which identifier into a control's list.
proof fn lemma_ccis_fold_membership(
    acc: Seq<Seq<char>>,
    vulns: Seq<STIGVulnerabilityView>,
    i: int,
    cat: Seq<CCIMappingView>,
    k: Seq<char>,
)
    requires
        i >= 0,
    ensures
        forall|c: Seq<char>|
            #[trigger] ccis_fold(acc, vulns, i, cat, k).contains(c) <==> acc.contains(c) || (
            exists|vi: int, rj: int|
                i <= vi < vulns.len() && 0 <= rj < vulns[vi].cci_refs.len()
                    && vulns[vi].cci_refs[rj] == c && ref_maps_to(cat, c, k)),
    decreases vulns.len() - i,
{
    if i < vulns.len() {
        let acc1 = ccis_refs_fold(acc, vulns[i].cci_refs, 0, cat, k);
        assert(ccis_fold(acc, vulns, i, cat, k) == ccis_fold(acc1, vulns, i + 1, cat, k));
        lemma_ccis_refs_fold_membership(acc, vulns[i].cci_refs, 0, cat, k);
        lemma_ccis_fold_membership(acc1, vulns, i + 1, cat, k);
        assert forall|c: Seq<char>|
            #[trigger] ccis_fold(acc, vulns, i, cat, k).contains(c) implies acc.contains(c) || (
        exists|vi: int, rj: int|
            i <= vi < vulns.len() && 0 <= rj < vulns[vi].cci_refs.len() && vulns[vi].cci_refs[rj]
                == c && ref_maps_to(cat, c, k)) by {
            assert(ccis_fold(acc1, vulns, i + 1, cat, k).contains(c));
            if !acc.contains(c) {
                if acc1.contains(c) {
                    assert(ccis_refs_fold(acc, vulns[i].cci_refs, 0, cat, k).contains(c));
                    let rj = choose|rj: int|
                        0 <= rj < vulns[i].cci_refs.len() && vulns[i].cci_refs[rj] == c
                            && ref_maps_to(cat, c, k);
                    assert(i <= i < vulns.len() && 0 <= rj < vulns[i].cci_refs.len()
                        && vulns[i].cci_refs[rj] == c && ref_maps_to(cat, c, k));
                } else {
                    let (vi, rj) = choose|vi: int, rj: int|
                        i + 1 <= vi < vulns.len() && 0 <= rj < vulns[vi].cci_refs.len()
                            && vulns[vi].cci_refs[rj] == c && ref_maps_to(cat, c, k);
                    assert(i <= vi < vulns.len() && 0 <= rj < vulns[vi].cci_refs.len()
                        && vulns[vi].cci_refs[rj] == c && ref_maps_to(cat, c, k));
                }
            }
        }
        assert forall|c: Seq<char>|
            acc.contains(c) || (exists|vi: int, rj: int|
                i <= vi < vulns.len() && 0 <= rj < vulns[vi].cci_refs.len()
                    && vulns[vi].cci_refs[rj] == c && ref_maps_to(
                    cat,
                    c,
                    k,
                )) implies #[trigger] ccis_fold(acc, vulns, i, cat, k).contains(c) by {
            if acc.contains(c) {
                assert(ccis_refs_fold(acc, vulns[i].cci_refs, 0, cat, k).contains(c));
                assert(acc1.contains(c));
                assert(ccis_fold(acc1, vulns, i + 1, cat, k).contains(c));
            } else {
                let (vi, rj) = choose|vi: int, rj: int|
                    i <= vi < vulns.len() && 0 <= rj < vulns[vi].cci_refs.len()
                        && vulns[vi].cci_refs[rj] == c && ref_maps_to(cat, c, k);
                if vi == i {
                    assert(ccis_refs_fold(acc, vulns[i].cci_refs, 0, cat, k).contains(c));
                    assert(acc1.contains(c));
                } else {
                    assert(exists|vv: int, rr: int|
                        i + 1 <= vv < vulns.len() && 0 <= rr < vulns[vv].cci_refs.len()
                            && vulns[vv].cci_refs[rr] == c && ref_maps_to(cat, c, k));
                }
                assert(ccis_fold(acc1, vulns, i + 1, cat, k).contains(c));
            }
        }
    }
}

/// An identifier stands in a control's list exactly when some finding of
/// the checklist carries it and it reaches the control.
pub proof fn lemma_ccis_membership(
    vulns: Seq<STIGVulnerabilityView>,
    cat: Seq<CCIMappingView>,
    k: Seq<char>,
)
    ensures
        forall|c: Seq<char>|
            #[trigger] ccis_for(vulns, cat, k).contains(c) <==> exists|vi: int, rj: int|
                0 <= vi < vulns.len() && 0 <= rj < vulns[vi].cci_refs.len()
                    && vulns[vi].cci_refs[rj] == c && ref_maps_to(cat, c, k),
{
    lemma_ccis_fold_membership(Seq::empty(), vulns, 0, cat, k);
}

proof fn lemma_stigs_fold_nums(
    acc: Seq<STIGVulnerabilityView>,
    vulns: Seq<STIGVulnerabilityView>,
    i: int,
    cat: Seq<CCIMappingView>,
    k: Seq<char>,
)
    requires
        i >= 0,
    ensures
        forall|num: Seq<char>|
            #[trigger] has_vuln_num(stigs_fold(acc, vulns, i, cat, k), num) <==> has_vuln_num(
                acc,
                num,
            ) || (exists|vi: int|
                i <= vi < vulns.len() && vuln_correlates(vulns[vi], cat, k) && vulns[vi].vuln_num
                    == num),
    decreases vulns.len() - i,
{
    if i < vulns.len() {
        let v = vulns[i];
        let pushed = vuln_correlates(v, cat, k) && !has_vuln_num(acc, v.vuln_num);
        let acc1 = if pushed {
            acc.push(v)
        } else {
            acc
        };
        assert(stigs_fold(acc, vulns, i, cat, k) == stigs_fold(acc1, vulns, i + 1, cat, k));
        lemma_stigs_fold_nums(acc1, vulns, i + 1, cat, k);
        assert forall|num: Seq<char>|
            #[trigger] has_vuln_num(acc1, num) <==> has_vuln_num(acc, num) || (pushed && num
            == v.vuln_num) by {
            if has_vuln_num(acc1, num) {
                let ai = choose|ai: int| 0 <= ai < acc1.len() && acc1[ai].vuln_num == num;
                if ai < acc.len() {
                    assert(has_vuln_num(acc, num));
                }
            }
            if has_vuln_num(acc, num) {
                let ai = choose|ai: int| 0 <= ai < acc.len() && acc[ai].vuln_num == num;
                assert(acc1[ai].vuln_num == num);
            }
            if pushed && num == v.vuln_num {
                assert(acc1[acc.len() as int].vuln_num == num);
            }
        }
        assert forall|num: Seq<char>|
            #[trigger] has_vuln_num(stigs_fold(acc, vulns, i, cat, k), num) implies has_vuln_num(
            acc,
            num,
        ) || (exists|vi: int|
            i <= vi < vulns.len() && vuln_correlates(vulns[vi], cat, k) && vulns[vi].vuln_num
                == num) by {
            assert(has_vuln_num(stigs_fold(acc1, vulns, i + 1, cat, k), num));
            if !has_vuln_num(acc, num) {
                if has_vuln_num(acc1, num) {
                    assert(vuln_correlates(vulns[i], cat, k) && vulns[i].vuln_num == num);
                    assert(exists|vi: int|
                        i <= vi < vulns.len() && vuln_correlates(vulns[vi], cat, k) && vulns[
                            vi
                        ].vuln_num == num);
                } else {
                    let vi = choose|vi: int|
                        i + 1 <= vi < vulns.len() && vuln_correlates(vulns[vi], cat, k) && vulns[
                            vi
                        ].vuln_num == num;
                    assert(i <= vi < vulns.len() && vuln_correlates(vulns[vi], cat, k) && vulns[
                        vi
                    ].vuln_num == num);
                }
            }
        }
        assert forall|num: Seq<char>|
            has_vuln_num(acc, num) || (exists|vi: int|
                i <= vi < vulns.len() && vuln_correlates(vulns[vi], cat, k) && vulns[vi].vuln_num
                    == num) implies #[trigger] has_vuln_num(
            stigs_fold(acc, vulns, i, cat, k),
            num,
        ) by {
            if has_vuln_num(acc, num) {
                assert(has_vuln_num(acc1, num));
                assert(has_vuln_num(stigs_fold(acc1, vulns, i + 1, cat, k), num));
            } else {
                let vi = choose|vi: int|
                    i <= vi < vulns.len() && vuln_correlates(vulns[vi], cat, k) && vulns[
                        vi
                    ].vuln_num == num;
                if vi == i || (pushed && num == v.vuln_num) {
                    if !has_vuln_num(acc1, num) {
                        // then the finding at i correlates but was not pushed,
                        // so an equal number already sits in the table
                        assert(has_vuln_num(acc, v.vuln_num));
                        assert(false);
                    }
                } else if has_vuln_num(acc1, num) {
                } else {
                    assert(exists|vv: int|
                        i + 1 <= vv < vulns.len() && vuln_correlates(vulns[vv], cat, k) && vulns[
                            vv
                        ].vuln_num == num);
                }
                assert(has_vuln_num(stigs_fold(acc1, vulns, i + 1, cat, k), num));
            }
        }
    }
}

/// A finding number stands among a control's findings exactly when some
/// correlated finding of the checklist carries it.
pub proof fn lemma_stigs_membership(
    vulns: Seq<STIGVulnerabilityView>,
    cat: Seq<CCIMappingView>,
    k: Seq<char>,
)
    ensures
        forall|num: Seq<char>|
            #[trigger] has_vuln_num(stigs_for(vulns, cat, k), num) <==> exists|vi: int|
                0 <= vi < vulns.len() && vuln_correlates(vulns[vi], cat, k) && vulns[vi].vuln_num
                    == num,
{
    lemma_stigs_fold_nums(Seq::empty(), vulns, 0, cat, k);
}

/// Order independence of the aggregation: two checklists holding the
/// same findings in any order yield, for every control, the same
/// presence, the same verdicts, the same identifier members, and the
/// same finding numbers.
pub proof fn lemma_aggregation_order_independent(
    v1: Seq<STIGVulnerabilityView>,
    v2: Seq<STIGVulnerabilityView>,
    cat: Seq<CCIMappingView>,
    k: Seq<char>,
)
    requires
        v1.to_multiset() == v2.to_multiset(),
    ensures
        control_present(v1, cat, k) == control_present(v2, cat, k),
        compliance_of(v1, cat, k) == compliance_of(v2, cat, k),
        risk_of(v1, cat, k) == risk_of(v2, cat, k),
        forall|c: Seq<char>|
            ccis_for(v1, cat, k).contains(c) == ccis_for(v2, cat, k).contains(c),
        forall|num: Seq<char>|
            has_vuln_num(stigs_for(v1, cat, k), num) == has_vuln_num(stigs_for(v2, cat, k), num),
{
    broadcast use vstd::seq_lib::group_to_multiset_ensures;

    assert forall|x: STIGVulnerabilityView| v1.contains(x) <==> v2.contains(x) by {
        assert(v1.contains(x) <==> v1.to_multiset().count(x) > 0);
        assert(v2.contains(x) <==> v2.to_multiset().count(x) > 0);
    }
    assert(control_present(v1, cat, k) == control_present(v2, cat, k)) by {
        lemma_present_transfer(v1, v2, cat, k);
        lemma_present_transfer(v2, v1, cat, k);
    }
    assert forall|st: Seq<char>|
        #[trigger] has_status(v1, cat, k, st) == has_status(v2, cat, k, st) by {
        lemma_status_transfer(v1, v2, cat, k, st);
        lemma_status_transfer(v2, v1, cat, k, st);
    }
    assert forall|sv: Seq<char>|
        #[trigger] has_severity(v1, cat, k, sv) == has_severity(v2, cat, k, sv) by {
        lemma_severity_transfer(v1, v2, cat, k, sv);
        lemma_severity_transfer(v2, v1, cat, k, sv);
    }
    assert(has_status(v1, cat, k, "Open"@) == has_status(v2, cat, k, "Open"@));
    assert(has_status(v1, cat, k, "NotAFinding"@) == has_status(v2, cat, k, "NotAFinding"@));
    assert(has_status(v1, cat, k, "NotApplicable"@) == has_status(v2, cat, k, "NotApplicable"@));
    assert(has_severity(v1, cat, k, "high"@) == has_severity(v2, cat, k, "high"@));
    assert(has_severity(v1, cat, k, "medium"@) == has_severity(v2, cat, k, "medium"@));
    lemma_ccis_membership(v1, cat, k);
    lemma_ccis_membership(v2, cat, k);
    assert forall|c: Seq<char>|
        ccis_for(v1, cat, k).contains(c) == ccis_for(v2, cat, k).contains(c) by {
        lemma_carrier_transfer(v1, v2, cat, k, c);
        lemma_carrier_transfer(v2, v1, cat, k, c);
    }
    lemma_stigs_membership(v1, cat, k);
    lemma_stigs_membership(v2, cat, k);
    assert forall|num: Seq<char>|
        has_vuln_num(stigs_for(v1, cat, k), num) == has_vuln_num(
            stigs_for(v2, cat, k),
            num,
        ) by {
        lemma_num_transfer(v1, v2, cat, k, num);
        lemma_num_transfer(v2, v1, cat, k, num);
    }
}

proof fn lemma_present_transfer(
    v1: Seq<STIGVulnerabilityView>,
    v2: Seq<STIGVulnerabilityView>,
    cat: Seq<CCIMappingView>,
    k: Seq<char>,
)
    requires
        v1.to_multiset() == v2.to_multiset(),
    ensures
        control_present(v1, cat, k) ==> control_present(v2, cat, k),
{
    broadcast use vstd::seq_lib::group_to_multiset_ensures;

    if control_present(v1, cat, k) {
        let vi = choose|vi: int| 0 <= vi < v1.len() && vuln_correlates(v1[vi], cat, k);
        let x = v1[vi];
        assert(v1.contains(x));
        assert(v1.to_multiset().count(x) > 0);
        assert(v2.to_multiset().count(x) > 0);
        assert(v2.contains(x));
        let wi = choose|wi: int| 0 <= wi < v2.len() && v2[wi] == x;
        assert(vuln_correlates(v2[wi], cat, k));
    }
}

proof fn lemma_status_transfer(
    v1: Seq<STIGVulnerabilityView>,
    v2: Seq<STIGVulnerabilityView>,
    cat: Seq<CCIMappingView>,
    k: Seq<char>,
    st: Seq<char>,
)
    requires
        v1.to_multiset() == v2.to_multiset(),
    ensures
        has_status(v1, cat, k, st) ==> has_status(v2, cat, k, st),
{
    broadcast use vstd::seq_lib::group_to_multiset_ensures;

    if has_status(v1, cat, k, st) {
        let vi = choose|vi: int|
            0 <= vi < v1.len() && vuln_correlates(v1[vi], cat, k) && v1[vi].status == st;
        let x = v1[vi];
        assert(v1.contains(x));
        assert(v1.to_multiset().count(x) > 0);
        assert(v2.to_multiset().count(x) > 0);
        assert(v2.contains(x));
        let wi = choose|wi: int| 0 <= wi < v2.len() && v2[wi] == x;
        assert(vuln_correlates(v2[wi], cat, k) && v2[wi].status == st);
    }
}

proof fn lemma_severity_transfer(
    v1: Seq<STIGVulnerabilityView>,
    v2: Seq<STIGVulnerabilityView>,
    cat: Seq<CCIMappingView>,
    k: Seq<char>,
    sv: Seq<char>,
)
    requires
        v1.to_multiset() == v2.to_multiset(),
    ensures
        has_severity(v1, cat, k, sv) ==> has_severity(v2, cat, k, sv),
{
    broadcast use vstd::seq_lib::group_to_multiset_ensures;

    if has_severity(v1, cat, k, sv) {
        let vi = choose|vi: int|
            0 <= vi < v1.len() && vuln_correlates(v1[vi], cat, k) && spec_lower(v1[vi].severity)
                == sv;
        let x = v1[vi];
        assert(v1.contains(x));
        assert(v1.to_multiset().count(x) > 0);
        assert(v2.to_multiset().count(x) > 0);
        assert(v2.contains(x));
        let wi = choose|wi: int| 0 <= wi < v2.len() && v2[wi] == x;
        assert(vuln_correlates(v2[wi], cat, k) && spec_lower(v2[wi].severity) == sv);
    }
}

proof fn lemma_carrier_transfer(
    v1: Seq<STIGVulnerabilityView>,
    v2: Seq<STIGVulnerabilityView>,
    cat: Seq<CCIMappingView>,
    k: Seq<char>,
    c: Seq<char>,
)
    requires
        v1.to_multiset() == v2.to_multiset(),
    ensures
        (exists|vi: int, rj: int|
            0 <= vi < v1.len() && 0 <= rj < v1[vi].cci_refs.len() && v1[vi].cci_refs[rj] == c
                && ref_maps_to(cat, c, k)) ==> (exists|vi: int, rj: int|
            0 <= vi < v2.len() && 0 <= rj < v2[vi].cci_refs.len() && v2[vi].cci_refs[rj] == c
                && ref_maps_to(cat, c, k)),
{
    broadcast use vstd::seq_lib::group_to_multiset_ensures;

    if exists|vi: int, rj: int|
        0 <= vi < v1.len() && 0 <= rj < v1[vi].cci_refs.len() && v1[vi].cci_refs[rj] == c
            && ref_maps_to(cat, c, k) {
        let (vi, rj) = choose|vi: int, rj: int|
            0 <= vi < v1.len() && 0 <= rj < v1[vi].cci_refs.len() && v1[vi].cci_refs[rj] == c
                && ref_maps_to(cat, c, k);
        let x = v1[vi];
        assert(v1.contains(x));
        assert(v1.to_multiset().count(x) > 0);
        assert(v2.to_multiset().count(x) > 0);
        assert(v2.contains(x));
        let wi = choose|wi: int| 0 <= wi < v2.len() && v2[wi] == x;
        assert(0 <= wi < v2.len() && 0 <= rj < v2[wi].cci_refs.len() && v2[wi].cci_refs[rj] == c
            && ref_maps_to(cat, c, k));
    }
}

proof fn lemma_num_transfer(
    v1: Seq<STIGVulnerabilityView>,
    v2: Seq<STIGVulnerabilityView>,
    cat: Seq<CCIMappingView>,
    k: Seq<char>,
    num: Seq<char>,
)
    requires
        v1.to_multiset() == v2.to_multiset(),
    ensures
        (exists|vi: int|
            0 <= vi < v1.len() && vuln_correlates(v1[vi], cat, k) && v1[vi].vuln_num == num) ==> (
        exists|vi: int|
            0 <= vi < v2.len() && vuln_correlates(v2[vi], cat, k) && v2[vi].vuln_num == num),
{
    broadcast use vstd::seq_lib::group_to_multiset_ensures;

    if exists|vi: int|
        0 <= vi < v1.len() && vuln_correlates(v1[vi], cat, k) && v1[vi].vuln_num == num {
        let vi = choose|vi: int|
            0 <= vi < v1.len() && vuln_correlates(v1[vi], cat, k) && v1[vi].vuln_num == num;
        let x = v1[vi];
        assert(v1.contains(x));
        assert(v1.to_multiset().count(x) > 0);
        assert(v2.to_multiset().count(x) > 0);
        assert(v2.contains(x));
        let wi = choose|wi: int| 0 <= wi < v2.len() && v2[wi] == x;
        assert(vuln_correlates(v2[wi], cat, k) && v2[wi].vuln_num == num);
    }
}

/// Looks the identifier up in the catalog, later records winning.
/// Exactly [`cat_lookup`].
fn cat_lookup_exec(cat: &Vec<CCIMapping>, id: &String) -> (r: Option<Vec<String>>)
    ensures
        match r {
            Some(cs) => cat_lookup(cat.deep_view(), id@) == Some(cs.deep_view()),
            None => cat_lookup(cat.deep_view(), id@) is None,
        },
{
    let mut j: usize = cat.len();
    proof {
        assert(cat.deep_view().take(j as int) =~= cat.deep_view());
    }
    while j > 0
        invariant
            0 <= j <= cat@.len(),
            cat.deep_view().len() == cat@.len(),
            cat_lookup(cat.deep_view(), id@) == cat_lookup(cat.deep_view().take(j as int), id@),
        decreases j,
    {
        proof {
            let d = cat.deep_view();
            assert(d.take(j as int).last() == d[j - 1]);
            assert(d.take(j as int).drop_last() =~= d.take(j - 1));
            assert(d[j - 1] == cat@[j - 1]@);
        }
        if cat[j - 1].id == *id {
            return Some(clone_strings(&cat[j - 1].nist_controls));
        }
        j -= 1;
    }
    proof {
        assert(cat.deep_view().take(0) =~= Seq::<CCIMappingView>::empty());
    }
    None
}

/// Whether the list holds the string, compared by contents.
fn vec_contains_str(v: &Vec<String>, x: &String) -> (b: bool)
    ensures
        b == v.deep_view().contains(x@),
{
    let mut j: usize = 0;
    while j < v.len()
        invariant
            0 <= j <= v@.len(),
            forall|l: int| 0 <= l < j ==> v@[l]@ != x@,
        decreases v@.len() - j,
    {
        if v[j] == *x {
            assert(v.deep_view()[j as int] == x@);
            return true;
        }
        j += 1;
    }
    proof {
        if v.deep_view().contains(x@) {
            let l = choose|l: int| 0 <= l < v.deep_view().len() && v.deep_view()[l] == x@;
            assert(v@[l]@ == x@);
        }
    }
    false
}

/// Whether the correlation identifier reaches the control through the
/// catalog.  Exactly [`ref_maps_to`].
fn ref_maps_exec(cat: &Vec<CCIMapping>, cci: &String, k: &String) -> (b: bool)
    ensures
        b == ref_maps_to(cat.deep_view(), cci@, k@),
{
    match cat_lookup_exec(cat, cci) {
        Some(cs) => vec_contains_str(&cs, k),
        None => false,
    }
}

/// Whether the finding references the control.  Exactly
/// [`vuln_correlates`].
fn vuln_correlates_exec(v: &STIGVulnerability, cat: &Vec<CCIMapping>, k: &String) -> (b: bool)
    ensures
        b == vuln_correlates(v@, cat.deep_view(), k@),
{
    let mut j: usize = 0;
    while j < v.cci_refs.len()
        invariant
            0 <= j <= v.cci_refs@.len(),
            forall|l: int| 0 <= l < j ==> !ref_maps_to(cat.deep_view(), v@.cci_refs[l], k@),
        decreases v.cci_refs@.len() - j,
    {
        proof {
            assert(v@.cci_refs[j as int] == v.cci_refs@[j as int]@);
        }
        if ref_maps_exec(cat, &v.cci_refs[j], k) {
            return true;
        }
        j += 1;
    }
    proof {
        if vuln_correlates(v@, cat.deep_view(), k@) {
            let l = choose|l: int|
                0 <= l < v@.cci_refs.len() && ref_maps_to(cat.deep_view(), v@.cci_refs[l], k@);
            assert(!ref_maps_to(cat.deep_view(), v@.cci_refs[l], k@));
        }
    }
    false
}

/// Adds to `keys` every control that one correlation identifier reaches,
/// keeping entries distinct.
fn add_controls_of_ref(keys: &mut Vec<String>, cat: &Vec<CCIMapping>, cci: &String)
    ensures
        distinct_seqs(old(keys).deep_view()) ==> distinct_seqs(final(keys).deep_view()),
        forall|k: Seq<char>|
            final(keys).deep_view().contains(k) <==> old(keys).deep_view().contains(k)
                || ref_maps_to(cat.deep_view(), cci@, k),
{
    match cat_lookup_exec(cat, cci) {
        None => {
        },
        Some(cs) => {
            let mut l: usize = 0;
            while l < cs.len()
                invariant
                    0 <= l <= cs@.len(),
                    cat_lookup(cat.deep_view(), cci@) == Some(cs.deep_view()),
                    cs.deep_view().len() == cs@.len(),
                    distinct_seqs(old(keys).deep_view()) ==> distinct_seqs(keys.deep_view()),
                    forall|k: Seq<char>|
                        keys.deep_view().contains(k) <==> old(keys).deep_view().contains(k)
                            || cs.deep_view().take(l as int).contains(k),
                decreases cs@.len() - l,
            {
                let ghost old_deep = keys.deep_view();
                proof {
                    assert(cs.deep_view()[l as int] == cs@[l as int]@);
                }
                if !vec_contains_str(keys, &cs[l]) {
                    keys.push(cs[l].clone());
                    proof {
                        assert(keys.deep_view() =~~= old_deep.push(cs.deep_view()[l as int]));
                        lemma_push_contains(old_deep, cs.deep_view()[l as int]);
                    }
                }
                proof {
                    let csd = cs.deep_view();
                    assert forall|k: Seq<char>|
                        csd.take(l as int + 1).contains(k) <==> (csd.take(l as int).contains(k)
                            || k == csd[l as int]) by {
                        if csd.take(l as int + 1).contains(k) {
                            let w = choose|w: int|
                                0 <= w < l + 1 && (#[trigger] csd.take(l as int + 1)[w]) == k;
                            if w < l {
                                assert(csd.take(l as int)[w] == k);
                            }
                        }
                        if csd.take(l as int).contains(k) {
                            let w = choose|w: int|
                                0 <= w < l && (#[trigger] csd.take(l as int)[w]) == k;
                            assert(csd.take(l as int + 1)[w] == k);
                        }
                        if k == csd[l as int] {
                            assert(csd.take(l as int + 1)[l as int] == k);
                        }
                    }
                }
                l += 1;
            }
            proof {
                assert(cs.deep_view().take(cs@.len() as int) =~= cs.deep_view());
            }
        },
    }
}

/// Collects every control that any finding reaches, each exactly once,
/// in encounter order.
fn collect_keys(vulns: &Vec<STIGVulnerability>, cat: &Vec<CCIMapping>) -> (keys: Vec<String>)
    ensures
        distinct_seqs(keys.deep_view()),
        forall|k: Seq<char>|
            keys.deep_view().contains(k) <==> control_present(
                vulns.deep_view(),
                cat.deep_view(),
                k,
            ),
{
    let ghost vd = vulns.deep_view();
    let ghost cd = cat.deep_view();
    let mut keys: Vec<String> = Vec::new();
    proof {
        assert(keys.deep_view() =~= Seq::<Seq<char>>::empty());
    }
    let mut i: usize = 0;
    while i < vulns.len()
        invariant
            0 <= i <= vulns@.len(),
            vd == vulns.deep_view(),
            cd == cat.deep_view(),
            vd.len() == vulns@.len(),
            distinct_seqs(keys.deep_view()),
            forall|k: Seq<char>|
                keys.deep_view().contains(k) <==> exists|vi: int|
                    0 <= vi < i && vuln_correlates(vd[vi], cd, k),
        decreases vulns@.len() - i,
    {
        let v = &vulns[i];
        proof {
            assert(vd[i as int] == vulns@[i as int]@);
        }
        let mut r: usize = 0;
        while r < v.cci_refs.len()
            invariant
                0 <= r <= v.cci_refs@.len(),
                vd == vulns.deep_view(),
                cd == cat.deep_view(),
                vd.len() == vulns@.len(),
                0 <= i < vulns@.len(),
                v == &vulns[i as int],
                vd[i as int] == vulns@[i as int]@,
                distinct_seqs(keys.deep_view()),
                forall|k: Seq<char>|
                    keys.deep_view().contains(k) <==> (exists|vi: int|
                        0 <= vi < i && vuln_correlates(vd[vi], cd, k)) || (exists|rj: int|
                        0 <= rj < r && ref_maps_to(cd, vd[i as int].cci_refs[rj], k)),
            decreases v.cci_refs@.len() - r,
        {
            proof {
                assert(vd[i as int].cci_refs[r as int] == v.cci_refs@[r as int]@);
            }
            add_controls_of_ref(&mut keys, cat, &v.cci_refs[r]);
            r += 1;
        }
        proof {
            assert forall|k: Seq<char>|
                keys.deep_view().contains(k) <==> exists|vi: int|
                    0 <= vi < i + 1 && vuln_correlates(vd[vi], cd, k) by {
                if keys.deep_view().contains(k) {
                    if exists|rj: int|
                        0 <= rj < vd[i as int].cci_refs.len() && ref_maps_to(
                            cd,
                            vd[i as int].cci_refs[rj],
                            k,
                        ) {
                        assert(vuln_correlates(vd[i as int], cd, k));
                    }
                }
                if exists|vi: int| 0 <= vi < i + 1 && vuln_correlates(vd[vi], cd, k) {
                    let vi = choose|vi: int| 0 <= vi < i + 1 && vuln_correlates(vd[vi], cd, k);
                    if vi == i {
                        let rj = choose|rj: int|
                            0 <= rj < vd[vi].cci_refs.len() && ref_maps_to(
                                cd,
                                vd[vi].cci_refs[rj],
                                k,
                            );
                        assert(ref_maps_to(cd, vd[i as int].cci_refs[rj], k));
                    }
                }
            }
        }
        i += 1;
    }
    keys
}

/// Sorts distinct keys into strictly ascending order, keeping exactly
/// the same members.
fn sort_keys(keys: Vec<String>) -> (r: Vec<String>)
    requires
        distinct_seqs(keys.deep_view()),
    ensures
        sorted_strict(r.deep_view()),
        distinct_seqs(r.deep_view()),
        forall|k: Seq<char>| r.deep_view().contains(k) <==> keys.deep_view().contains(k),
{
    let ghost keys0 = keys.deep_view();
    let mut src = keys;
    let mut out: Vec<String> = Vec::new();
    proof {
        assert(out.deep_view() =~= Seq::<Seq<char>>::empty());
    }
    while src.len() > 0
        invariant
            forall|k: Seq<char>|
                keys0.contains(k) <==> (out.deep_view().contains(k) || src.deep_view().contains(
                    k,
                )),
            forall|k: Seq<char>| !(out.deep_view().contains(k) && src.deep_view().contains(k)),
            distinct_seqs(out.deep_view()),
            distinct_seqs(src.deep_view()),
            sorted_strict(out.deep_view()),
            forall|a: Seq<char>, b: Seq<char>|
                out.deep_view().contains(a) && src.deep_view().contains(b) ==> spec_str_lt(a, b),
        decreases src.len(),
    {
        let ghost sd = src.deep_view();
        let mut m: usize = 0;
        let mut l: usize = 1;
        while l < src.len()
            invariant
                src@.len() > 0,
                sd == src.deep_view(),
                sd.len() == src@.len(),
                distinct_seqs(sd),
                0 <= m < l <= src@.len(),
                forall|j: int| 0 <= j < l && j != m ==> spec_str_lt(sd[m as int], sd[j]),
            decreases src@.len() - l,
        {
            proof {
                assert(sd[l as int] == src@[l as int]@);
                assert(sd[m as int] == src@[m as int]@);
            }
            if str_lt(src[l].as_str(), src[m].as_str()) {
                proof {
                    let old_m = m as int;
                    assert forall|j: int| 0 <= j < l + 1 && j != l implies spec_str_lt(
                        sd[l as int],
                        sd[j],
                    ) by {
                        if j != old_m {
                            lemma_str_lt_trans(sd[l as int], sd[old_m], sd[j]);
                        }
                    }
                }
                m = l;
            } else {
                proof {
                    if sd[l as int] != sd[m as int] {
                        lemma_str_lt_connected(sd[l as int], sd[m as int]);
                    }
                }
            }
            l += 1;
        }
        // sd[m] is now the strict minimum of src
        assert(forall|j: int| 0 <= j < sd.len() && j != m ==> spec_str_lt(sd[m as int], sd[j]));
        let ghost old_out = out.deep_view();
        let ghost old_sv = src@;
        let x = src.remove(m);
        out.push(x);
        proof {
            let nd = src.deep_view();
            let mv = sd[m as int];
            assert(out.deep_view() =~~= old_out.push(mv));
            lemma_push_contains(old_out, mv);
            assert(sd.contains(mv));
            assert(!old_out.contains(mv));
            assert forall|a: int, b: int|
                0 <= a < b < out.deep_view().len() implies out.deep_view()[a] != out.deep_view()[
                b
            ] by {
                if b == old_out.len() {
                    assert(old_out.contains(old_out[a]));
                }
            }
            assert forall|j: int| 0 <= j < nd.len() implies nd[j] == if j < m {
                sd[j]
            } else {
                sd[j + 1]
            } by {
                assert(src@[j] == if j < m {
                    old_sv[j]
                } else {
                    old_sv[j + 1]
                });
            }
            // membership of the source after the removal
            assert forall|k: Seq<char>| #[trigger] nd.contains(k) implies sd.contains(k) && k
                != mv by {
                let w = choose|w: int| 0 <= w < nd.len() && (#[trigger] nd[w]) == k;
                if w < m {
                    assert(sd[w] == k);
                    assert(w != m);
                } else {
                    assert(sd[w + 1] == k);
                    assert(w + 1 != m);
                }
            }
            assert forall|k: Seq<char>| sd.contains(k) && k != mv implies #[trigger] nd.contains(
                k,
            ) by {
                let w = choose|w: int| 0 <= w < sd.len() && (#[trigger] sd[w]) == k;
                assert(w != m);
                if w < m {
                    assert(nd[w] == k);
                } else {
                    assert(nd[w - 1] == k);
                }
            }
            // the removed minimum is strictly below everything left
            assert forall|b: Seq<char>| #[trigger] nd.contains(b) implies spec_str_lt(mv, b) by {
                let w = choose|w: int| 0 <= w < nd.len() && (#[trigger] nd[w]) == b;
                if w < m {
                    assert(sd[w] == b);
                } else {
                    assert(sd[w + 1] == b);
                }
            }
            // the source stays distinct
            assert forall|a: int, b: int| 0 <= a < b < nd.len() implies nd[a] != nd[b] by {
                if a < m {
                    assert(nd[a] == sd[a]);
                } else {
                    assert(nd[a] == sd[a + 1]);
                }
                if b < m {
                    assert(nd[b] == sd[b]);
                } else {
                    assert(nd[b] == sd[b + 1]);
                }
            }
        }
    }
    proof {
        assert(src.deep_view().len() == 0);
        assert forall|k: Seq<char>| !src.deep_view().contains(k) by {}
    }
    out
}

/// The two verdicts of one control.  Exactly [`compliance_of`] and
/// [`risk_of`].
fn verdicts_for_key(vulns: &Vec<STIGVulnerability>, cat: &Vec<CCIMapping>, k: &String) -> (r: (
    String,
    String,
))
    ensures
        r.0@ == compliance_of(vulns.deep_view(), cat.deep_view(), k@),
        r.1@ == risk_of(vulns.deep_view(), cat.deep_view(), k@),
{
    let ghost vd = vulns.deep_view();
    let ghost cd = cat.deep_view();
    proof {
        // the status and severity words are pairwise distinct
        reveal_strlit("Open");
        reveal_strlit("NotAFinding");
        reveal_strlit("NotApplicable");
        reveal_strlit("high");
        reveal_strlit("medium");
        assert("Open"@.len() == 4 && "NotAFinding"@.len() == 11 && "NotApplicable"@.len() == 13);
        assert("high"@.len() == 4 && "medium"@.len() == 6);
        assert("high"@[0] == 'h' && "Open"@[0] == 'O');
    }
    let mut has_open = false;
    let mut has_naf = false;
    let mut has_na = false;
    let mut has_high = false;
    let mut has_med = false;
    let mut i: usize = 0;
    while i < vulns.len()
        invariant
            0 <= i <= vulns@.len(),
            vd == vulns.deep_view(),
            cd == cat.deep_view(),
            vd.len() == vulns@.len(),
            has_open <==> exists|vi: int|
                0 <= vi < i && vuln_correlates(vd[vi], cd, k@) && vd[vi].status == "Open"@,
            has_naf <==> exists|vi: int|
                0 <= vi < i && vuln_correlates(vd[vi], cd, k@) && vd[vi].status == "NotAFinding"@,
            has_na <==> exists|vi: int|
                0 <= vi < i && vuln_correlates(vd[vi], cd, k@) && vd[vi].status
                    == "NotApplicable"@,
            has_high <==> exists|vi: int|
                0 <= vi < i && vuln_correlates(vd[vi], cd, k@) && spec_lower(vd[vi].severity)
                    == "high"@,
            has_med <==> exists|vi: int|
                0 <= vi < i && vuln_correlates(vd[vi], cd, k@) && spec_lower(vd[vi].severity)
                    == "medium"@,
        decreases vulns@.len() - i,
    {
        let v = &vulns[i];
        proof {
            assert(vd[i as int] == vulns@[i as int]@);
            reveal_strlit("Open");
            reveal_strlit("NotAFinding");
            reveal_strlit("NotApplicable");
            reveal_strlit("high");
            reveal_strlit("medium");
            assert("Open"@.len() == 4 && "NotAFinding"@.len() == 11 && "NotApplicable"@.len()
                == 13);
            assert("high"@.len() == 4 && "medium"@.len() == 6);
        }
        if vuln_correlates_exec(v, cat, k) {
            if str_eq(v.status.as_str(), "Open") {
                has_open = true;
            } else if str_eq(v.status.as_str(), "NotAFinding") {
                has_naf = true;
            } else if str_eq(v.status.as_str(), "NotApplicable") {
                has_na = true;
            }
            let sev = lower_string(&v.severity);
            if str_eq(sev.as_str(), "high") {
                has_high = true;
            } else if str_eq(sev.as_str(), "medium") {
                has_med = true;
            }
        }
        i += 1;
    }
    let compliance = if has_open {
        String::from_str("non-compliant")
    } else if has_naf {
        String::from_str("compliant")
    } else if has_na {
        String::from_str("not-applicable")
    } else {
        String::from_str("not-reviewed")
    };
    let risk = if has_high {
        String::from_str("high")
    } else if has_med {
        String::from_str("medium")
    } else {
        String::from_str("low")
    };
    (compliance, risk)
}

/// The identifier list of one control.  Exactly [`ccis_for`].
fn ccis_for_key(vulns: &Vec<STIGVulnerability>, cat: &Vec<CCIMapping>, k: &String) -> (r: Vec<
    String,
>)
    ensures
        r.deep_view() == ccis_for(vulns.deep_view(), cat.deep_view(), k@),
{
    let ghost vd = vulns.deep_view();
    let ghost cd = cat.deep_view();
    let mut acc: Vec<String> = Vec::new();
    proof {
        assert(acc.deep_view() =~= Seq::<Seq<char>>::empty());
    }
    let mut i: usize = 0;
    while i < vulns.len()
        invariant
            0 <= i <= vulns@.len(),
            vd == vulns.deep_view(),
            cd == cat.deep_view(),
            vd.len() == vulns@.len(),
            ccis_for(vd, cd, k@) == ccis_fold(acc.deep_view(), vd, i as int, cd, k@),
        decreases vulns@.len() - i,
    {
        let v = &vulns[i];
        proof {
            assert(vd[i as int] == vulns@[i as int]@);
        }
        let ghost acc_i = acc.deep_view();
        let mut j: usize = 0;
        while j < v.cci_refs.len()
            invariant
                0 <= j <= v.cci_refs@.len(),
                vd == vulns.deep_view(),
                cd == cat.deep_view(),
                0 <= i < vulns@.len(),
                v == &vulns[i as int],
                vd[i as int] == vulns@[i as int]@,
                ccis_refs_fold(acc_i, vd[i as int].cci_refs, 0, cd, k@) == ccis_refs_fold(
                    acc.deep_view(),
                    vd[i as int].cci_refs,
                    j as int,
                    cd,
                    k@,
                ),
            decreases v.cci_refs@.len() - j,
        {
            proof {
                assert(vd[i as int].cci_refs[j as int] == v.cci_refs@[j as int]@);
            }
            let ghost old_acc = acc.deep_view();
            let mapped = ref_maps_exec(cat, &v.cci_refs[j], k);
            if mapped {
                if !vec_contains_str(&acc, &v.cci_refs[j]) {
                    acc.push(v.cci_refs[j].clone());
                    proof {
                        assert(acc.deep_view() =~~= old_acc.push(
                            vd[i as int].cci_refs[j as int],
                        ));
                    }
                }
            }
            j += 1;
        }
        i += 1;
    }
    acc
}

/// The finding list of one control.  Exactly [`stigs_for`].
fn stigs_for_key(vulns: &Vec<STIGVulnerability>, cat: &Vec<CCIMapping>, k: &String) -> (r: Vec<
    STIGVulnerability,
>)
    ensures
        r.deep_view() == stigs_for(vulns.deep_view(), cat.deep_view(), k@),
{
    let ghost vd = vulns.deep_view();
    let ghost cd = cat.deep_view();
    let mut acc: Vec<STIGVulnerability> = Vec::new();
    proof {
        assert(acc.deep_view() =~= Seq::<STIGVulnerabilityView>::empty());
    }
    let mut i: usize = 0;
    while i < vulns.len()
        invariant
            0 <= i <= vulns@.len(),
            vd == vulns.deep_view(),
            cd == cat.deep_view(),
            vd.len() == vulns@.len(),
            stigs_for(vd, cd, k@) == stigs_fold(acc.deep_view(), vd, i as int, cd, k@),
        decreases vulns@.len() - i,
    {
        let v = &vulns[i];
        proof {
            assert(vd[i as int] == vulns@[i as int]@);
        }
        let ghost old_acc = acc.deep_view();
        if vuln_correlates_exec(v, cat, k) {
            let mut dup = false;
            let mut a: usize = 0;
            while a < acc.len()
                invariant
                    0 <= a <= acc@.len(),
                    old_acc == acc.deep_view(),
                    old_acc.len() == acc@.len(),
                    v == &vulns[i as int],
                    vd[i as int] == vulns@[i as int]@,
                    dup ==> has_vuln_num(old_acc, vd[i as int].vuln_num),
                    !dup ==> forall|ai: int| 0 <= ai < a ==> old_acc[ai].vuln_num != vd[
                        i as int
                    ].vuln_num,
                decreases acc@.len() - a,
            {
                proof {
                    assert(old_acc[a as int] == acc@[a as int]@);
                }
                if acc[a].vuln_num == v.vuln_num {
                    dup = true;
                    a = acc.len();
                } else {
                    a += 1;
                }
            }
            proof {
                if !dup && has_vuln_num(old_acc, vd[i as int].vuln_num) {
                    let ai = choose|ai: int|
                        0 <= ai < old_acc.len() && old_acc[ai].vuln_num == vd[i as int].vuln_num;
                    assert(false);
                }
            }
            if !dup {
                acc.push(v.clone());
                proof {
                    assert(acc.deep_view() =~~= old_acc.push(vd[i as int]));
                }
            }
        }
        i += 1;
    }
    acc
}

/// Derives the control mappings of a checklist against a catalog: one
/// entry per reached NIST control, sorted ascending by control
/// identifier, each carrying its deduplicated identifier list, its
/// findings deduplicated by finding number, and its two verdicts.
pub fn map_stig_to_nist_controls(checklist: &STIGChecklist, cci_mappings: &Vec<CCIMapping>) -> (r:
    Vec<MappedControl>)
    ensures
        forall|a: int, b: int|
            0 <= a < b < r.deep_view().len() ==> spec_str_lt(
                (#[trigger] r.deep_view()[a]).nist_control,
                (#[trigger] r.deep_view()[b]).nist_control,
            ),
        forall|i: int|
            0 <= i < r.deep_view().len() ==> control_present(
                checklist@.vulnerabilities,
                cci_mappings.deep_view(),
                (#[trigger] r.deep_view()[i]).nist_control,
            ),
        forall|k: Seq<char>|
            control_present(checklist@.vulnerabilities, cci_mappings.deep_view(), k)
                ==> exists|i: int|
                0 <= i < r.deep_view().len() && (#[trigger] r.deep_view()[i]).nist_control == k,
        forall|i: int|
            0 <= i < r.deep_view().len() ==> {
                let e = #[trigger] r.deep_view()[i];
                &&& e.compliance_status == compliance_of(
                    checklist@.vulnerabilities,
                    cci_mappings.deep_view(),
                    e.nist_control,
                )
                &&& e.risk_level == risk_of(
                    checklist@.vulnerabilities,
                    cci_mappings.deep_view(),
                    e.nist_control,
                )
                &&& e.ccis == ccis_for(
                    checklist@.vulnerabilities,
                    cci_mappings.deep_view(),
                    e.nist_control,
                )
                &&& e.stigs == stigs_for(
                    checklist@.vulnerabilities,
                    cci_mappings.deep_view(),
                    e.nist_control,
                )
                &&& distinct_seqs(e.ccis)
                &&& forall|a: int, b: int|
                    0 <= a < b < e.stigs.len() ==> e.stigs[a].vuln_num != e.stigs[b].vuln_num
            },
{
    let ghost vd = checklist@.vulnerabilities;
    let ghost cd = cci_mappings.deep_view();
    let raw_keys = collect_keys(&checklist.vulnerabilities, cci_mappings);
    let keys = sort_keys(raw_keys);
    let ghost kd = keys.deep_view();
    let mut out: Vec<MappedControl> = Vec::new();
    let mut i: usize = 0;
    while i < keys.len()
        invariant
            0 <= i <= keys@.len(),
            vd == checklist@.vulnerabilities,
            cd == cci_mappings.deep_view(),
            kd == keys.deep_view(),
            kd.len() == keys@.len(),
            sorted_strict(kd),
            distinct_seqs(kd),
            forall|k: Seq<char>| kd.contains(k) <==> control_present(vd, cd, k),
            out.deep_view().len() == i,
            forall|l: int|
                0 <= l < i ==> (#[trigger] out.deep_view()[l]).nist_control == kd[l],
            forall|l: int|
                0 <= l < i ==> {
                    let e = #[trigger] out.deep_view()[l];
                    &&& e.compliance_status == compliance_of(vd, cd, e.nist_control)
                    &&& e.risk_level == risk_of(vd, cd, e.nist_control)
                    &&& e.ccis == ccis_for(vd, cd, e.nist_control)
                    &&& e.stigs == stigs_for(vd, cd, e.nist_control)
                    &&& distinct_seqs(e.ccis)
                    &&& forall|a: int, b: int|
                        0 <= a < b < e.stigs.len() ==> e.stigs[a].vuln_num != e.stigs[b].vuln_num
                },
        decreases keys@.len() - i,
    {
        let k = &keys[i];
        proof {
            assert(kd[i as int] == keys@[i as int]@);
        }
        let (compliance, risk) = verdicts_for_key(&checklist.vulnerabilities, cci_mappings, k);
        let ccis = ccis_for_key(&checklist.vulnerabilities, cci_mappings, k);
        let stigs = stigs_for_key(&checklist.vulnerabilities, cci_mappings, k);
        proof {
            lemma_ccis_distinct(vd, cd, kd[i as int]);
            lemma_stigs_nums_distinct(vd, cd, kd[i as int]);
        }
        let ghost old_out = out.deep_view();
        let entry = MappedControl {
            nist_control: k.clone(),
            ccis,
            stigs,
            compliance_status: compliance,
            risk_level: risk,
        };
        out.push(entry);
        proof {
            assert(out.deep_view() =~~= old_out.push(
                MappedControlView {
                    nist_control: kd[i as int],
                    ccis: ccis_for(vd, cd, kd[i as int]),
                    stigs: stigs_for(vd, cd, kd[i as int]),
                    compliance_status: compliance_of(vd, cd, kd[i as int]),
                    risk_level: risk_of(vd, cd, kd[i as int]),
                },
            ));
        }
        i += 1;
    }
    proof {
        let rd = out.deep_view();
        assert forall|l: int|
            0 <= l < rd.len() implies control_present(
            vd,
            cd,
            (#[trigger] rd[l]).nist_control,
        ) by {
            assert(kd.contains(kd[l]));
        }
        assert forall|k: Seq<char>|
            control_present(vd, cd, k) implies exists|l: int|
            0 <= l < rd.len() && (#[trigger] rd[l]).nist_control == k by {
            assert(kd.contains(k));
            let w = choose|w: int| 0 <= w < kd.len() && (#[trigger] kd[w]) == k;
            assert(rd[w].nist_control == k);
        }
    }
    out
}

} // verus!
