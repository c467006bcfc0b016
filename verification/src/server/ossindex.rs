//! What is asked of the OSS Index and what is made of its answers.

use crate::purl::{purl_views, Purl, PurlView};
use crate::server::{Severity, VulnerabilityVersionInfo};
use vstd::prelude::*;

verus! {

/// The address of the component reports.
pub const COMPONENT_REPORT_URL: &'static str =
    "https://ossindex.sonatype.org/api/v3/component-report";

/// `p` without its type: the OSS Index takes no qualifiers.
pub open spec fn without_type(p: PurlView) -> PurlView {
    PurlView { purl_type: None, ..p }
}

/// The packages as they are sent: each without its type.
pub fn strip_qualifiers(purls: &[Purl]) -> (r: Vec<Purl>)
    ensures
        r@.len() == purls@.len(),
        forall|i: int| 0 <= i < r@.len() ==> (#[trigger] r@[i])@ == without_type(purls@[i]@),
{
    let mut out: Vec<Purl> = Vec::new();
    let mut i: usize = 0;
    while i < purls.len()
        invariant
            i <= purls.len(),
            out@.len() == i,
            forall|k: int| 0 <= k < i ==> (#[trigger] out@[k])@ == without_type(purls@[k]@),
        decreases purls.len() - i,
    {
        out.push(
            Purl {
                package: purls[i].package.clone(),
                group_id: purls[i].group_id.clone(),
                artifact_id: purls[i].artifact_id.clone(),
                version: purls[i].version.clone(),
                purl_type: None,
            },
        );
        i += 1;
    }
    out
}

/// Whether two packages differ in their type at most.
pub open spec fn same_coordinates(a: PurlView, b: PurlView) -> bool {
    without_type(a) == without_type(b)
}

/// The first of `purls` from `from` on with the coordinates of `p`.
pub open spec fn matching(p: PurlView, purls: Seq<PurlView>, from: int) -> Option<PurlView>
    decreases purls.len() - from,
{
    if from < 0 || from >= purls.len() {
        None
    } else if same_coordinates(p, purls[from]) {
        Some(purls[from])
    } else {
        matching(p, purls, from + 1)
    }
}

fn same_opt(a: &Option<String>, b: &Option<String>) -> (r: bool)
    ensures
        r == (crate::purl::opt_view(*a) == crate::purl::opt_view(*b)),
{
    match (a, b) {
        (Some(x), Some(y)) => *x == *y,
        (None, None) => true,
        _ => false,
    }
}

/// The package that was asked about, for a package that the OSS Index
/// answers about: the first of `requested_purls` with the same coordinates.
pub fn match_against_purl<'a>(oss_index_purl: &Purl, requested_purls: &'a [Purl]) -> (r: Option<
    &'a Purl,
>)
    ensures
        match r {
            Some(p) => matching(oss_index_purl@, purl_views(requested_purls@), 0) == Some(p@),
            None => matching(oss_index_purl@, purl_views(requested_purls@), 0) is None,
        },
{
    let ghost pv = purl_views(requested_purls@);
    let mut i: usize = 0;
    while i < requested_purls.len()
        invariant
            i <= requested_purls.len(),
            pv == purl_views(requested_purls@),
            matching(oss_index_purl@, pv, 0) == matching(oss_index_purl@, pv, i as int),
        decreases requested_purls.len() - i,
    {
        let purl = &requested_purls[i];
        assert(pv[i as int] == purl@);
        if oss_index_purl.package == purl.package && same_opt(
            &oss_index_purl.group_id,
            &purl.group_id,
        ) && oss_index_purl.artifact_id == purl.artifact_id && oss_index_purl.version
            == purl.version {
            return Some(purl);
        }
        i += 1;
    }
    None
}

/// The package under which an answer is kept: the package that was asked
/// about, where there is one, else the package of the answer.
pub open spec fn restored(p: PurlView, requested: Seq<PurlView>) -> PurlView {
    match matching(p, requested, 0) {
        Some(q) => q,
        None => p,
    }
}

/// The answers under the packages that were asked about: the OSS Index
/// answers without the type of a package.
pub fn restore_purls(reports: Vec<VulnerabilityVersionInfo>, requested: &[Purl]) -> (r: Vec<
    VulnerabilityVersionInfo,
>)
    ensures
        r@.len() == reports@.len(),
        forall|i: int|
            0 <= i < r@.len() ==> (#[trigger] r@[i])@.purl == restored(
                reports@[i]@.purl,
                purl_views(requested@),
            ) && r@[i]@.vulnerabilities == reports@[i]@.vulnerabilities,
{
    let mut out: Vec<VulnerabilityVersionInfo> = Vec::new();
    let mut i: usize = 0;
    while i < reports.len()
        invariant
            i <= reports.len(),
            out@.len() == i,
            forall|k: int|
                0 <= k < i ==> (#[trigger] out@[k])@.purl == restored(
                    reports@[k]@.purl,
                    purl_views(requested@),
                ) && out@[k]@.vulnerabilities == reports@[k]@.vulnerabilities,
        decreases reports.len() - i,
    {
        let mut info = reports[i].clone();
        match match_against_purl(&info.purl, requested) {
            Some(purl) => {
                info.purl = purl.clone();
            },
            None => {},
        }
        out.push(info);
        i += 1;
    }
    out
}

/// The severity of a CVSS score, given in tenths: nothing for 0, low up to
/// 3.9, medium up to 6.9, high up to 8.9, critical above.
pub open spec fn violation_level_spec(tenths: u32) -> Severity {
    if tenths == 0 {
        Severity::NoSeverity
    } else if tenths <= 39 {
        Severity::Low
    } else if tenths <= 69 {
        Severity::Medium
    } else if tenths <= 89 {
        Severity::High
    } else {
        Severity::Critical
    }
}

pub fn calculate_violation_level(tenths: u32) -> (s: Severity)
    ensures
        s == violation_level_spec(tenths),
{
    if tenths == 0 {
        Severity::NoSeverity
    } else if tenths <= 39 {
        Severity::Low
    } else if tenths <= 69 {
        Severity::Medium
    } else if tenths <= 89 {
        Severity::High
    } else {
        Severity::Critical
    }
}

/// The severity rises with the score.
pub proof fn law_violation_level_monotone(a: u32, b: u32)
    requires
        a <= b,
    ensures
        violation_level_spec(a).rank() <= violation_level_spec(b).rank(),
{
}

} // verus!
