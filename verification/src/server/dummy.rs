//! A vulnerability database for trials: it knows every package and reports
//! one finding of a random severity for each.

use crate::purl::{Purl, PurlView};
use crate::server::{
    Severity, VulnerabilityInformation, VulnerabilityInformationView, VulnerabilityVersionInfo,
};
use crate::text::{append, append_str, chars_of, decimal, decimal_spec, string_of};
use rand::Rng;
use vstd::prelude::*;

verus! {

/// The database for trials.
#[derive(Debug)]
pub struct Dummy;

/// The severity with the number `n`: from `Critical` for 0 to `Low` for 3,
/// and no severity for any other number.
pub open spec fn severity_spec(n: u32) -> Severity {
    if n == 0 {
        Severity::Critical
    } else if n == 1 {
        Severity::High
    } else if n == 2 {
        Severity::Medium
    } else if n == 3 {
        Severity::Low
    } else {
        Severity::NoSeverity
    }
}

pub fn severity_of(n: u32) -> (s: Severity)
    ensures
        s == severity_spec(n),
{
    if n == 0 {
        Severity::Critical
    } else if n == 1 {
        Severity::High
    } else if n == 2 {
        Severity::Medium
    } else if n == 3 {
        Severity::Low
    } else {
        Severity::NoSeverity
    }
}

/// A number below `bound`, by chance.
///
/// Trusted: `rand::Rng::gen_range` on the generator of the thread, over the
/// range from 0 up to `bound`, gives a number of that range; for an empty
/// range it panics, so the bound is not 0.
#[verifier::external_body]
fn random_below(bound: u32) -> (n: u32)
    requires
        bound > 0,
    ensures
        n < bound,
{
    rand::thread_rng().gen_range(0..bound)
}

/// One of the five severities, by chance.
pub fn random_severity() -> Severity {
    severity_of(random_below(5))
}

/// The finding that is reported for the package at `index`, with the
/// severity `severity`.
pub open spec fn finding_spec(index: nat, severity: Severity) -> VulnerabilityInformationView {
    VulnerabilityInformationView {
        severity,
        summary: "Summary "@ + decimal_spec(index),
        detail: "Detail "@ + decimal_spec(index),
        license: Seq::empty(),
    }
}

/// The finding for the package at `index`.
pub fn finding(index: usize, severity: Severity) -> (f: VulnerabilityInformation)
    ensures
        f@ == finding_spec(index as nat, severity),
{
    let number = decimal(index);
    let mut summary = chars_of("Summary ");
    append(&mut summary, &number);
    let mut detail = chars_of("Detail ");
    append(&mut detail, &number);
    let f = VulnerabilityInformation {
        severity,
        summary: string_of(&summary),
        detail: string_of(&detail),
        license: Vec::new(),
    };
    assert(f@.license =~= Seq::empty());
    f
}

impl Dummy {
    /// The versions of a package: its own, and its own with a `1` behind it.
    pub fn get_versions_for_purl(&self, purl: Purl) -> (r: Vec<Purl>)
        ensures
            r@.len() == 2,
            r@[0]@ == purl@,
            r@[1]@ == (PurlView { version: purl@.version + "1"@, ..purl@ }),
    {
        let mut version = chars_of(purl.version.as_str());
        append_str(&mut version, "1");
        let other = Purl {
            package: purl.package.clone(),
            group_id: purl.group_id.clone(),
            artifact_id: purl.artifact_id.clone(),
            version: string_of(&version),
            purl_type: purl.purl_type.clone(),
        };
        let mut versions: Vec<Purl> = Vec::new();
        versions.push(purl);
        versions.push(other);
        versions
    }

    /// One answer for each of `purls`, in order, each with one finding that
    /// names the place of the package in `purls`; its severity is chosen by
    /// chance.
    pub fn get_component_information(&self, purls: &[Purl]) -> (r: Vec<VulnerabilityVersionInfo>)
        ensures
            r@.len() == purls@.len(),
            forall|i: int|
                0 <= i < r@.len() ==> (#[trigger] r@[i])@.purl == purls@[i]@
                    && r@[i]@.vulnerabilities.len() == 1 && r@[i]@.vulnerabilities[0]
                    == finding_spec(i as nat, r@[i]@.vulnerabilities[0].severity),
    {
        let mut out: Vec<VulnerabilityVersionInfo> = Vec::new();
        let mut i: usize = 0;
        while i < purls.len()
            invariant
                i <= purls.len(),
                out@.len() == i,
                forall|k: int|
                    0 <= k < i ==> (#[trigger] out@[k])@.purl == purls@[k]@
                        && out@[k]@.vulnerabilities.len() == 1 && out@[k]@.vulnerabilities[0]
                        == finding_spec(k as nat, out@[k]@.vulnerabilities[0].severity),
            decreases purls.len() - i,
        {
            let mut vulnerabilities: Vec<VulnerabilityInformation> = Vec::new();
            vulnerabilities.push(finding(i, random_severity()));
            let info = VulnerabilityVersionInfo { purl: purls[i].clone(), vulnerabilities };
            assert(info@.vulnerabilities[0] == info.vulnerabilities@[0]@);
            out.push(info);
            i += 1;
        }
        out
    }
}

} // verus!
