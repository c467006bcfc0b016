//! What is asked of a Nexus Lifecycle server and what is made of its
//! answers.

use crate::purl::{Purl, PurlView};
use crate::server::Severity;
use crate::text::{append_str, chars_of, string_of};
use vstd::prelude::*;

verus! {

/// The severity of a threat level, given in tenths: critical above 9, high
/// above 7, medium above 4, low above 0.
pub open spec fn severity_spec(tenths: u32) -> Severity {
    if tenths > 90 {
        Severity::Critical
    } else if tenths > 70 {
        Severity::High
    } else if tenths > 40 {
        Severity::Medium
    } else if tenths > 0 {
        Severity::Low
    } else {
        Severity::NoSeverity
    }
}

pub fn severity_from_score(tenths: u32) -> (s: Severity)
    ensures
        s == severity_spec(tenths),
{
    if tenths > 90 {
        Severity::Critical
    } else if tenths > 70 {
        Severity::High
    } else if tenths > 40 {
        Severity::Medium
    } else if tenths > 0 {
        Severity::Low
    } else {
        Severity::NoSeverity
    }
}

/// The address at which the versions of a component are asked for.
pub fn versions_url(base_url: &str) -> (r: String)
    ensures
        r@ == base_url@ + "/api/v2/components/versions"@,
{
    let mut out = chars_of(base_url);
    append_str(&mut out, "/api/v2/components/versions");
    string_of(&out)
}

/// The address at which the details of components are asked for.
pub fn details_url(base_url: &str) -> (r: String)
    ensures
        r@ == base_url@ + "/api/v2/components/details"@,
{
    let mut out = chars_of(base_url);
    append_str(&mut out, "/api/v2/components/details");
    string_of(&out)
}

/// The address at which the application `application` is asked for.
pub fn applications_url(base_url: &str, application: &str) -> (r: String)
    ensures
        r@ == base_url@ + "/api/v2/applications?publicId="@ + application@,
{
    let mut out = chars_of(base_url);
    append_str(&mut out, "/api/v2/applications?publicId=");
    append_str(&mut out, application);
    string_of(&out)
}

/// The package `purl` in each of `versions`, in order.
pub fn purls_for_versions(purl: &Purl, versions: Vec<String>) -> (r: Vec<Purl>)
    ensures
        r@.len() == versions@.len(),
        forall|i: int|
            0 <= i < r@.len() ==> (#[trigger] r@[i])@ == (PurlView {
                version: versions@[i]@,
                ..purl@
            }),
{
    let mut out: Vec<Purl> = Vec::new();
    let mut i: usize = 0;
    while i < versions.len()
        invariant
            i <= versions.len(),
            out@.len() == i,
            forall|k: int|
                0 <= k < i ==> (#[trigger] out@[k])@ == (PurlView {
                    version: versions@[k]@,
                    ..purl@
                }),
        decreases versions.len() - i,
    {
        out.push(
            Purl {
                package: purl.package.clone(),
                group_id: purl.group_id.clone(),
                artifact_id: purl.artifact_id.clone(),
                version: versions[i].clone(),
                purl_type: purl.purl_type.clone(),
            },
        );
        i += 1;
    }
    out
}

} // verus!
