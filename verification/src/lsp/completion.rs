//! The texts of a completion item for one version of a package.

use crate::server::{
    Severity, VulnerabilityInformationView, VulnerabilityVersionInfo,
    VulnerabilityVersionInfoView,
};
use crate::text::{append_str, chars_of, string_of};
use vstd::prelude::*;

verus! {

/// The summaries of `findings`, each behind an empty line.
pub open spec fn summaries_spec(findings: Seq<VulnerabilityInformationView>) -> Seq<char>
    decreases findings.len(),
{
    if findings.len() == 0 {
        Seq::empty()
    } else {
        summaries_spec(findings.drop_last()) + "\n\n"@ + findings.last().summary
    }
}

/// The details of `findings`, each behind an empty line.
pub open spec fn details_spec(findings: Seq<VulnerabilityInformationView>) -> Seq<char>
    decreases findings.len(),
{
    if findings.len() == 0 {
        Seq::empty()
    } else {
        details_spec(findings.drop_last()) + "\n\n"@ + findings.last().detail
    }
}

/// The gravest severity among `findings`; none where there are no findings.
pub open spec fn highest_spec(findings: Seq<VulnerabilityInformationView>) -> Severity
    decreases findings.len(),
{
    if findings.len() == 0 {
        Severity::NoSeverity
    } else {
        let before = highest_spec(findings.drop_last());
        if findings.last().severity.rank() > before.rank() {
            findings.last().severity
        } else {
            before
        }
    }
}

/// The gravest severity is that of a finding, unless there is none, and no
/// finding is graver.
pub proof fn law_highest(findings: Seq<VulnerabilityInformationView>)
    ensures
        forall|i: int|
            0 <= i < findings.len() ==> (#[trigger] findings[i]).severity.rank() <= highest_spec(
                findings,
            ).rank(),
        findings.len() > 0 ==> exists|i: int|
            0 <= i < findings.len() && (#[trigger] findings[i]).severity == highest_spec(findings),
    decreases findings.len(),
{
    if findings.len() > 0 {
        let front = findings.drop_last();
        law_highest(front);
        assert forall|i: int| 0 <= i < findings.len() implies (
        #[trigger] findings[i]).severity.rank() <= highest_spec(findings).rank() by {
            if i < front.len() {
                assert(findings[i] == front[i]);
            }
        }
        if findings.last().severity.rank() > highest_spec(front).rank() || front.len() == 0 {
            assert(findings[findings.len() - 1].severity == highest_spec(findings));
        } else {
            let i = choose|i: int|
                0 <= i < front.len() && (#[trigger] front[i]).severity == highest_spec(front);
            assert(findings[i] == front[i]);
        }
    }
}

/// The text of the documentation of a version: its gravest severity, then
/// the summaries, then the details.
pub open spec fn value_spec(value: VulnerabilityVersionInfoView) -> Seq<char> {
    value.purl.version + " has highest severity of "@ + severity_name(
        highest_spec(value.vulnerabilities),
    ) + "\n\n"@ + "\n"@ + summaries_spec(value.vulnerabilities) + "\n"@ + details_spec(
        value.vulnerabilities,
    )
}

/// The name of a severity.
pub open spec fn severity_name(s: Severity) -> Seq<char> {
    match s {
        Severity::Critical => "Critical"@,
        Severity::High => "High"@,
        Severity::Medium => "Medium"@,
        Severity::Low => "Low"@,
        Severity::NoSeverity => "None"@,
    }
}

/// The summaries of the findings of a version.
pub fn build_summary(value: &VulnerabilityVersionInfo) -> (r: String)
    ensures
        r@ == summaries_spec(value@.vulnerabilities),
{
    format_summary(value)
}

/// The summaries of the findings of a version, each behind an empty line.
pub fn format_summary(value: &VulnerabilityVersionInfo) -> (r: String)
    ensures
        r@ == summaries_spec(value@.vulnerabilities),
{
    let mut out: Vec<char> = Vec::new();
    let ghost fs = value@.vulnerabilities;
    let mut i: usize = 0;
    assert(fs.take(0) == Seq::<VulnerabilityInformationView>::empty());
    while i < value.vulnerabilities.len()
        invariant
            i <= value.vulnerabilities.len(),
            fs == value@.vulnerabilities,
            out@ == summaries_spec(fs.take(i as int)),
        decreases value.vulnerabilities.len() - i,
    {
        assert(fs.take(i as int + 1).drop_last() == fs.take(i as int));
        assert(fs.take(i as int + 1).last() == value.vulnerabilities@[i as int]@);
        append_str(&mut out, "\n\n");
        append_str(&mut out, value.vulnerabilities[i].summary.as_str());
        i += 1;
    }
    assert(fs.take(value.vulnerabilities.len() as int) == fs);
    string_of(&out)
}

/// The details of the findings of a version, each behind an empty line.
pub fn format_detail(value: &VulnerabilityVersionInfo) -> (r: String)
    ensures
        r@ == details_spec(value@.vulnerabilities),
{
    let mut out: Vec<char> = Vec::new();
    let ghost fs = value@.vulnerabilities;
    let mut i: usize = 0;
    assert(fs.take(0) == Seq::<VulnerabilityInformationView>::empty());
    while i < value.vulnerabilities.len()
        invariant
            i <= value.vulnerabilities.len(),
            fs == value@.vulnerabilities,
            out@ == details_spec(fs.take(i as int)),
        decreases value.vulnerabilities.len() - i,
    {
        assert(fs.take(i as int + 1).drop_last() == fs.take(i as int));
        assert(fs.take(i as int + 1).last() == value.vulnerabilities@[i as int]@);
        append_str(&mut out, "\n\n");
        append_str(&mut out, value.vulnerabilities[i].detail.as_str());
        i += 1;
    }
    assert(fs.take(value.vulnerabilities.len() as int) == fs);
    string_of(&out)
}

/// The gravest severity among the findings of a version.
pub fn highlight_severity(value: &VulnerabilityVersionInfo) -> (s: Severity)
    ensures
        s == highest_spec(value@.vulnerabilities),
{
    let mut best = Severity::NoSeverity;
    let ghost fs = value@.vulnerabilities;
    let mut i: usize = 0;
    assert(fs.take(0) == Seq::<VulnerabilityInformationView>::empty());
    while i < value.vulnerabilities.len()
        invariant
            i <= value.vulnerabilities.len(),
            fs == value@.vulnerabilities,
            best == highest_spec(fs.take(i as int)),
        decreases value.vulnerabilities.len() - i,
    {
        assert(fs.take(i as int + 1).drop_last() == fs.take(i as int));
        assert(fs.take(i as int + 1).last() == value.vulnerabilities@[i as int]@);
        if value.vulnerabilities[i].severity.level() > best.level() {
            best = value.vulnerabilities[i].severity;
        }
        i += 1;
    }
    assert(fs.take(value.vulnerabilities.len() as int) == fs);
    best
}

/// The text of the documentation of a version.
pub fn format_value(value: &VulnerabilityVersionInfo) -> (r: String)
    ensures
        r@ == value_spec(value@),
{
    let mut out = chars_of(value.purl.version.as_str());
    append_str(&mut out, " has highest severity of ");
    let highest = highlight_severity(value);
    append_str(&mut out, highest.name());
    append_str(&mut out, "\n\n");
    append_str(&mut out, "\n");
    append_str(&mut out, format_summary(value).as_str());
    append_str(&mut out, "\n");
    append_str(&mut out, format_detail(value).as_str());
    string_of(&out)
}

} // verus!
