//! What a vulnerability database reports about a package.

pub mod dummy;
pub mod ossindex;
pub mod sonatype;

use crate::purl::{Purl, PurlView};
use vstd::prelude::*;

verus! {

/// Which vulnerability database is asked.
#[derive(Debug)]
pub enum VulnerableServerType {
    Dummy,
    OssIndex,
    Sonatype { base_url: String },
}

/// How grave a finding is. The order is
/// `Critical > High > Medium > Low > NoSeverity`.
#[derive(Clone, Copy, Debug, PartialEq, Eq, Hash, Structural)]
pub enum Severity {
    Critical,
    High,
    Medium,
    Low,
    /// No severity at all: the least of the order.
    NoSeverity,
}

impl Severity {
    /// The place of a severity in the order: the graver, the greater.
    pub open spec fn rank(self) -> int {
        match self {
            Severity::Critical => 4,
            Severity::High => 3,
            Severity::Medium => 2,
            Severity::Low => 1,
            Severity::NoSeverity => 0,
        }
    }

    pub fn level(&self) -> (n: u8)
        ensures
            n == self.rank(),
    {
        match self {
            Severity::Critical => 4,
            Severity::High => 3,
            Severity::Medium => 2,
            Severity::Low => 1,
            Severity::NoSeverity => 0,
        }
    }

    /// Whether `self` is at least as grave as `other`.
    pub fn at_least(&self, other: &Severity) -> (b: bool)
        ensures
            b == (self.rank() >= other.rank()),
    {
        self.level() >= other.level()
    }

    /// The name of the severity, as it is shown to the user.
    pub fn name(&self) -> (s: &'static str)
        ensures
            s@ == (match self {
                Severity::Critical => "Critical"@,
                Severity::High => "High"@,
                Severity::Medium => "Medium"@,
                Severity::Low => "Low"@,
                Severity::NoSeverity => "None"@,
            }),
    {
        match self {
            Severity::Critical => "Critical",
            Severity::High => "High",
            Severity::Medium => "Medium",
            Severity::Low => "Low",
            Severity::NoSeverity => "None",
        }
    }
}

/// A licence that a finding names.
#[derive(Debug)]
pub struct License {
    pub title: String,
    pub description: String,
}

pub struct LicenseView {
    pub title: Seq<char>,
    pub description: Seq<char>,
}

impl View for License {
    type V = LicenseView;

    open spec fn view(&self) -> LicenseView {
        LicenseView { title: self.title@, description: self.description@ }
    }
}

impl Clone for License {
    fn clone(&self) -> (r: Self)
        ensures
            r == *self,
    {
        License { title: self.title.clone(), description: self.description.clone() }
    }
}

/// One finding about a package.
#[derive(Debug)]
pub struct VulnerabilityInformation {
    pub severity: Severity,
    pub summary: String,
    pub detail: String,
    pub license: Vec<License>,
}

pub struct VulnerabilityInformationView {
    pub severity: Severity,
    pub summary: Seq<char>,
    pub detail: Seq<char>,
    pub license: Seq<LicenseView>,
}

impl View for VulnerabilityInformation {
    type V = VulnerabilityInformationView;

    open spec fn view(&self) -> VulnerabilityInformationView {
        VulnerabilityInformationView {
            severity: self.severity,
            summary: self.summary@,
            detail: self.detail@,
            license: self.license@.map_values(|l: License| l@),
        }
    }
}

impl Clone for VulnerabilityInformation {
    fn clone(&self) -> (r: Self)
        ensures
            r@ == self@,
    {
        let mut license: Vec<License> = Vec::new();
        let mut i: usize = 0;
        while i < self.license.len()
            invariant
                i <= self.license.len(),
                license@ == self.license@.take(i as int),
            decreases self.license.len() - i,
        {
            license.push(self.license[i].clone());
            assert(self.license@.take(i as int + 1) == self.license@.take(i as int).push(
                self.license@[i as int],
            ));
            i += 1;
        }
        assert(self.license@.take(self.license.len() as int) == self.license@);
        VulnerabilityInformation {
            severity: self.severity,
            summary: self.summary.clone(),
            detail: self.detail.clone(),
            license,
        }
    }
}

/// The findings about one package version.
#[derive(Debug)]
pub struct VulnerabilityVersionInfo {
    pub purl: Purl,
    pub vulnerabilities: Vec<VulnerabilityInformation>,
}

pub struct VulnerabilityVersionInfoView {
    pub purl: PurlView,
    pub vulnerabilities: Seq<VulnerabilityInformationView>,
}

/// The views of the findings of `v`, in order.
pub open spec fn finding_views(v: Seq<VulnerabilityInformation>) -> Seq<
    VulnerabilityInformationView,
> {
    v.map_values(|f: VulnerabilityInformation| f@)
}

impl View for VulnerabilityVersionInfo {
    type V = VulnerabilityVersionInfoView;

    open spec fn view(&self) -> VulnerabilityVersionInfoView {
        VulnerabilityVersionInfoView {
            purl: self.purl@,
            vulnerabilities: finding_views(self.vulnerabilities@),
        }
    }
}

impl Clone for VulnerabilityVersionInfo {
    fn clone(&self) -> (r: Self)
        ensures
            r@ == self@,
    {
        let mut vulnerabilities: Vec<VulnerabilityInformation> = Vec::new();
        let mut i: usize = 0;
        while i < self.vulnerabilities.len()
            invariant
                i <= self.vulnerabilities.len(),
                vulnerabilities@.len() == i,
                forall|j: int| 0 <= j < i ==> vulnerabilities@[j]@ == self.vulnerabilities@[j]@,
            decreases self.vulnerabilities.len() - i,
        {
            vulnerabilities.push(self.vulnerabilities[i].clone());
            i += 1;
        }
        assert(finding_views(vulnerabilities@) =~= finding_views(self.vulnerabilities@));
        VulnerabilityVersionInfo { purl: self.purl.clone(), vulnerabilities }
    }
}

} // verus!
