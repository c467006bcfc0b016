//! The parsers of the manifests of each ecosystem, and the choice among
//! them by the path of the document.

pub mod cargo;
pub mod maven;
pub mod project;

use crate::common::{
    closure_views, parser_not_found, self_including, ParseContent, VulnLspError,
};
use crate::parsers::cargo::metadata::Metadata;
use crate::parsers::cargo::{cargo_parsed, Cargo};
use crate::parsers::maven::pom::Dependency;
use crate::parsers::maven::{maven_parsed, Maven};
use crate::text::spec_ends_with;
use vstd::prelude::*;

verus! {

/// The ecosystems whose manifests are read.
#[derive(Clone, Copy, Debug, PartialEq, Eq, Structural)]
pub enum Ecosystem {
    Cargo,
    Maven,
}

/// What the build tool of a project gave.
#[derive(Debug)]
pub enum BuildReport {
    /// The build tool was not run, or it failed, or what it gave could not
    /// be read.
    Missing,
    /// What `cargo metadata` reported.
    CargoMetadata(Metadata),
    /// What `mvn dependency:tree -DoutputType=dot` printed.
    MavenTree(String),
}

/// The parsers, in the order in which they are tried.
pub struct ParserManager {
    cargo: Cargo,
    maven: Maven,
}

/// The parser for the document at `path`: the first that handles it.
pub open spec fn parser_for(path: Seq<char>) -> Option<Ecosystem> {
    if spec_ends_with(path, "Cargo.toml"@) {
        Some(Ecosystem::Cargo)
    } else if spec_ends_with(path, "pom.xml"@) {
        Some(Ecosystem::Maven)
    } else {
        None
    }
}

/// The report of `cargo metadata` in `report`, if it holds one.
pub open spec fn cargo_report(report: BuildReport) -> Option<Metadata> {
    match report {
        BuildReport::CargoMetadata(m) => Some(m),
        _ => None,
    }
}

/// The output of `mvn dependency:tree` in `report`, if it holds one.
pub open spec fn maven_report(report: BuildReport) -> Option<String> {
    match report {
        BuildReport::MavenTree(s) => Some(s),
        _ => None,
    }
}

/// Whether `r` is what reading the document at `path` gives: the content
/// that the first parser for the path reads, or its error; without a parser
/// for the path, an error.
pub open spec fn manager_parsed(
    include_transitives: bool,
    path: Seq<char>,
    document: Seq<char>,
    decoded: Seq<Option<Dependency>>,
    report: BuildReport,
    r: Result<ParseContent, VulnLspError>,
) -> bool {
    match parser_for(path) {
        Some(Ecosystem::Cargo) => cargo_parsed(
            include_transitives,
            document,
            cargo_report(report),
            r,
        ),
        Some(Ecosystem::Maven) => maven_parsed(
            include_transitives,
            document,
            decoded,
            maven_report(report),
            r,
        ),
        None => r matches Err(e) && e@ == parser_not_found(path),
    }
}

impl ParserManager {
    pub fn new(include_transitives: bool) -> (m: Self)
        ensures
            m.resolves_transitives() == include_transitives,
    {
        Self { cargo: Cargo::new(include_transitives), maven: Maven::new(include_transitives) }
    }

    #[verifier::type_invariant]
    spec fn same_mode(&self) -> bool {
        self.cargo.resolves_transitives() == self.maven.resolves_transitives()
    }

    /// Whether the build tools are asked for what the dependencies pull in.
    pub closed spec fn resolves_transitives(&self) -> bool {
        self.cargo.resolves_transitives()
    }

    /// Whether the build tools are asked for what the dependencies pull in.
    /// Where they are not, every closure of a content holds its dependency
    /// alone, and no build report is looked at.
    pub fn includes_transitives(&self) -> (b: bool)
        ensures
            b == self.resolves_transitives(),
    {
        self.cargo.includes_transitives()
    }

    /// The parser that handles the document at `path`.
    pub fn find_parser(&self, path: &str) -> (r: Option<Ecosystem>)
        ensures
            r == parser_for(path@),
    {
        if self.cargo.can_parse(path) {
            Some(Ecosystem::Cargo)
        } else if self.maven.can_parse(path) {
            Some(Ecosystem::Maven)
        } else {
            None
        }
    }

    /// The content of the document at `path`, read by the first parser that
    /// handles the path; without such a parser, an error. `decoded` holds
    /// the records of the blocks of a `pom.xml`, `report` what the build
    /// tool of the project gave.
    pub fn parse(
        &self,
        path: &str,
        document: &str,
        decoded: &Vec<Option<Dependency>>,
        report: BuildReport,
    ) -> (r: Result<ParseContent, VulnLspError>)
        ensures
            manager_parsed(self.resolves_transitives(), path@, document@, decoded@, report, r),
            r matches Ok(content) ==> self_including(closure_views(content.transitives@)),
    {
        proof {
            use_type_invariant(self);
        }
        match self.find_parser(path) {
            Some(Ecosystem::Cargo) => {
                let metadata = match report {
                    BuildReport::CargoMetadata(m) => Some(m),
                    _ => None,
                };
                self.cargo.parse(document, metadata)
            },
            Some(Ecosystem::Maven) => {
                let output = match report {
                    BuildReport::MavenTree(s) => Some(s),
                    _ => None,
                };
                self.maven.parse(document, decoded, output)
            },
            None => Err(VulnLspError::ParserNotFound(path.to_owned())),
        }
    }
}

} // verus!
