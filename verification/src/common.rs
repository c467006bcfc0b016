//! What the parsers hand on: where each dependency is declared, what each
//! one pulls in, and the errors of the pipeline.

use crate::key_map::{lemma_position_from, position_from, with_entry, PurlMap};
use crate::purl::{purl_views, Purl, PurlView};
use crate::range::Range;
use crate::text::append_str;
use crate::text::string_of;
use vstd::prelude::*;

verus! {

/// Where each declared dependency stands in its manifest.
pub type MetadataDependencies = PurlMap<Range>;

/// What each direct dependency pulls in, itself included.
pub type BuildDependencies = PurlMap<Vec<Purl>>;

/// The result of parsing one manifest.
pub struct ParseContent {
    pub ranges: MetadataDependencies,
    pub transitives: BuildDependencies,
}

/// The closures of `s` as sequences of views.
pub open spec fn closure_views(s: Seq<(PurlView, Vec<Purl>)>) -> Seq<(PurlView, Seq<PurlView>)> {
    Seq::new(s.len(), |i: int| (s[i].0, purl_views(s[i].1@)))
}

/// A key stands at the same place among the closures and among their views.
pub proof fn lemma_closure_position(s: Seq<(PurlView, Vec<Purl>)>, k: PurlView, from: int)
    requires
        0 <= from,
    ensures
        position_from(closure_views(s), k, from) == position_from(s, k, from),
    decreases s.len() - from,
{
    if from < s.len() && s[from].0 != k {
        lemma_closure_position(s, k, from + 1);
    }
}

/// A new entry among the closures is a new entry among their views.
pub proof fn lemma_closure_entry(s: Seq<(PurlView, Vec<Purl>)>, k: PurlView, v: Vec<Purl>)
    ensures
        closure_views(with_entry(s, k, v)) == with_entry(closure_views(s), k, purl_views(v@)),
{
    lemma_closure_position(s, k, 0);
    lemma_position_from(s, k, 0);
    assert(closure_views(with_entry(s, k, v)) =~= with_entry(
        closure_views(s),
        k,
        purl_views(v@),
    ));
}

/// Whether each closure holds the package whose closure it is.
pub open spec fn self_including(s: Seq<(PurlView, Seq<PurlView>)>) -> bool {
    forall|i: int| 0 <= i < s.len() ==> (#[trigger] s[i]).1.contains(s[i].0)
}

/// A closure that holds its own package can be entered among closures that
/// hold theirs.
pub proof fn lemma_entry_self_including(
    s: Seq<(PurlView, Seq<PurlView>)>,
    k: PurlView,
    c: Seq<PurlView>,
)
    requires
        self_including(s),
        c.contains(k),
    ensures
        self_including(with_entry(s, k, c)),
{
    let t = with_entry(s, k, c);
    lemma_position_from(s, k, 0);
    assert forall|i: int| 0 <= i < t.len() implies (#[trigger] t[i]).1.contains(t[i].0) by {
        if i < s.len() && t[i] == s[i] {
            assert(s[i].1.contains(s[i].0));
        }
    }
}

/// What can go wrong between a manifest and its diagnostics.
#[derive(Debug)]
pub enum VulnLspError {
    /// No parser handles the document at this path.
    ParserNotFound(String),
    /// The manifest could not be read for dependency declarations at all.
    ManifestParse(String),
    /// The build tool failed, or its output could not be read.
    BuildDependency(String),
    /// A request to the vulnerability database could not be sent.
    ServerRequest(String),
    /// The answer of the vulnerability database could not be read.
    ServerParse,
    /// The vulnerability database failed.
    ServerError(String),
}

/// An error with what it carries as a sequence of characters.
pub enum VulnLspErrorView {
    ParserNotFound(Seq<char>),
    ManifestParse(Seq<char>),
    BuildDependency(Seq<char>),
    ServerRequest(Seq<char>),
    ServerParse,
    ServerError(Seq<char>),
}

impl View for VulnLspError {
    type V = VulnLspErrorView;

    open spec fn view(&self) -> VulnLspErrorView {
        match self {
            VulnLspError::ParserNotFound(path) => VulnLspErrorView::ParserNotFound(path@),
            VulnLspError::ManifestParse(what) => VulnLspErrorView::ManifestParse(what@),
            VulnLspError::BuildDependency(what) => VulnLspErrorView::BuildDependency(what@),
            VulnLspError::ServerRequest(url) => VulnLspErrorView::ServerRequest(url@),
            VulnLspError::ServerParse => VulnLspErrorView::ServerParse,
            VulnLspError::ServerError(what) => VulnLspErrorView::ServerError(what@),
        }
    }
}

/// The error of a document for which there is no parser: it carries the
/// path of the document.
pub open spec fn parser_not_found(path: Seq<char>) -> VulnLspErrorView {
    VulnLspErrorView::ParserNotFound(path)
}

/// The error of a `Cargo.toml` that cannot be read.
pub open spec fn manifest_failure() -> VulnLspErrorView {
    VulnLspErrorView::ManifestParse("Failed to parse Cargo.toml"@)
}

/// The error of a report of `cargo metadata` that is missing or describes
/// no build graph.
pub open spec fn cargo_failure() -> VulnLspErrorView {
    VulnLspErrorView::BuildDependency("Error generating cargo metadata"@)
}

/// The error of an output of `mvn dependency:tree` that is missing or
/// describes no build graph.
pub open spec fn maven_failure() -> VulnLspErrorView {
    VulnLspErrorView::BuildDependency("Error parsing dependency:tree call"@)
}

/// The error of a refill of which a request failed.
pub open spec fn batch_failure() -> VulnLspErrorView {
    VulnLspErrorView::ServerError("Error requesting batches"@)
}

impl VulnLspError {
    /// The message of the error.
    pub open spec fn message_spec(&self) -> Seq<char> {
        match self {
            VulnLspError::ParserNotFound(path) => "Parser not found for "@ + path@,
            VulnLspError::ManifestParse(what) => "Error parsing "@ + what@,
            VulnLspError::BuildDependency(what) => "Error generating dependencies "@ + what@,
            VulnLspError::ServerRequest(url) => "Error sending "@ + url@
                + " request to backend"@,
            VulnLspError::ServerParse => "Error parsing backend response"@,
            VulnLspError::ServerError(what) => "Server error "@ + what@,
        }
    }

    pub fn message(&self) -> (s: String)
        ensures
            s@ == self.message_spec(),
    {
        let mut out: Vec<char> = Vec::new();
        match self {
            VulnLspError::ParserNotFound(path) => {
                append_str(&mut out, "Parser not found for ");
                append_str(&mut out, path.as_str());
            },
            VulnLspError::ManifestParse(what) => {
                append_str(&mut out, "Error parsing ");
                append_str(&mut out, what.as_str());
            },
            VulnLspError::BuildDependency(what) => {
                append_str(&mut out, "Error generating dependencies ");
                append_str(&mut out, what.as_str());
            },
            VulnLspError::ServerRequest(url) => {
                append_str(&mut out, "Error sending ");
                append_str(&mut out, url.as_str());
                append_str(&mut out, " request to backend");
            },
            VulnLspError::ServerParse => {
                append_str(&mut out, "Error parsing backend response");
            },
            VulnLspError::ServerError(what) => {
                append_str(&mut out, "Server error ");
                append_str(&mut out, what.as_str());
            },
        }
        string_of(&out)
    }
}

} // verus!
