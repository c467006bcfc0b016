//! The text that is shown over the declaration of a dependency.

use crate::lsp::completion::severity_name;
use crate::purl::{encode_spec, Purl, PurlView};
use crate::server::{VulnerabilityInformation, VulnerabilityInformationView};
use crate::text::{append_str, chars_of, string_of};
use vstd::prelude::*;

verus! {

/// What stands between the lines of a hover: a line feed and the indent of
/// the next line.
pub open spec fn line_break() -> Seq<char> {
    "\n                "@
}

/// The text of a hover: the declared package, the package that brings the
/// finding in where it is another one, the severity, the summary and the
/// detail, each on a line of its own.
pub open spec fn hover_spec(
    direct: PurlView,
    transitive: Option<PurlView>,
    information: VulnerabilityInformationView,
) -> Seq<char> {
    "Direct: "@ + encode_spec(direct) + line_break() + (match transitive {
        Some(t) => "brings in: "@ + encode_spec(t) + line_break(),
        None => Seq::empty(),
    }) + "Severity: "@ + severity_name(information.severity) + line_break()
        + information.summary + line_break() + information.detail + line_break()
}

/// The package that is named as the source of a finding: none where the
/// finding is about the declared package itself.
pub open spec fn source_spec(direct: PurlView, source: PurlView) -> Option<PurlView> {
    if direct == source {
        None
    } else {
        Some(source)
    }
}

/// The package that a hover names as the source of a finding.
pub fn hover_source(direct: &Purl, source: Purl) -> (r: Option<Purl>)
    ensures
        match r {
            Some(p) => source_spec(direct@, source@) == Some(p@),
            None => source_spec(direct@, source@) is None,
        },
{
    if *direct == source {
        None
    } else {
        Some(source)
    }
}

/// The text of the hover over the declaration of `direct`.
pub fn create_hover_message(
    direct: &Purl,
    transitive: Option<Purl>,
    component_info: VulnerabilityInformation,
) -> (r: String)
    ensures
        r@ == hover_spec(
            direct@,
            match transitive {
                Some(t) => Some(t@),
                None => None,
            },
            component_info@,
        ),
{
    let mut out = chars_of("Direct: ");
    append_str(&mut out, direct.to_string().as_str());
    append_str(&mut out, "\n                ");
    match &transitive {
        Some(t) => {
            append_str(&mut out, "brings in: ");
            append_str(&mut out, t.to_string().as_str());
            append_str(&mut out, "\n                ");
        },
        None => {},
    }
    append_str(&mut out, "Severity: ");
    append_str(&mut out, component_info.severity.name());
    append_str(&mut out, "\n                ");
    append_str(&mut out, component_info.summary.as_str());
    append_str(&mut out, "\n                ");
    append_str(&mut out, component_info.detail.as_str());
    append_str(&mut out, "\n                ");
    string_of(&out)
}

} // verus!
