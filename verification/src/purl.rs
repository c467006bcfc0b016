//! Package identity: the five fields that name one version of one package,
//! and their canonical textual form
//! `pkg:<package>/[<group>/]<artifact>@<version>[?type=<type>]`.

use crate::text::{
    append, append_str, chars_of, free_of, lemma_free_of_concat, lemma_split_join,
    lemma_split_whole, slice_of, spec_split, spec_starts_with, split, starts_with, string_of,
};
use vstd::prelude::*;
use vstd::std_specs::cmp::PartialEqSpecImpl;

verus! {

/// The identity of a package version.
#[derive(Debug, Eq, Hash)]
pub struct Purl {
    /// The ecosystem, such as `maven`, `cargo` or `npm`.
    pub package: String,
    /// The namespace: a Maven group id, an npm scope.
    pub group_id: Option<String>,
    pub artifact_id: String,
    pub version: String,
    /// The artifact type, such as `jar`.
    pub purl_type: Option<String>,
}

/// A `Purl` as plain sequences of characters.
pub struct PurlView {
    pub package: Seq<char>,
    pub group_id: Option<Seq<char>>,
    pub artifact_id: Seq<char>,
    pub version: Seq<char>,
    pub purl_type: Option<Seq<char>>,
}

/// Why a text is not a canonical package identity.
#[derive(Clone, Copy, Debug, PartialEq, Eq, Structural)]
pub enum PurlDecodeError {
    /// The text has fewer than two or more than three `/`-separated segments.
    InvalidPurl,
    /// The first segment does not begin with `pkg:`.
    InvalidPrefix,
    /// The last segment does not hold exactly one `@`.
    VersionNotFound,
}

pub open spec fn opt_view(o: Option<String>) -> Option<Seq<char>> {
    match o {
        Some(s) => Some(s@),
        None => None,
    }
}

impl View for Purl {
    type V = PurlView;

    open spec fn view(&self) -> PurlView {
        PurlView {
            package: self.package@,
            group_id: opt_view(self.group_id),
            artifact_id: self.artifact_id@,
            version: self.version@,
            purl_type: opt_view(self.purl_type),
        }
    }
}

/// The views of the identities of `s`, in order.
pub open spec fn purl_views(s: Seq<Purl>) -> Seq<PurlView> {
    crate::graph::node_views(s)
}

/// The characters that mark a version range in a manifest and are no part of
/// a version.
pub open spec fn is_comparator(c: char) -> bool {
    c == '=' || c == '>' || c == '<' || c == '~' || c == ' '
}

/// `s` without its comparator characters.
pub open spec fn normalize_version(s: Seq<char>) -> Seq<char>
    decreases s.len(),
{
    if s.len() == 0 {
        Seq::empty()
    } else if is_comparator(s.last()) {
        normalize_version(s.drop_last())
    } else {
        normalize_version(s.drop_last()).push(s.last())
    }
}

/// The version of a package whose declaration gives none.
pub const UNKNOWN_VERSION: &'static str = "0";

/// The version of a package whose declaration gives none.
pub open spec fn unknown_version() -> Seq<char> {
    "0"@
}

pub open spec fn pkg_prefix() -> Seq<char> {
    seq!['p', 'k', 'g', ':']
}

pub open spec fn type_prefix() -> Seq<char> {
    seq!['t', 'y', 'p', 'e', '=']
}

pub open spec fn type_marker() -> Seq<char> {
    seq!['?', 't', 'y', 'p', 'e', '=']
}

/// The canonical text of a package identity.
pub open spec fn encode_spec(p: PurlView) -> Seq<char> {
    pkg_prefix() + p.package + seq!['/'] + (match p.group_id {
        Some(g) => g + seq!['/'],
        None => Seq::empty(),
    }) + p.artifact_id + seq!['@'] + p.version + (match p.purl_type {
        Some(t) => type_marker() + t,
        None => Seq::empty(),
    })
}

/// The first of `pieces`, from index `from` on, that begins with `type=`,
/// without that prefix.
pub open spec fn first_type(pieces: Seq<Seq<char>>, from: int) -> Option<Seq<char>>
    decreases pieces.len() - from,
{
    if from < 0 || from >= pieces.len() {
        None
    } else if spec_starts_with(pieces[from], type_prefix()) {
        Some(pieces[from].skip(5))
    } else {
        first_type(pieces, from + 1)
    }
}

/// The value of the first `type=` qualifier among the `&`-separated
/// qualifiers.
pub open spec fn find_package_type_spec(qualifiers: Seq<char>) -> Option<Seq<char>> {
    first_type(spec_split(qualifiers, '&'), 0)
}

/// What a text decodes to: the segments between `/` give the package behind
/// `pkg:`, the group where there are three of them, and `artifact@version`;
/// the version ends at the first `?` and loses its comparator characters; the
/// text between the first and the second `?` is searched for a `type=`
/// qualifier.
pub open spec fn decode_spec(s: Seq<char>) -> Result<PurlView, PurlDecodeError> {
    let parts = spec_split(s, '/');
    if parts.len() != 2 && parts.len() != 3 {
        Err(PurlDecodeError::InvalidPurl)
    } else if !spec_starts_with(parts[0], pkg_prefix()) {
        Err(PurlDecodeError::InvalidPrefix)
    } else {
        let pair = spec_split(parts[parts.len() - 1], '@');
        if pair.len() != 2 {
            Err(PurlDecodeError::VersionNotFound)
        } else {
            let tail = spec_split(pair[1], '?');
            Ok(
                PurlView {
                    package: parts[0].skip(4),
                    group_id: if parts.len() == 3 {
                        Some(parts[1])
                    } else {
                        None
                    },
                    artifact_id: pair[0],
                    version: normalize_version(tail[0]),
                    purl_type: if tail.len() >= 2 {
                        find_package_type_spec(tail[1])
                    } else {
                        None
                    },
                },
            )
        }
    }
}

fn is_comparator_char(c: char) -> (b: bool)
    ensures
        b == is_comparator(c),
{
    c == '=' || c == '>' || c == '<' || c == '~' || c == ' '
}

/// `version` without the characters `=`, `>`, `<`, `~` and the space.
pub fn strip_comparators(version: &Vec<char>) -> (r: Vec<char>)
    ensures
        r@ == normalize_version(version@),
{
    let mut r: Vec<char> = Vec::new();
    let mut i: usize = 0;
    assert(version@.take(0) == Seq::<char>::empty());
    while i < version.len()
        invariant
            i <= version.len(),
            r@ == normalize_version(version@.take(i as int)),
        decreases version.len() - i,
    {
        let c = version[i];
        assert(version@.take(i as int + 1).drop_last() == version@.take(i as int));
        if !is_comparator_char(c) {
            r.push(c);
        }
        i += 1;
    }
    assert(version@.take(version.len() as int) == version@);
    r
}

/// The value of the first `type=` qualifier in `qualifiers`.
pub fn find_package_type(qualifiers: &Vec<char>) -> (r: Option<Vec<char>>)
    ensures
        match r {
            Some(t) => find_package_type_spec(qualifiers@) == Some(t@),
            None => find_package_type_spec(qualifiers@) is None,
        },
{
    let pieces = split(qualifiers, '&');
    let prefix: Vec<char> = vec!['t', 'y', 'p', 'e', '='];
    assert(prefix@ == type_prefix());
    let mut i: usize = 0;
    while i < pieces.len()
        invariant
            i <= pieces.len(),
            prefix@ == type_prefix(),
            crate::text::views(pieces@) == spec_split(qualifiers@, '&'),
            first_type(spec_split(qualifiers@, '&'), 0) == first_type(
                spec_split(qualifiers@, '&'),
                i as int,
            ),
        decreases pieces.len() - i,
    {
        assert(crate::text::views(pieces@)[i as int] == pieces@[i as int]@);
        if starts_with(&pieces[i], &prefix) {
            let t = slice_of(&pieces[i], 5, pieces[i].len());
            return Some(t);
        }
        i += 1;
    }
    None
}

/// The package type behind the `pkg:` prefix of the first segment.
pub fn extract_package_type(package: &Vec<char>) -> (r: Result<Vec<char>, PurlDecodeError>)
    ensures
        match r {
            Ok(t) => spec_starts_with(package@, pkg_prefix()) && t@ == package@.skip(4),
            Err(e) => !spec_starts_with(package@, pkg_prefix()) && e
                == PurlDecodeError::InvalidPrefix,
        },
{
    let prefix: Vec<char> = vec!['p', 'k', 'g', ':'];
    assert(prefix@ == pkg_prefix());
    if !starts_with(package, &prefix) {
        return Err(PurlDecodeError::InvalidPrefix);
    }
    Ok(slice_of(package, 4, package.len()))
}

fn clone_opt(o: &Option<String>) -> (r: Option<String>)
    ensures
        r == *o,
{
    match o {
        Some(s) => Some(s.clone()),
        None => None,
    }
}

fn same_opt(a: &Option<String>, b: &Option<String>) -> (r: bool)
    ensures
        r == (opt_view(*a) == opt_view(*b)),
{
    match (a, b) {
        (Some(x), Some(y)) => *x == *y,
        (None, None) => true,
        _ => false,
    }
}

fn same_fields(a: &Purl, b: &Purl) -> (r: bool)
    ensures
        r == (a@ == b@),
{
    a.package == b.package && same_opt(&a.group_id, &b.group_id) && a.artifact_id == b.artifact_id
        && a.version == b.version && same_opt(&a.purl_type, &b.purl_type)
}

impl Clone for Purl {
    fn clone(&self) -> (r: Self)
        ensures
            r == *self,
    {
        Purl {
            package: self.package.clone(),
            group_id: clone_opt(&self.group_id),
            artifact_id: self.artifact_id.clone(),
            version: self.version.clone(),
            purl_type: clone_opt(&self.purl_type),
        }
    }
}

impl PartialEq for Purl {
    fn eq(&self, other: &Purl) -> (r: bool) {
        same_fields(self, other)
    }
}

impl PartialEqSpecImpl for Purl {
    open spec fn obeys_eq_spec() -> bool {
        true
    }

    open spec fn eq_spec(&self, other: &Purl) -> bool {
        self@ == other@
    }
}

impl crate::graph::Node for Purl {
    fn same(&self, other: &Self) -> (b: bool) {
        same_fields(self, other)
    }

    fn duplicate(&self) -> (r: Self) {
        self.clone()
    }
}

impl Purl {
    /// Whether the version is free of comparator characters.
    pub open spec fn well_formed(&self) -> bool {
        normalize_version(self.version@) == self.version@
    }

    /// The identity with the given fields; the version loses its comparator
    /// characters.
    pub fn new(
        package: &str,
        group_id: Option<String>,
        artifact_id: &str,
        version: &str,
        purl_type: Option<String>,
    ) -> (p: Purl)
        ensures
            p@ == (PurlView {
                package: package@,
                group_id: opt_view(group_id),
                artifact_id: artifact_id@,
                version: normalize_version(version@),
                purl_type: opt_view(purl_type),
            }),
            p.well_formed(),
    {
        let stripped = strip_comparators(&chars_of(version));
        proof {
            lemma_normalize_idempotent(version@);
        }
        Purl {
            package: package.to_owned(),
            group_id,
            artifact_id: artifact_id.to_owned(),
            version: string_of(&stripped),
            purl_type,
        }
    }

    /// The canonical text of this identity.
    pub fn to_string(&self) -> (s: String)
        ensures
            s@ == encode_spec(self@),
    {
        let mut out: Vec<char> = vec!['p', 'k', 'g', ':'];
        append_str(&mut out, self.package.as_str());
        out.push('/');
        match &self.group_id {
            Some(g) => {
                append_str(&mut out, g.as_str());
                out.push('/');
            },
            None => {},
        }
        append_str(&mut out, self.artifact_id.as_str());
        out.push('@');
        append_str(&mut out, self.version.as_str());
        match &self.purl_type {
            Some(t) => {
                let marker: Vec<char> = vec!['?', 't', 'y', 'p', 'e', '='];
                append(&mut out, &marker);
                append_str(&mut out, t.as_str());
            },
            None => {},
        }
        assert(out@ == encode_spec(self@));
        string_of(&out)
    }

    /// Reads a canonical text. It has two or three segments, the first with
    /// the `pkg:` prefix, the last with exactly one `@`.
    pub fn decode(value: &str) -> (r: Result<Purl, PurlDecodeError>)
        ensures
            match r {
                Ok(p) => decode_spec(value@) == Ok::<PurlView, PurlDecodeError>(p@)
                    && p.well_formed(),
                Err(e) => decode_spec(value@) == Err::<PurlView, PurlDecodeError>(e),
            },
    {
        let text = chars_of(value);
        let parts = split(&text, '/');
        let ghost sparts = spec_split(value@, '/');
        if parts.len() != 2 && parts.len() != 3 {
            return Err(PurlDecodeError::InvalidPurl);
        }
        assert(sparts[0] == parts@[0]@);
        assert(sparts[1] == parts@[1]@);
        assert(sparts[parts.len() - 1] == parts@[parts.len() - 1]@);
        let package = match extract_package_type(&parts[0]) {
            Ok(p) => p,
            Err(e) => {
                return Err(e);
            },
        };
        let group_id = if parts.len() == 3 {
            Some(string_of(&parts[1]))
        } else {
            None
        };
        let pair = split(&parts[parts.len() - 1], '@');
        if pair.len() != 2 {
            return Err(PurlDecodeError::VersionNotFound);
        }
        let ghost spair = spec_split(sparts[parts.len() - 1], '@');
        assert(spair[0] == pair@[0]@);
        assert(spair[1] == pair@[1]@);
        let tail = split(&pair[1], '?');
        let ghost stail = spec_split(spair[1], '?');
        assert(stail[0] == tail@[0]@);
        let purl_type = if tail.len() >= 2 {
            assert(stail[1] == tail@[1]@);
            match find_package_type(&tail[1]) {
                Some(t) => Some(string_of(&t)),
                None => None,
            }
        } else {
            None
        };
        let version = strip_comparators(&tail[0]);
        proof {
            lemma_normalize_idempotent(tail@[0]@);
        }
        Ok(
            Purl {
                package: string_of(&package),
                group_id,
                artifact_id: string_of(&pair[0]),
                version: string_of(&version),
                purl_type,
            },
        )
    }
}

/// A normalized version holds no comparator character.
pub proof fn lemma_normalize_clean(s: Seq<char>)
    ensures
        forall|i: int|
            0 <= i < normalize_version(s).len() ==> !is_comparator(
                #[trigger] normalize_version(s)[i],
            ),
        normalize_version(s).len() <= s.len(),
    decreases s.len(),
{
    if s.len() > 0 {
        lemma_normalize_clean(s.drop_last());
    }
}

/// A text without comparator characters is its own normal form.
pub proof fn lemma_normalize_fixed(s: Seq<char>)
    requires
        forall|i: int| 0 <= i < s.len() ==> !is_comparator(#[trigger] s[i]),
    ensures
        normalize_version(s) == s,
    decreases s.len(),
{
    if s.len() > 0 {
        lemma_normalize_fixed(s.drop_last());
        assert(s.drop_last().push(s.last()) == s);
    }
}

/// Normalizing twice is normalizing once.
pub proof fn lemma_normalize_idempotent(s: Seq<char>)
    ensures
        normalize_version(normalize_version(s)) == normalize_version(s),
{
    lemma_normalize_clean(s);
    lemma_normalize_fixed(normalize_version(s));
}

/// Whether the fields can be told apart again in the canonical text: no `/`
/// in any of them, no `@` in the artifact, the version or the type, no `?` in
/// the version or the type, no `&` in the type.
pub open spec fn delimiter_free(p: PurlView) -> bool {
    &&& free_of(p.package, '/')
    &&& (p.group_id matches Some(g) ==> free_of(g, '/'))
    &&& free_of(p.artifact_id, '/') && free_of(p.artifact_id, '@')
    &&& free_of(p.version, '/') && free_of(p.version, '@') && free_of(p.version, '?')
    &&& (p.purl_type matches Some(t) ==> free_of(t, '/') && free_of(t, '@') && free_of(t, '?')
        && free_of(t, '&'))
}

/// `p` with its version normalized.
pub open spec fn normalized(p: PurlView) -> PurlView {
    PurlView { version: normalize_version(p.version), ..p }
}

/// The text behind the version: the type qualifier, where there is one.
pub open spec fn qualifier_text(p: PurlView) -> Seq<char> {
    match p.purl_type {
        Some(t) => type_marker() + t,
        None => Seq::empty(),
    }
}

/// The last segment of the canonical text.
pub open spec fn last_segment(p: PurlView) -> Seq<char> {
    p.artifact_id + seq!['@'] + (p.version + qualifier_text(p))
}

proof fn lemma_qualifier_free(p: PurlView, c: char)
    requires
        c == '/' || c == '@',
        p.purl_type matches Some(t) ==> free_of(t, c),
    ensures
        free_of(qualifier_text(p), c),
{
    match p.purl_type {
        Some(t) => {
            assert(free_of(type_marker(), c));
            lemma_free_of_concat(type_marker(), t, c);
        },
        None => {},
    }
}

proof fn lemma_segments(p: PurlView)
    requires
        delimiter_free(p),
    ensures
        spec_split(encode_spec(p), '/') == (match p.group_id {
            Some(g) => seq![pkg_prefix() + p.package, g, last_segment(p)],
            None => seq![pkg_prefix() + p.package, last_segment(p)],
        }),
{
    let slash = seq!['/'];
    let head = pkg_prefix() + p.package;
    let rest = last_segment(p);
    assert(free_of(pkg_prefix(), '/'));
    lemma_free_of_concat(pkg_prefix(), p.package, '/');
    lemma_qualifier_free(p, '/');
    lemma_free_of_concat(p.version, qualifier_text(p), '/');
    assert(free_of(seq!['@'], '/'));
    lemma_free_of_concat(p.artifact_id, seq!['@'], '/');
    lemma_free_of_concat(p.artifact_id + seq!['@'], p.version + qualifier_text(p), '/');
    lemma_split_whole(head, '/');
    lemma_split_whole(rest, '/');
    match p.group_id {
        Some(g) => {
            lemma_split_whole(g, '/');
            lemma_split_join(g, rest, '/');
            lemma_split_join(head, g + slash + rest, '/');
            assert(encode_spec(p) == head + slash + (g + slash + rest));
            assert(seq![head] + (seq![g] + seq![rest]) == seq![head, g, rest]);
        },
        None => {
            lemma_split_join(head, rest, '/');
            assert(encode_spec(p) == head + slash + rest);
            assert(seq![head] + seq![rest] == seq![head, rest]);
        },
    }
}

proof fn lemma_artifact_and_version(p: PurlView)
    requires
        delimiter_free(p),
    ensures
        spec_split(last_segment(p), '@') == seq![p.artifact_id, p.version + qualifier_text(p)],
{
    let after_at = p.version + qualifier_text(p);
    lemma_qualifier_free(p, '@');
    lemma_free_of_concat(p.version, qualifier_text(p), '@');
    lemma_split_whole(p.artifact_id, '@');
    lemma_split_whole(after_at, '@');
    lemma_split_join(p.artifact_id, after_at, '@');
    assert(seq![p.artifact_id] + seq![after_at] == seq![p.artifact_id, after_at]);
}

proof fn lemma_version_and_type(p: PurlView)
    requires
        delimiter_free(p),
    ensures
        spec_split(p.version + qualifier_text(p), '?')[0] == p.version,
        match p.purl_type {
            Some(t) => spec_split(p.version + qualifier_text(p), '?').len() == 2
                && find_package_type_spec(spec_split(p.version + qualifier_text(p), '?')[1])
                == Some(t),
            None => spec_split(p.version + qualifier_text(p), '?').len() == 1,
        },
{
    lemma_split_whole(p.version, '?');
    match p.purl_type {
        Some(t) => {
            let qualifier = type_prefix() + t;
            assert(qualifier_text(p) == seq!['?'] + qualifier);
            assert(p.version + qualifier_text(p) == p.version + seq!['?'] + qualifier);
            assert(free_of(type_prefix(), '?'));
            assert(free_of(type_prefix(), '&'));
            lemma_free_of_concat(type_prefix(), t, '?');
            lemma_free_of_concat(type_prefix(), t, '&');
            lemma_split_whole(qualifier, '?');
            lemma_split_join(p.version, qualifier, '?');
            assert(seq![p.version] + seq![qualifier] == seq![p.version, qualifier]);
            lemma_split_whole(qualifier, '&');
            assert(qualifier.subrange(0, 5) == type_prefix());
            assert(qualifier.skip(5) == t);
            assert(first_type(seq![qualifier], 0) == Some(t));
        },
        None => {
            assert(p.version + qualifier_text(p) == p.version);
        },
    }
}

/// Round trip. Reading the canonical text of an identity with
/// delimiter-free fields gives the identity back, with its version
/// normalized; so writing what was read gives the text with a normalized
/// version.
pub proof fn law_decode_encode(p: PurlView)
    requires
        delimiter_free(p),
    ensures
        decode_spec(encode_spec(p)) == Ok::<PurlView, PurlDecodeError>(normalized(p)),
        encode_spec(decode_spec(encode_spec(p))->Ok_0) == encode_spec(normalized(p)),
{
    lemma_segments(p);
    lemma_artifact_and_version(p);
    lemma_version_and_type(p);
    let head = pkg_prefix() + p.package;
    assert(head.skip(4) == p.package);
    assert(head.subrange(0, 4) == pkg_prefix());
}

/// Whether `s` is the canonical text of an identity with delimiter-free
/// fields.
pub open spec fn is_canonical(s: Seq<char>) -> bool {
    exists|p: PurlView| delimiter_free(p) && #[trigger] encode_spec(p) == s
}

/// A canonical text with its version normalized.
pub open spec fn normalize_text(s: Seq<char>) -> Seq<char> {
    let p = choose|p: PurlView| delimiter_free(p) && #[trigger] encode_spec(p) == s;
    encode_spec(normalized(p))
}

/// Round trip on texts: a canonical text is read, and what was read is
/// written as the text with its version normalized.
pub proof fn law_round_trip(s: Seq<char>)
    requires
        is_canonical(s),
    ensures
        decode_spec(s) is Ok,
        encode_spec(decode_spec(s)->Ok_0) == normalize_text(s),
{
    let p = choose|p: PurlView| delimiter_free(p) && #[trigger] encode_spec(p) == s;
    law_decode_encode(p);
}

/// The normal form of a canonical text does not depend on the fields by
/// which the text is described.
pub proof fn law_normalize_text(p: PurlView)
    requires
        delimiter_free(p),
    ensures
        normalize_text(encode_spec(p)) == encode_spec(normalized(p)),
{
    let s = encode_spec(p);
    let q = choose|q: PurlView| delimiter_free(q) && #[trigger] encode_spec(q) == s;
    law_decode_encode(p);
    law_decode_encode(q);
}

} // verus!
