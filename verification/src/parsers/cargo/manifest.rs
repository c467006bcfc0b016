//! Where a `Cargo.toml` declares its dependencies. The names and the
//! versions come from the TOML of the document; the spans are found in its
//! lines: a declaration begins at `<name> = ` and ends with its line, or,
//! where it opens a brace, with the line that closes a brace.

use crate::common::{manifest_failure, MetadataDependencies, VulnLspError};
use crate::graph::node_views;
use crate::key_map::{with_entry, PurlMap};
use crate::purl::{
    normalize_version, strip_comparators, unknown_version, Purl, PurlView, UNKNOWN_VERSION,
};
use crate::range::{Position, Range};
use crate::text::{
    append_str, byte_column, chars_of, column_of, contains_char, find, lemma_find_from, lines,
    matches_at, spec_find, spec_lines, string_of, views,
};
use vstd::prelude::*;

verus! {

/// How a manifest gives the version of a dependency.
#[derive(Debug)]
pub enum DeclaredVersion {
    /// `name = "1.0"`.
    Simple(String),
    /// `name = { version = "1.0", .. }`, or a table without a version.
    Detailed(Option<String>),
    /// `name = { workspace = true }`: the version stands elsewhere.
    Inherited,
}

pub enum DeclaredVersionView {
    Simple(Seq<char>),
    Detailed(Option<Seq<char>>),
    Inherited,
}

impl View for DeclaredVersion {
    type V = DeclaredVersionView;

    open spec fn view(&self) -> DeclaredVersionView {
        match self {
            DeclaredVersion::Simple(v) => DeclaredVersionView::Simple(v@),
            DeclaredVersion::Detailed(Some(v)) => DeclaredVersionView::Detailed(Some(v@)),
            DeclaredVersion::Detailed(None) => DeclaredVersionView::Detailed(None),
            DeclaredVersion::Inherited => DeclaredVersionView::Inherited,
        }
    }
}

/// The keys of the table `table` of the TOML document `document`, in the
/// order in which the TOML reader hands them out: `None` where the document
/// is no TOML, `Some(None)` where it has no such table.
pub uninterp spec fn toml_table_keys(document: Seq<char>, table: Seq<char>) -> Option<
    Option<Seq<Seq<char>>>,
>;

/// The dependencies that the manifest `document` declares, each with its
/// name and the way its version is given, in the order in which the manifest
/// reader hands them out; `None` where the document is no manifest.
pub uninterp spec fn manifest_dependencies(document: Seq<char>) -> Option<
    Seq<(Seq<char>, DeclaredVersionView)>,
>;

/// The keys as sequences of characters.
pub open spec fn keys_view(keys: Option<Option<Vec<String>>>) -> Option<Option<Seq<Seq<char>>>> {
    match keys {
        Some(Some(v)) => Some(Some(node_views(v@))),
        Some(None) => Some(None),
        None => None,
    }
}

/// The declarations as views.
pub open spec fn declared_views(s: Seq<(String, DeclaredVersion)>) -> Seq<
    (Seq<char>, DeclaredVersionView),
> {
    Seq::new(s.len(), |i: int| (s[i].0@, s[i].1@))
}

/// The keys of one table of a TOML document.
///
/// Trusted: `toml::from_str::<toml::Value>` reads the document; of the value
/// that it gives, `Value::get` picks the entry `table`, `Value::as_table`
/// takes it as a table, and `Map::keys` hands out its keys. What comes out
/// depends on the two arguments alone.
#[verifier::external_body]
fn table_keys(document: &str, table: &str) -> (r: Option<Option<Vec<String>>>)
    ensures
        keys_view(r) == toml_table_keys(document@, table@),
{
    toml::from_str::<toml::Value>(document).ok().map(
        |value|
            value.get(table).and_then(toml::Value::as_table).map(
                |found| found.keys().cloned().collect(),
            ),
    )
}

/// The dependencies of a manifest.
///
/// Trusted: `cargo_toml::Manifest::from_str` reads the document; its field
/// `dependencies` is handed out entry by entry, each `cargo_toml::Dependency`
/// as the variant of `DeclaredVersion` of the same name, with the version
/// that it holds. What comes out depends on the document alone.
#[verifier::external_body]
fn declared_dependencies(document: &str) -> (r: Option<Vec<(String, DeclaredVersion)>>)
    ensures
        match r {
            Some(v) => manifest_dependencies(document@) == Some(declared_views(v@)),
            None => manifest_dependencies(document@) is None,
        },
{
    match cargo_toml::Manifest::from_str(document) {
        Ok(manifest) => Some(
            manifest.dependencies.into_iter().map(
                |(name, dependency)| match dependency {
                    cargo_toml::Dependency::Simple(v) => (name, DeclaredVersion::Simple(v)),
                    cargo_toml::Dependency::Detailed(d) => (
                        name,
                        DeclaredVersion::Detailed(d.version),
                    ),
                    cargo_toml::Dependency::Inherited(_) => (name, DeclaredVersion::Inherited),
                },
            ).collect(),
        ),
        Err(_) => None,
    }
}

/// The Cargo package that a declaration names: its version without the
/// comparator characters, or the unknown version where it gives none.
pub open spec fn purl_spec(name: Seq<char>, declared: DeclaredVersionView) -> PurlView {
    PurlView {
        package: "cargo"@,
        group_id: None,
        artifact_id: name,
        version: match declared {
            DeclaredVersionView::Simple(v) => normalize_version(v),
            DeclaredVersionView::Detailed(Some(v)) => normalize_version(v),
            DeclaredVersionView::Detailed(None) => unknown_version(),
            DeclaredVersionView::Inherited => unknown_version(),
        },
        purl_type: None,
    }
}

/// The Cargo package that a declaration names.
pub fn parse_purl(dep: &DeclaredVersion, name: &String) -> (p: Purl)
    ensures
        p@ == purl_spec(name@, dep@),
{
    let version = match dep {
        DeclaredVersion::Simple(v) => string_of(&strip_comparators(&chars_of(v.as_str()))),
        DeclaredVersion::Detailed(Some(v)) => string_of(&strip_comparators(&chars_of(v.as_str()))),
        DeclaredVersion::Detailed(None) => UNKNOWN_VERSION.to_owned(),
        DeclaredVersion::Inherited => UNKNOWN_VERSION.to_owned(),
    };
    Purl {
        package: "cargo".to_owned(),
        group_id: None,
        artifact_id: name.clone(),
        version,
        purl_type: None,
    }
}

/// What was seen of a declaration while the lines are read.
pub struct NameScan {
    /// Where the declaration begins, once its first line was met.
    pub start: Option<Position>,
    /// The span of the declaration, once its last line was met.
    pub found: Option<Range>,
}

/// The state after the line `index`. A line that holds `look_for` begins the
/// declaration there; it also ends it, at the end of the line, unless it
/// holds `{` and no `}`. Else a line with `}` ends a declaration that has
/// begun. Columns are counted in bytes.
pub open spec fn name_step(st: NameScan, index: int, line: Seq<char>, look_for: Seq<char>)
    -> NameScan {
    if st.found is Some {
        st
    } else {
        let end = Position { row: index as usize, col: byte_column(line, line.len() as int) };
        match spec_find(line, look_for) {
            Some(at) => {
                let start = Position { row: index as usize, col: byte_column(line, at) };
                if !line.contains('{') || line.contains('}') {
                    NameScan { start: Some(start), found: Some(Range { start, end }) }
                } else {
                    NameScan { start: Some(start), found: None }
                }
            },
            None => match st.start {
                Some(start) => if line.contains('}') {
                    NameScan { start: st.start, found: Some(Range { start, end }) }
                } else {
                    st
                },
                None => st,
            },
        }
    }
}

/// The state after the first `n` lines.
pub open spec fn name_scan(lines: Seq<Seq<char>>, look_for: Seq<char>, n: int) -> NameScan
    decreases n,
{
    if n <= 0 {
        NameScan { start: None, found: None }
    } else {
        name_step(name_scan(lines, look_for, n - 1), n - 1, lines[n - 1], look_for)
    }
}

/// The span of the declaration of `name` in `lines`, if one is found.
pub open spec fn range_of(lines: Seq<Seq<char>>, name: Seq<char>) -> Option<Range> {
    name_scan(lines, name + " = "@, lines.len() as int).found
}

/// A span that was found stays as it is.
proof fn lemma_found_stays(lines: Seq<Seq<char>>, look_for: Seq<char>, n: int, m: int)
    requires
        0 <= n <= m,
        name_scan(lines, look_for, n).found is Some,
    ensures
        name_scan(lines, look_for, m) == name_scan(lines, look_for, n),
    decreases m - n,
{
    if n < m {
        lemma_found_stays(lines, look_for, n, m - 1);
    }
}

fn find_range(all: &Vec<Vec<char>>, name: &str) -> (r: Option<Range>)
    ensures
        r == range_of(views(all@), name@),
{
    let mut look_for = chars_of(name);
    append_str(&mut look_for, " = ");
    let ghost ls = views(all@);
    let mut start: Option<Position> = None;
    let mut index: usize = 0;
    while index < all.len()
        invariant
            index <= all.len(),
            ls == views(all@),
            look_for@ == name@ + " = "@,
            name_scan(ls, look_for@, index as int) == (NameScan { start, found: None }),
        decreases all.len() - index,
    {
        let line = &all[index];
        assert(ls[index as int] == line@);
        let end = Position { row: index, col: column_of(line, line.len()) };
        let closes = contains_char(line, '}');
        proof {
            lemma_find_from(line@, look_for@, 0);
        }
        let found = match find(line, &look_for) {
            Some(at) => {
                assert(matches_at(line@, look_for@, at as int));
                let begin = Position { row: index, col: column_of(line, at) };
                start = Some(begin);
                if !contains_char(line, '{') || closes {
                    Some(Range { start: begin, end })
                } else {
                    None
                }
            },
            None => match start {
                Some(begin) => if closes {
                    Some(Range { start: begin, end })
                } else {
                    None
                },
                None => None,
            },
        };
        if found.is_some() {
            proof {
                lemma_found_stays(ls, look_for@, index as int + 1, all.len() as int);
            }
            return found;
        }
        index += 1;
    }
    None
}

/// The spans of declarations, by name.
#[derive(Debug)]
pub struct NamedRanges {
    entries: Vec<(String, Range)>,
}

/// The entries as views of their names, with their spans.
pub open spec fn named_views(s: Seq<(String, Range)>) -> Seq<(Seq<char>, Range)> {
    Seq::new(s.len(), |i: int| (s[i].0@, s[i].1))
}

/// The span of the last of the first `n` entries of `s` for `name`.
pub open spec fn lookup(s: Seq<(Seq<char>, Range)>, name: Seq<char>, n: int) -> Option<Range>
    decreases n,
{
    if n <= 0 || n > s.len() {
        None
    } else if s[n - 1].0 == name {
        Some(s[n - 1].1)
    } else {
        lookup(s, name, n - 1)
    }
}

impl View for NamedRanges {
    type V = Seq<(Seq<char>, Range)>;

    closed spec fn view(&self) -> Seq<(Seq<char>, Range)> {
        named_views(self.entries@)
    }
}

impl NamedRanges {
    /// The number of entries.
    pub fn len(&self) -> (n: usize)
        ensures
            n == self@.len(),
    {
        self.entries.len()
    }

    /// The span of `name`: that of its last entry.
    pub fn get(&self, name: &str) -> (r: Option<&Range>)
        ensures
            match r {
                Some(range) => lookup(self@, name@, self@.len() as int) == Some(*range),
                None => lookup(self@, name@, self@.len() as int) is None,
            },
    {
        let text = name.to_owned();
        let mut i: usize = self.entries.len();
        while i > 0
            invariant
                i <= self.entries.len(),
                text@ == name@,
                lookup(self@, name@, self@.len() as int) == lookup(self@, name@, i as int),
            decreases i,
        {
            if self.entries[i - 1].0 == text {
                return Some(&self.entries[i - 1].1);
            }
            i -= 1;
        }
        None
    }
}

/// The spans of the first `n` of `names` in `lines`: one entry for each name
/// whose declaration is found, in the order of the names.
pub open spec fn ranges_spec(lines: Seq<Seq<char>>, names: Seq<Seq<char>>, n: int) -> Seq<
    (Seq<char>, Range),
>
    decreases n,
{
    if n <= 0 {
        Seq::empty()
    } else {
        let before = ranges_spec(lines, names, n - 1);
        match range_of(lines, names[n - 1]) {
            Some(range) => before.push((names[n - 1], range)),
            None => before,
        }
    }
}

/// Where `document` declares each of `names`.
pub fn ranges_for_names(document: &str, names: &Vec<String>) -> (r: NamedRanges)
    ensures
        r@ == ranges_spec(spec_lines(document@), node_views(names@), names@.len() as int),
{
    let all = lines(&chars_of(document));
    let mut entries: Vec<(String, Range)> = Vec::new();
    let ghost nv = node_views(names@);
    let mut i: usize = 0;
    assert(named_views(entries@) == Seq::<(Seq<char>, Range)>::empty());
    while i < names.len()
        invariant
            i <= names.len(),
            nv == node_views(names@),
            views(all@) == spec_lines(document@),
            named_views(entries@) == ranges_spec(spec_lines(document@), nv, i as int),
        decreases names.len() - i,
    {
        assert(nv[i as int] == names@[i as int]@);
        match find_range(&all, names[i].as_str()) {
            Some(range) => {
                let ghost before = named_views(entries@);
                entries.push((names[i].clone(), range));
                assert(named_views(entries@) == before.push((names@[i as int]@, range)));
            },
            None => {},
        }
        i += 1;
    }
    NamedRanges { entries }
}

/// The names of the table of dependencies: its keys, or none where the
/// document has no such table.
pub open spec fn dependency_names(keys: Option<Seq<Seq<char>>>) -> Seq<Seq<char>> {
    match keys {
        Some(names) => names,
        None => Seq::empty(),
    }
}

/// Where `document` declares each dependency of its table of dependencies.
/// A document that is no TOML is an error; one without such a table
/// declares nothing.
pub fn parse_cargo_doc_for_ranges(document: &str) -> (r: Result<NamedRanges, VulnLspError>)
    ensures
        match r {
            Ok(ranges) => toml_table_keys(document@, "dependencies"@) matches Some(keys)
                && ranges@ == ranges_spec(
                spec_lines(document@),
                dependency_names(keys),
                dependency_names(keys).len() as int,
            ),
            Err(e) => toml_table_keys(document@, "dependencies"@) is None && e@
                == manifest_failure(),
        },
        toml_table_keys(document@, "dependencies"@) == Some(None::<Seq<Seq<char>>>) ==> (
        r matches Ok(ranges) && ranges@.len() == 0),
{
    match table_keys(document, "dependencies") {
        Some(Some(names)) => Ok(ranges_for_names(document, &names)),
        Some(None) => {
            let names: Vec<String> = Vec::new();
            assert(node_views(names@) == Seq::<Seq<char>>::empty());
            Ok(ranges_for_names(document, &names))
        },
        None => Err(VulnLspError::ManifestParse("Failed to parse Cargo.toml".to_owned())),
    }
}

/// The declared packages with their spans, for the first `n` of `declared`:
/// a declaration whose span was not found is left out.
pub open spec fn metadata_spec(
    ranges: Seq<(Seq<char>, Range)>,
    declared: Seq<(Seq<char>, DeclaredVersionView)>,
    n: int,
) -> Seq<(PurlView, Range)>
    decreases n,
{
    if n <= 0 {
        Seq::empty()
    } else {
        let before = metadata_spec(ranges, declared, n - 1);
        match lookup(ranges, declared[n - 1].0, ranges.len() as int) {
            Some(range) => with_entry(
                before,
                purl_spec(declared[n - 1].0, declared[n - 1].1),
                range,
            ),
            None => before,
        }
    }
}

/// Puts the declared packages at their spans.
pub fn assemble_metadata(ranges: &NamedRanges, declared: &Vec<(String, DeclaredVersion)>) -> (r:
    MetadataDependencies)
    ensures
        r@ == metadata_spec(ranges@, declared_views(declared@), declared@.len() as int),
{
    let mut out: MetadataDependencies = PurlMap::new();
    let ghost dv = declared_views(declared@);
    let mut i: usize = 0;
    while i < declared.len()
        invariant
            i <= declared.len(),
            dv == declared_views(declared@),
            out@ == metadata_spec(ranges@, dv, i as int),
        decreases declared.len() - i,
    {
        let entry = &declared[i];
        assert(dv[i as int] == (entry.0@, entry.1@));
        match ranges.get(entry.0.as_str()) {
            Some(range) => {
                out.insert(parse_purl(&entry.1, &entry.0), *range);
            },
            None => {},
        }
        i += 1;
    }
    out
}

/// Where a manifest declares its dependencies, where it is one: the
/// document is TOML and a manifest; its declarations stand at the spans of
/// the names of its table of dependencies.
pub open spec fn manifest_spec(document: Seq<char>) -> Option<Seq<(PurlView, Range)>> {
    match (toml_table_keys(document, "dependencies"@), manifest_dependencies(document)) {
        (Some(keys), Some(declared)) => Some(
            metadata_spec(
                ranges_spec(
                    spec_lines(document),
                    dependency_names(keys),
                    dependency_names(keys).len() as int,
                ),
                declared,
                declared.len() as int,
            ),
        ),
        _ => None,
    }
}

/// Where a `Cargo.toml` declares each of its dependencies. A document that
/// is no TOML, or no manifest, is an error.
pub fn parse_cargo_toml(document: &str) -> (r: Result<MetadataDependencies, VulnLspError>)
    ensures
        match r {
            Ok(m) => manifest_spec(document@) == Some(m@),
            Err(e) => manifest_spec(document@) is None && e@ == manifest_failure(),
        },
{
    let ranges = match parse_cargo_doc_for_ranges(document) {
        Ok(ranges) => ranges,
        Err(e) => {
            return Err(e);
        },
    };
    match declared_dependencies(document) {
        Some(declared) => Ok(assemble_metadata(&ranges, &declared)),
        None => Err(VulnLspError::ManifestParse("Failed to parse Cargo.toml".to_owned())),
    }
}

/// Spans are found for given names only: every entry stands under one of
/// `names`.
pub proof fn law_ranges_are_of_names(lines: Seq<Seq<char>>, names: Seq<Seq<char>>, n: int)
    requires
        0 <= n <= names.len(),
    ensures
        ranges_spec(lines, names, n).len() <= n,
        forall|i: int|
            0 <= i < ranges_spec(lines, names, n).len() ==> names.contains(
                (#[trigger] ranges_spec(lines, names, n)[i]).0,
            ),
    decreases n,
{
    if n > 0 {
        law_ranges_are_of_names(lines, names, n - 1);
        let before = ranges_spec(lines, names, n - 1);
        let now = ranges_spec(lines, names, n);
        assert forall|i: int| 0 <= i < now.len() implies names.contains((#[trigger] now[i]).0) by {
            if i < before.len() {
                assert(now[i] == before[i]);
            } else {
                assert(names[n - 1] == now[i].0);
            }
        }
    }
}

/// Without spans nothing is declared.
pub proof fn law_no_range_no_declaration(declared: Seq<(Seq<char>, DeclaredVersionView)>, n: int)
    ensures
        metadata_spec(Seq::empty(), declared, n) == Seq::<(PurlView, Range)>::empty(),
    decreases n,
{
    if n > 0 {
        law_no_range_no_declaration(declared, n - 1);
    }
}

/// A document that is TOML without a table of dependencies declares
/// nothing: where it is a manifest, the manifest is empty.
pub proof fn law_no_table_declares_nothing(document: Seq<char>)
    requires
        toml_table_keys(document, "dependencies"@) == Some(None::<Seq<Seq<char>>>),
    ensures
        ranges_spec(spec_lines(document), dependency_names(None), 0) == Seq::<
            (Seq<char>, Range),
        >::empty(),
        manifest_spec(document) matches Some(declared) ==> declared.len() == 0,
{
    match manifest_dependencies(document) {
        Some(declared) => {
            law_no_range_no_declaration(declared, declared.len() as int);
        },
        None => {},
    }
}

} // verus!
