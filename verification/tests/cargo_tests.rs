use vuln_lsp::common::VulnLspError;
use vuln_lsp::parsers::cargo::manifest::{
    assemble_metadata, parse_cargo_doc_for_ranges, parse_cargo_toml, parse_purl,
    ranges_for_names, DeclaredVersion,
};
use vuln_lsp::parsers::cargo::metadata::{
    build_result_process, metadata_process, Metadata, Node, Package, Resolve,
};
use vuln_lsp::parsers::cargo::Cargo;
use vuln_lsp::purl::Purl;
use vuln_lsp::range::{Position, PurlRange, Range};

#[test]
fn build_command_can_spawn_metadata_command() {
    // let output = metadata_command();

    // assert_eq!(output.len(), 0)
}

#[test]
fn metadata_can_spawn_metadata_command() {
    // let output = metadata_command();

    // assert_eq!(output.len(), 0)
}

#[test]
fn can_parse_ranges() {
    let source = r#"
            [package]
            name = "vuln-lsp"
            version = "0.1.0"
            edition = "2021"

            [dependencies]

            tokio = { version = "1.34.0", features = [
            "rt-multi-thread",
            "macros",
            "io-std",
            ] }
            tower-lsp = { version = "0.20.0", features = ["proposed"] }
            log = "0.4.20"
            serde = { version = "1.0.193", features = ["derive"] }
            serde-xml-rs = "0.6.0"
            serde_json = "1.0.108"
            anyhow = { version = "1.0.75", features = ["default"] }
            tracing = "0.1.40"
            tracing-subscriber = { version = "0.3.18", features = ["env-filter"] }
            futures = "0.3.29"
            async-trait = "0.1.74"
            reqwest = { version = "0.11.22", features = ["json"] }
            rand = "0.8.5"
            clap = { version = "4.4.11", features = ["derive", "cargo"] }
            thiserror = "1.0.50"
            toml = "0.8.8"
        "#;

    let ranges = parse_cargo_doc_for_ranges(source).unwrap();
    assert_eq!(ranges.len(), 16);
    assert_eq!(ranges.get("tokio").unwrap().start.row, 8);
    assert_eq!(ranges.get("tokio").unwrap().start.col, 12);
    assert_eq!(ranges.get("tokio").unwrap().end.row, 12);
    assert_eq!(ranges.get("tokio").unwrap().end.col, 15);

    assert_eq!(ranges.get("anyhow").unwrap().start.row, 18);
    assert_eq!(ranges.get("anyhow").unwrap().start.col, 12);
    assert_eq!(ranges.get("anyhow").unwrap().end.row, 18);
    assert_eq!(ranges.get("anyhow").unwrap().end.col, 67);

    assert_eq!(ranges.get("rand").unwrap().start.row, 24);
    assert_eq!(ranges.get("rand").unwrap().start.col, 12);
    assert_eq!(ranges.get("rand").unwrap().end.row, 24);
    assert_eq!(ranges.get("rand").unwrap().end.col, 26);
}

fn cargo(name: &str, version: &str) -> Purl {
    Purl {
        package: "cargo".to_string(),
        group_id: None,
        artifact_id: name.to_string(),
        version: version.to_string(),
        purl_type: None,
    }
}

#[test]
fn cargo_manifest_gives_packages_at_their_lines() {
    let source = "[package]\nname = \"demo\"\nversion = \"0.1.0\"\n\n[dependencies]\ntokio = \"1.34.0\"\nserde = { version = \">=1.0, <2\", features = [\n  \"derive\",\n] }\nlocal = { path = \"../local\" }\n";
    let metadata = parse_cargo_toml(source).unwrap();
    assert_eq!(metadata.len(), 3);
    let tokio = metadata.get(&cargo("tokio", "1.34.0")).unwrap();
    assert_eq!((tokio.start.row, tokio.start.col), (5, 0));
    assert_eq!((tokio.end.row, tokio.end.col), (5, 16));
    let serde = metadata.get(&cargo("serde", "1.0,2")).unwrap();
    assert_eq!((serde.start.row, serde.end.row, serde.end.col), (6, 8, 3));
    let local = metadata.get(&cargo("local", "0")).unwrap();
    assert_eq!((local.start.row, local.end.row), (9, 9));
}

#[test]
fn declaration_on_the_first_line_is_closed_by_its_brace() {
    let source = "a = { version = \"1\", features = [\n\"x\",\n] }\n";
    let ranges = ranges_for_names(source, &vec!["a".to_string(), "b".to_string()]);
    assert_eq!(ranges.len(), 1);
    let a = ranges.get("a").unwrap();
    assert_eq!((a.start.row, a.start.col, a.end.row, a.end.col), (0, 0, 2, 3));
    assert!(ranges.get("b").is_none());
}

#[test]
fn text_that_is_no_toml_is_a_manifest_error() {
    let garbage = "<<<< this is = not [ toml";
    assert!(matches!(parse_cargo_doc_for_ranges(garbage), Err(VulnLspError::ManifestParse(_))));
    assert!(matches!(parse_cargo_toml(garbage), Err(VulnLspError::ManifestParse(_))));
}

#[test]
fn toml_without_dependencies_declares_nothing() {
    let ranges = parse_cargo_doc_for_ranges("answer = 42\n").unwrap();
    assert_eq!(ranges.len(), 0);
    let metadata = parse_cargo_toml("[package]\nname = \"x\"\nversion = \"1.0.0\"\n").unwrap();
    assert_eq!(metadata.len(), 0);
}

#[test]
fn dependency_whose_line_is_not_found_is_left_out() {
    let source = "[package]\nname = \"x\"\nversion = \"1.0.0\"\n[dependencies]\ntokio=\"1\"\nrand = \"0.8\"\n";
    let metadata = parse_cargo_toml(source).unwrap();
    assert_eq!(metadata.len(), 1);
    assert!(metadata.contains_key(&cargo("rand", "0.8")));
}

#[test]
fn parse_purl_by_kind_of_declaration() {
    let name = "dep".to_string();
    assert_eq!(parse_purl(&DeclaredVersion::Simple("~1.2 ".to_string()), &name), cargo("dep", "1.2"));
    assert_eq!(
        parse_purl(&DeclaredVersion::Detailed(Some("=0.3".to_string())), &name),
        cargo("dep", "0.3")
    );
    assert_eq!(parse_purl(&DeclaredVersion::Detailed(None), &name), cargo("dep", "0"));
    assert_eq!(parse_purl(&DeclaredVersion::Inherited, &name), cargo("dep", "0"));
}

#[test]
fn assemble_metadata_joins_by_name() {
    let ranges = ranges_for_names("a = \"1\"\nb = \"2\"\n", &vec!["a".to_string(), "b".to_string()]);
    let declared = vec![
        ("b".to_string(), DeclaredVersion::Simple("2".to_string())),
        ("c".to_string(), DeclaredVersion::Simple("3".to_string())),
    ];
    let metadata = assemble_metadata(&ranges, &declared);
    assert_eq!(metadata.len(), 1);
    assert_eq!(metadata.get(&cargo("b", "2")).unwrap().start.row, 1);
}

fn node(id: &str, deps: &[&str]) -> Node {
    Node { id: id.to_string(), dependencies: deps.iter().map(|d| d.to_string()).collect() }
}

fn package(id: &str, name: &str, version: &str) -> Package {
    Package {
        name: name.to_string(),
        version: version.to_string(),
        id: id.to_string(),
        dependencies: vec![],
    }
}

fn sample_metadata() -> Metadata {
    Metadata {
        packages: vec![
            package("root 0.1.0", "root", "0.1.0"),
            package("a 1.0.0", "a", "1.0.0"),
            package("b 2.0.0", "b", "2.0.0"),
            package("c 3.0.0", "c", "3.0.0"),
        ],
        resolve: Resolve {
            nodes: vec![
                node("root 0.1.0", &["a 1.0.0", "b 2.0.0"]),
                node("a 1.0.0", &["c 3.0.0"]),
                node("b 2.0.0", &[]),
                node("c 3.0.0", &["a 1.0.0"]),
            ],
            root: "root 0.1.0".to_string(),
        },
    }
}

#[test]
fn metadata_gives_closures_of_direct_dependencies() {
    let graph = build_result_process(sample_metadata()).unwrap();
    assert_eq!(graph.len(), 2);
    assert_eq!(
        graph.get(&cargo("a", "1.0.0")).unwrap(),
        &vec![cargo("a", "1.0.0"), cargo("c", "3.0.0")]
    );
    assert_eq!(graph.get(&cargo("b", "2.0.0")).unwrap(), &vec![cargo("b", "2.0.0")]);
}

#[test]
fn metadata_without_root_node_is_an_error() {
    let mut metadata = sample_metadata();
    metadata.resolve.root = "other 9.9.9".to_string();
    assert!(matches!(build_result_process(metadata), Err(VulnLspError::BuildDependency(_))));
}

#[test]
fn metadata_without_package_of_a_closure_is_an_error() {
    let mut metadata = sample_metadata();
    metadata.packages.pop();
    assert!(matches!(build_result_process(metadata), Err(VulnLspError::BuildDependency(_))));
}

#[test]
fn cargo_parser_handles_cargo_toml_paths() {
    let parser = Cargo::new(false);
    assert!(parser.can_parse("/home/me/project/Cargo.toml"));
    assert!(!parser.can_parse("/home/me/project/Cargo.lock"));
    assert!(!parser.can_parse("toml"));
}

#[test]
fn cargo_parser_with_build_tool_needs_its_report() {
    let source = "[package]\nname = \"root\"\nversion = \"0.1.0\"\n[dependencies]\na = \"1.0.0\"\n";
    let parser = Cargo::new(true);
    assert!(parser.includes_transitives());
    match parser.parse(source, None) {
        Err(e @ VulnLspError::BuildDependency(_)) => {
            assert_eq!(e.message(), "Error generating dependencies Error generating cargo metadata")
        }
        _ => panic!("a graph was read"),
    }
    let content = parser.parse(source, Some(sample_metadata())).unwrap();
    assert_eq!(content.ranges.len(), 1);
    assert_eq!(content.transitives.len(), 2);
    assert_eq!(content.transitives.get(&cargo("a", "1.0.0")).unwrap().len(), 2);
}

#[test]
fn metadata_process_keeps_the_declared_dependencies() {
    let declared = vec![
        PurlRange::new(
            cargo("b", "2.0.0"),
            Range::new(Position { row: 7, col: 0 }, Position { row: 7, col: 10 }),
        ),
        PurlRange::new(
            cargo("zz", "1.0.0"),
            Range::new(Position { row: 8, col: 0 }, Position { row: 8, col: 10 }),
        ),
    ];
    let found = metadata_process(declared, sample_metadata()).unwrap();
    assert_eq!(found.len(), 1);
    assert_eq!(found[0].direct_dependency.purl, cargo("b", "2.0.0"));
    assert_eq!(found[0].direct_dependency.range.start.row, 7);
    assert_eq!(found[0].dependencies, vec![cargo("b", "2.0.0")]);
}

#[test]
fn cargo_columns_count_bytes() {
    let source = "# caf\u{e9}\n\u{4e2d} a = \"1\" # \u{fc}\n";
    let ranges = ranges_for_names(source, &vec!["a".to_string()]);
    let a = ranges.get("a").unwrap();
    let line = source.lines().nth(1).unwrap();
    assert_eq!((a.start.row, a.start.col), (1, line.find("a = ").unwrap()));
    assert_eq!((a.end.row, a.end.col), (1, line.len()));
    assert_eq!((a.start.col, a.end.col), (4, 16));
}
