use vuln_lsp::common::VulnLspError;
use vuln_lsp::parsers::maven::pom::Dependency;
use vuln_lsp::parsers::{BuildReport, Ecosystem, ParserManager};
use vuln_lsp::purl::Purl;

#[test]
fn direct_only_cargo_manifest_gives_tokio_alone() {
    let source = "[package]\nname = \"demo\"\nversion = \"0.1.0\"\n\n[dependencies]\ntokio = \"1.34.0\"\n";
    let manager = ParserManager::new(false);
    assert!(!manager.includes_transitives());
    let content = manager
        .parse("/work/demo/Cargo.toml", source, &vec![], BuildReport::Missing)
        .unwrap();
    let tokio = Purl {
        package: "cargo".to_string(),
        group_id: None,
        artifact_id: "tokio".to_string(),
        version: "1.34.0".to_string(),
        purl_type: None,
    };
    assert_eq!(content.ranges.len(), 1);
    let range = content.ranges.get(&tokio).unwrap();
    assert_eq!(range.start.row, 5);
    assert_eq!(range.end.row, 5);
    assert!(range.contains_position(5));
    assert_eq!(content.transitives.len(), 1);
    assert_eq!(content.transitives.get(&tokio).unwrap(), &vec![tokio.clone()]);
}

#[test]
fn parser_is_chosen_by_the_end_of_the_path() {
    let manager = ParserManager::new(true);
    assert_eq!(manager.find_parser("/a/Cargo.toml"), Some(Ecosystem::Cargo));
    assert_eq!(manager.find_parser("/a/pom.xml"), Some(Ecosystem::Maven));
    assert_eq!(manager.find_parser("/a/package.json"), None);
}

#[test]
fn document_without_parser_is_an_error() {
    let manager = ParserManager::new(false);
    let result = manager.parse("/a/package.json", "{}", &vec![], BuildReport::Missing);
    match result {
        Err(e @ VulnLspError::ParserNotFound(_)) => {
            assert_eq!(e.message(), "Parser not found for /a/package.json")
        }
        _ => panic!("a parser was found"),
    }
}

#[test]
fn garbage_in_a_cargo_manifest_is_a_manifest_error() {
    let manager = ParserManager::new(false);
    let result = manager.parse("Cargo.toml", "%%% not a manifest", &vec![], BuildReport::Missing);
    match result {
        Err(e @ VulnLspError::ManifestParse(_)) => {
            assert_eq!(e.message(), "Error parsing Failed to parse Cargo.toml")
        }
        _ => panic!("a manifest was read"),
    }
}

#[test]
fn garbage_in_a_pom_declares_nothing() {
    let manager = ParserManager::new(false);
    let content = manager
        .parse("pom.xml", "%%% not a manifest </dependency> <dependency>", &vec![], BuildReport::Missing)
        .unwrap();
    assert!(content.ranges.is_empty());
    assert!(content.transitives.is_empty());
}

#[test]
fn direct_only_pom_gives_each_dependency_alone() {
    let source = "<project>\n<dependencies>\n<dependency>\n<groupId>junit</groupId>\n<artifactId>junit</artifactId>\n</dependency>\n</dependencies>\n</project>\n";
    let decoded = vec![Some(Dependency {
        group_id: "junit".to_string(),
        artifact_id: "junit".to_string(),
        version: None,
    })];
    let manager = ParserManager::new(false);
    let content = manager.parse("/p/pom.xml", source, &decoded, BuildReport::Missing).unwrap();
    let junit = Purl {
        package: "maven".to_string(),
        group_id: Some("junit".to_string()),
        artifact_id: "junit".to_string(),
        version: "0".to_string(),
        purl_type: Some("jar".to_string()),
    };
    assert_eq!(content.ranges.len(), 1);
    let range = content.ranges.get(&junit).unwrap();
    assert_eq!((range.start.row, range.start.col, range.end.row, range.end.col), (2, 0, 5, 13));
    assert_eq!(content.transitives.get(&junit).unwrap(), &vec![junit.clone()]);
}

#[test]
fn pom_with_build_tool_takes_versions_from_the_tree() {
    let source = "<dependency>\n<groupId>org.a</groupId>\n<artifactId>a</artifactId>\n</dependency>\n";
    let decoded = vec![Some(Dependency {
        group_id: "org.a".to_string(),
        artifact_id: "a".to_string(),
        version: None,
    })];
    let tree = "[INFO] digraph \"com.example:app:jar:1.0\" {\n\
[INFO] \t\"com.example:app:jar:1.0\" -> \"org.a:a:jar:1.1:compile\" ;\n\
[INFO] \t\"org.a:a:jar:1.1:compile\" -> \"org.c:c:jar:3.3:compile\" ;\n\
[INFO]  }\n";
    let manager = ParserManager::new(true);
    let content = manager
        .parse("pom.xml", source, &decoded, BuildReport::MavenTree(tree.to_string()))
        .unwrap();
    let a = Purl {
        package: "maven".to_string(),
        group_id: Some("org.a".to_string()),
        artifact_id: "a".to_string(),
        version: "1.1".to_string(),
        purl_type: Some("jar".to_string()),
    };
    assert_eq!(content.ranges.get(&a).unwrap().start.row, 0);
    assert_eq!(content.transitives.get(&a).unwrap().len(), 2);
    let failed = manager.parse("pom.xml", source, &decoded, BuildReport::Missing);
    match failed {
        Err(e) => assert_eq!(
            e.message(),
            "Error generating dependencies Error parsing dependency:tree call"
        ),
        Ok(_) => panic!("a graph was read"),
    }
}
