use std::collections::HashMap;
use vuln_lsp::parsers::maven::pom::{
    calculate_dependencies_with_range, dependency_blocks, dependency_scope,
    determine_dependencies_with_range, get_dependencies, get_purl, is_editing_version,
    Dependencies, Dependency, Project,
};
use vuln_lsp::parsers::project;
use vuln_lsp::purl::Purl;

fn decode(text: &str) -> Option<Dependency> {
    let fields: HashMap<String, String> = serde_xml_rs::from_str(text).ok()?;
    Some(Dependency {
        group_id: fields.get("groupId")?.clone(),
        artifact_id: fields.get("artifactId")?.clone(),
        version: fields.get("version").cloned(),
    })
}

#[test]
fn parser_get_purl_from_dependency() {
    let content = r#"
            <dependency>
                <groupId>junit</groupId>
                <artifactId>junit</artifactId>
                <version>4.8.2</version>
                <scope>test</scope>
            </dependency>
            "#;
    let purl = get_purl(decode(&dependency_scope(content, 3))).unwrap();
    assert_eq!(purl.group_id.unwrap(), "junit");
    assert_eq!(purl.artifact_id, "junit");
    assert_eq!(purl.version, "4.8.2");
}

#[test]
fn parser_get_purl_from_dependencies() {
    let content = r#"
        <dependencies>
            <dependency>
                <groupId>junit</groupId>
                <artifactId>junit</artifactId>
                <version>4.8.2</version>
                <scope>test</scope>
            </dependency>
            <dependency>
                <groupId>com.foo</groupId>
                <artifactId>bar</artifactId>
                <version>1.0.0</version>
                <scope>test</scope>
            </dependency>
        <dependencies>
        "#;
    let purl = get_purl(decode(&dependency_scope(content, 12))).unwrap();
    assert_eq!(purl.group_id.unwrap(), "com.foo");
    assert_eq!(purl.artifact_id, "bar");
    assert_eq!(purl.version, "1.0.0");
}

#[test]
fn get_purl_from_dependency() {
    let content = r#"
            <dependency>
                <groupId>junit</groupId>
                <artifactId>junit</artifactId>
                <version>4.8.2</version>
                <scope>test</scope>
            </dependency>
            "#;
    let purl = get_purl(decode(&dependency_scope(content, 3))).unwrap();
    assert_eq!(purl.group_id, Some("junit".to_string()));
    assert_eq!(purl.artifact_id, "junit");
    assert_eq!(purl.version, "4.8.2");
}

#[test]
fn get_purl_from_dependencies() {
    let content = r#"
        <dependencies>
            <dependency>
                <groupId>junit</groupId>
                <artifactId>junit</artifactId>
                <version>4.8.2</version>
                <scope>test</scope>
            </dependency>
            <dependency>
                <groupId>com.foo</groupId>
                <artifactId>bar</artifactId>
                <version>1.0.0</version>
                <scope>test</scope>
            </dependency>
        <dependencies>
        "#;
    let purl = get_purl(decode(&dependency_scope(content, 12))).unwrap();
    assert_eq!(purl.group_id, Some("com.foo".to_string()));
    assert_eq!(purl.artifact_id, "bar");
    assert_eq!(purl.version, "1.0.0");
}

#[test]
fn can_construct_dependency_graph() {
    let mut root = project::Dependency {
        purl: Purl {
            package: "pkg".to_string(),
            group_id: Some("group".to_string()),
            artifact_id: "artifact".to_string(),
            version: "1.0.0".to_string(),
            purl_type: None,
        },
        children: vec![],
    };

    let child1 = project::Dependency {
        purl: Purl {
            package: "pkg".to_string(),
            group_id: Some("group".to_string()),
            artifact_id: "artifact".to_string(),
            version: "1.0.0".to_string(),
            purl_type: None,
        },
        children: vec![],
    };
    let child2 = project::Dependency {
        purl: Purl {
            package: "pkg".to_string(),
            group_id: Some("group".to_string()),
            artifact_id: "artifact".to_string(),
            version: "1.0.0".to_string(),
            purl_type: None,
        },
        children: vec![],
    };

    let mut children = vec![&child1, &child2];

    root.add_children(&mut children);

    assert_eq!(root.children.len(), 2);
    assert!(children.is_empty());
    root.add_child(&child1);
    assert_eq!(root.children.len(), 3);
}

const POM: &str = r#"<project>
    <groupId>com.example</groupId>
    <artifactId>demo</artifactId>
    <dependencies>
        <dependency>
            <groupId>org.seleniumhq.selenium</groupId>
            <artifactId>selenium-java</artifactId>
            <version>2.44.0</version>
        </dependency>
        <dependency>
            <groupId>org.opensaml</groupId>
            <artifactId>opensaml</artifactId>
        </dependency>
        <dependency>
            <groupId>broken
        </dependency>
    </dependencies>
</project>
"#;

#[test]
fn pom_blocks_are_framed_by_their_markers() {
    let blocks = dependency_blocks(POM);
    assert_eq!(blocks.len(), 3);
    assert_eq!((blocks[0].range.start.row, blocks[0].range.start.col), (4, 8));
    assert_eq!((blocks[0].range.end.row, blocks[0].range.end.col), (8, 21));
    assert_eq!(
        blocks[1].text,
        "        <dependency>            <groupId>org.opensaml</groupId>            <artifactId>opensaml</artifactId>        </dependency>"
    );
    assert_eq!((blocks[2].range.start.row, blocks[2].range.end.row), (13, 15));
}

#[test]
fn pom_declarations_skip_blocks_that_do_not_decode() {
    let blocks = dependency_blocks(POM);
    let decoded: Vec<Option<Dependency>> = blocks.iter().map(|b| decode(&b.text)).collect();
    assert!(decoded[0].is_some());
    assert!(decoded[1].is_some());
    assert!(decoded[2].is_none());
    let declared = determine_dependencies_with_range(POM, &decoded);
    assert_eq!(declared.len(), 2);
    assert_eq!(declared[0].0.artifact_id, "selenium-java");
    assert_eq!((declared[0].1.start.row, declared[0].1.end.row), (4, 8));
    assert_eq!(declared[1].0.version, None);
    assert_eq!((declared[1].1.start.row, declared[1].1.end.row), (9, 12));
    let placed = calculate_dependencies_with_range(POM, &decoded);
    assert_eq!(placed.len(), 2);
    assert_eq!(placed[0].purl.to_string(), "pkg:maven/org.seleniumhq.selenium/selenium-java@2.44.0?type=jar");
    assert_eq!(placed[1].purl.version, "0");
    assert_eq!(placed[1].range.start.row, 9);
}

#[test]
fn pom_later_declaration_of_the_same_dependency_replaces_the_earlier() {
    let doc = "<dependency>\n</dependency>\n<dependency>\n</dependency>\n";
    let dep = Dependency {
        group_id: "g".to_string(),
        artifact_id: "a".to_string(),
        version: Some("1".to_string()),
    };
    let declared =
        determine_dependencies_with_range(doc, &vec![Some(dep.clone()), Some(dep.clone())]);
    assert_eq!(declared.len(), 1);
    assert_eq!(declared[0].1.start.row, 2);
    let short = determine_dependencies_with_range(doc, &vec![Some(dep)]);
    assert_eq!(short.len(), 1);
    assert_eq!(short[0].1.start.row, 0);
}

#[test]
fn pom_block_that_ends_before_it_starts_is_dropped() {
    let doc = "</dependency>\n<dependency>\n<groupId>g</groupId>\n</dependency>\n";
    assert_eq!(dependency_blocks(doc).len(), 0);
    let again = "</dependency>\n<dependency>\n<dependency>\n<groupId>g</groupId>\n</dependency>\n";
    let blocks = dependency_blocks(again);
    assert_eq!(blocks.len(), 1);
    assert_eq!((blocks[0].range.start.row, blocks[0].range.end.row), (2, 4));
    assert_eq!(dependency_blocks("").len(), 0);
    assert_eq!(dependency_blocks("no markers at all\n").len(), 0);
}

#[test]
fn version_line_is_recognised() {
    let doc = "<dependency>\n  <version>1.0</version>\n  <version>\n</dependency>";
    assert!(is_editing_version(doc, 1));
    assert!(!is_editing_version(doc, 0));
    assert!(!is_editing_version(doc, 2));
    assert!(!is_editing_version(doc, 17));
}

#[test]
fn scope_without_closing_marker_is_empty() {
    let doc = "a\n<dependency>\nb\nc\n";
    assert_eq!(dependency_scope(doc, 2), "");
    assert_eq!(get_purl(decode(&dependency_scope(doc, 2))), None);
    assert_eq!(dependency_scope("<x/>\n", 0), "<x/>");
}

#[test]
fn dependency_and_purl_convert_both_ways() {
    let dep = Dependency {
        group_id: "g".to_string(),
        artifact_id: "a".to_string(),
        version: Some("1.0".to_string()),
    };
    let purl = dep.to_purl();
    assert_eq!(purl.to_string(), "pkg:maven/g/a@1.0?type=jar");
    assert_eq!(Dependency::from_purl(&purl), dep);
    let project = Project {
        group_id: "com.example".to_string(),
        artifact_id: "demo".to_string(),
        version: "1.0".to_string(),
        name: "Demo".to_string(),
        dependencies: Dependencies { dependency: vec![dep.clone()] },
    };
    assert_eq!(get_dependencies(&project), vec![dep]);
}

#[test]
fn pom_columns_count_bytes() {
    let doc = "  \u{e9}\u{4e2d}<dependency>\n\u{1f600}</dependency>\n";
    let blocks = dependency_blocks(doc);
    assert_eq!(blocks.len(), 1);
    assert_eq!((blocks[0].range.start.row, blocks[0].range.start.col), (0, 7));
    assert_eq!((blocks[0].range.end.row, blocks[0].range.end.col), (1, 17));
    assert_eq!(blocks[0].range.start.col, doc.lines().next().unwrap().find("<dependency>").unwrap());
}
