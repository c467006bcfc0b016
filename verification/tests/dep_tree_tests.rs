use vuln_lsp::parsers::maven::dep_tree::{
    accumulate_parent_child, calculate_build_dependencies, find_all_dependencies_of,
    get_parent_child_from_digraph_line, get_purl_from_digraph_string,
    line_stars_with_start_of_dig_graph, look_for_start_state, parse_response, DigraphState,
    TreeParse,
};
use vuln_lsp::purl::Purl;

fn maven(group: &str, artifact: &str, version: &str) -> Purl {
    Purl {
        package: "maven".to_string(),
        group_id: Some(group.to_string()),
        artifact_id: artifact.to_string(),
        version: version.to_string(),
        purl_type: Some("jar".to_string()),
    }
}

#[test]
fn parse_parent_child_into_build_dependencies() {
    let tree = TreeParse {
        state: DigraphState::Finished,
        application_purl: get_purl_from_digraph_string(
            "com.javatpoint.application1:my-application1:jar:1.0",
        ),
        parent_and_child: vec![
            (
                get_purl_from_digraph_string("com.javatpoint.application1:my-application1:jar:1.0")
                    .unwrap(),
                get_purl_from_digraph_string("org.opensaml:opensaml:jar:2.4.1:compile").unwrap(),
            ),
            (
                get_purl_from_digraph_string("com.javatpoint.application1:my-application1:jar:1.0")
                    .unwrap(),
                get_purl_from_digraph_string("org.apache.struts:struts-core:jar:1.3.10:compile")
                    .unwrap(),
            ),
            (
                get_purl_from_digraph_string("org.opensaml:opensaml:jar:2.4.1:compile").unwrap(),
                get_purl_from_digraph_string("org.opensaml:openws:jar:1.4.1:compile").unwrap(),
            ),
        ],
    };

    let result = calculate_build_dependencies(tree).unwrap();

    let key = Purl {
        package: "maven".to_string(),
        group_id: Some("org.apache.struts".to_string()),
        artifact_id: "struts-core".to_string(),
        version: "1.3.10".to_string(),
        purl_type: Some("jar".to_string()),
    };

    // 2 direct dependencies
    assert_eq!(result.len(), 2);
    assert!(result.contains_key(&key));

    // opensaml has itself and a child dependency
    let key = Purl {
        package: "maven".to_string(),
        group_id: Some("org.opensaml".to_string()),
        artifact_id: "opensaml".to_string(),
        version: "2.4.1".to_string(),
        purl_type: Some("jar".to_string()),
    };

    assert_eq!(2, result.get(&key).unwrap().len());
}

#[test]
fn can_get_parent_child_relationship() {
    let line = "[INFO] 	\"com.javatpoint.application1:my-application1:jar:1.0\" -> \"org.opensaml:opensaml:jar:2.4.1:compile\" ;";

    let result: (Purl, Purl) = get_parent_child_from_digraph_line(&line).unwrap();
    assert_eq!(result.0, maven("com.javatpoint.application1", "my-application1", "1.0"));
    assert_eq!(result.1, maven("org.opensaml", "opensaml", "2.4.1"));
}

#[test]
fn can_get_purl_from_digrph_string() {
    let result = get_purl_from_digraph_string("com.javatpoint.application1:my-application1:jar:1.0");

    assert_eq!(
        result.unwrap(),
        Purl {
            package: "maven".to_string(),
            group_id: Some("com.javatpoint.application1".to_string()),
            artifact_id: "my-application1".to_string(),
            version: "1.0".to_string(),
            purl_type: Some("jar".to_string()),
        }
    )
}

#[test]
fn should_move_to_start_state_if_start_found() {
    let mut tree: TreeParse = TreeParse::new();

    look_for_start_state(
        &mut tree,
        "[INFO] digraph \"com.javatpoint.application1:my-application1:jar:1.0\" {",
    );

    assert_eq!(tree.state, DigraphState::ParentChild);
    assert!(tree.application_purl.is_some());
}

#[test]
fn should_not_move_to_start_state_if_start_not_found() {
    let mut tree: TreeParse = TreeParse::new();

    look_for_start_state(
        &mut tree,
        "INFO] digraph \"com.javatpoint.application1:my-application1:jar:1.0\" {",
    );

    assert_eq!(tree.state, DigraphState::LookForStart);
    assert!(tree.application_purl.is_none());
}

#[test]
fn digraph_with_three_edges_gives_two_closures() {
    let data = "[INFO] Scanning for projects...\n\
[INFO] digraph \"com.example:app:jar:1.0\" {\n\
[INFO] \t\"com.example:app:jar:1.0\" -> \"org.a:a:jar:1.1:compile\" ;\n\
[INFO] \t\"com.example:app:jar:1.0\" -> \"org.b:b:jar:2.2:compile\" ;\n\
[INFO] \t\"org.a:a:jar:1.1:compile\" -> \"org.c:c:jar:3.3:compile\" ;\n\
[INFO]  }\n\
[INFO] BUILD SUCCESS\n";
    let result = parse_response(data.to_string()).unwrap();
    assert_eq!(result.len(), 2);
    let a = maven("org.a", "a", "1.1");
    let b = maven("org.b", "b", "2.2");
    let c = maven("org.c", "c", "3.3");
    assert_eq!(result.get(&a).unwrap(), &vec![a.clone(), c.clone()]);
    assert_eq!(result.get(&b).unwrap(), &vec![b.clone()]);
    assert!(!result.contains_key(&c));
}

#[test]
fn digraph_with_crlf_line_ends_is_read() {
    let data = "[INFO] digraph \"com.example:app:jar:1.0\" {\r\n\
[INFO] \t\"com.example:app:jar:1.0\" -> \"org.a:a:jar:1.1:compile\" ;\r\n\
[INFO]  }\r\n";
    let result = parse_response(data.to_string()).unwrap();
    assert_eq!(result.len(), 1);
}

#[test]
fn output_without_digraph_is_an_error() {
    assert!(parse_response("[INFO] BUILD FAILURE\n".to_string()).is_err());
    assert!(parse_response(String::new()).is_err());
}

#[test]
fn digraph_that_does_not_end_is_an_error() {
    let data = "[INFO] digraph \"com.example:app:jar:1.0\" {\n\
[INFO] \t\"com.example:app:jar:1.0\" -> \"org.a:a:jar:1.1:compile\" ;";
    assert!(parse_response(data.to_string()).is_err());
}

#[test]
fn closure_of_a_cycle_ends() {
    let a = maven("g", "a", "1");
    let b = maven("g", "b", "1");
    let c = maven("g", "c", "1");
    let tree = TreeParse {
        state: DigraphState::Finished,
        application_purl: Some(maven("g", "app", "1")),
        parent_and_child: vec![
            (maven("g", "app", "1"), a.clone()),
            (a.clone(), b.clone()),
            (b.clone(), c.clone()),
            (c.clone(), a.clone()),
            (a.clone(), c.clone()),
        ],
    };
    let mut found = Vec::new();
    find_all_dependencies_of(&tree, &a, &mut found);
    assert_eq!(found, vec![a.clone(), b.clone(), c.clone()]);
    let result = calculate_build_dependencies(tree).unwrap();
    assert_eq!(result.get(&a).unwrap(), &vec![a, b, c]);
}

#[test]
fn closure_is_in_depth_first_order() {
    let a = maven("g", "a", "1");
    let b = maven("g", "b", "1");
    let c = maven("g", "c", "1");
    let d = maven("g", "d", "1");
    let tree = TreeParse {
        state: DigraphState::Finished,
        application_purl: None,
        parent_and_child: vec![
            (a.clone(), b.clone()),
            (a.clone(), c.clone()),
            (b.clone(), d.clone()),
        ],
    };
    let mut found = vec![d.clone()];
    find_all_dependencies_of(&tree, &a, &mut found);
    assert_eq!(found, vec![d.clone(), a, b, d, c]);
}

#[test]
fn tree_without_project_has_no_graph() {
    let tree = TreeParse {
        state: DigraphState::Finished,
        application_purl: None,
        parent_and_child: vec![],
    };
    assert!(calculate_build_dependencies(tree).is_err());
}

#[test]
fn line_that_is_no_edge_ends_the_digraph() {
    let mut tree = TreeParse::new();
    tree.state = DigraphState::ParentChild;
    accumulate_parent_child(&mut tree, "[INFO]  }");
    assert_eq!(tree.state, DigraphState::Finished);
    assert!(tree.parent_and_child.is_empty());
}

#[test]
fn edge_lines_that_do_not_match_give_none() {
    assert!(get_parent_child_from_digraph_line("").is_none());
    assert!(get_parent_child_from_digraph_line("->").is_none());
    assert!(get_parent_child_from_digraph_line("[INFO]->").is_none());
    assert!(get_parent_child_from_digraph_line("[INFO] \"a:b:c:d\" -> \"e:f:g:h\" -> x").is_none());
    assert!(get_parent_child_from_digraph_line("\"a:b:c:d\" -> \"e:f:g:h\" ;").is_none());
    assert!(get_parent_child_from_digraph_line("[INFO] \"a:b:c\" -> \"e:f:g:h\" ;").is_none());
}

#[test]
fn header_line_is_recognised() {
    assert!(line_stars_with_start_of_dig_graph("[INFO] digraph \"x\" {"));
    assert!(!line_stars_with_start_of_dig_graph(" [INFO] digraph"));
}

#[test]
fn child_of_four_fields_keeps_no_quote() {
    let line = "[INFO] \t\"a:b:jar:1.0\" -> \"c:d:jar:2.0\" ;";
    let (parent, child) = get_parent_child_from_digraph_line(line).unwrap();
    assert_eq!(parent, maven("a", "b", "1.0"));
    assert_eq!(parent.version, "1.0");
    assert_eq!(
        child,
        Purl {
            package: "maven".to_string(),
            group_id: Some("c".to_string()),
            artifact_id: "d".to_string(),
            version: "2.0".to_string(),
            purl_type: Some("jar".to_string()),
        }
    );
}

#[test]
fn edge_line_is_read_by_its_quotes() {
    let plain = get_parent_child_from_digraph_line("[INFO] \"a:b:jar:1.0\" -> \"c:d:jar:2.0\"");
    assert_eq!(plain.unwrap().1, maven("c", "d", "2.0"));
    let spaced =
        get_parent_child_from_digraph_line("[INFO]\"a:b:jar:1.0\"->\"c:d:jar:2.0:test\"  ;  ");
    assert_eq!(spaced.unwrap(), (maven("a", "b", "1.0"), maven("c", "d", "2.0")));
    assert!(get_parent_child_from_digraph_line("[INFO] a:b:jar:1.0 -> c:d:jar:2.0 ;").is_none());
    assert!(get_parent_child_from_digraph_line("[INFO] \"a:b:jar:1.0\" -> \"c:d:jar:2.0 ;")
        .is_none());
    assert!(get_parent_child_from_digraph_line("[INFO] \"a:b:jar:1.0 -> \"c:d:jar:2.0\" ;")
        .is_none());
    assert!(get_parent_child_from_digraph_line("[INFO] \" -> \"c:d:jar:2.0\" ;").is_none());
}

#[test]
fn digraph_of_children_of_four_fields_is_read() {
    let data = "[INFO] digraph \"com.example:app:jar:1.0\" {\n\
[INFO] \t\"com.example:app:jar:1.0\" -> \"org.a:a:jar:1.1\" ;\n\
[INFO] \t\"org.a:a:jar:1.1\" -> \"org.c:c:jar:3.3\" ;\n\
[INFO]  }\n";
    let result = parse_response(data.to_string()).unwrap();
    let a = maven("org.a", "a", "1.1");
    let c = maven("org.c", "c", "3.3");
    assert_eq!(result.len(), 1);
    assert_eq!(result.get(&a).unwrap(), &vec![a.clone(), c]);
}
