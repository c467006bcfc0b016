use vuln_lsp::logging::{enable_tracing, filter_directive, LogLevel};
use vuln_lsp::lsp::completion::{
    build_summary, format_detail, format_summary, format_value, highlight_severity,
};
use vuln_lsp::lsp::diagnostics::{create_diagnostic, diagnostic_level, DiagnosticLevel};
use vuln_lsp::lsp::document_store::DocumentStore;
use vuln_lsp::lsp::hover::{create_hover_message, hover_source};
use vuln_lsp::purl::Purl;
use vuln_lsp::range::{Position, PurlRange, Range};
use vuln_lsp::server::dummy::{finding, random_severity, severity_of, Dummy};
use vuln_lsp::server::ossindex::{
    calculate_violation_level, match_against_purl, restore_purls, strip_qualifiers,
    COMPONENT_REPORT_URL,
};
use vuln_lsp::server::sonatype::{
    applications_url, details_url, purls_for_versions, severity_from_score, versions_url,
};
use vuln_lsp::server::{
    Severity, VulnerabilityInformation, VulnerabilityVersionInfo, VulnerableServerType,
};
use vuln_lsp::text::{chars_of, decimal, lines, trim};

fn commons(purl_type: Option<&str>) -> Purl {
    Purl {
        package: "maven".to_string(),
        group_id: Some("org.apache.commons".to_string()),
        artifact_id: "commons".to_string(),
        version: "1.4.0".to_string(),
        purl_type: purl_type.map(|t| t.to_string()),
    }
}

fn info(severity: Severity, summary: &str, detail: &str) -> VulnerabilityInformation {
    VulnerabilityInformation {
        severity,
        summary: summary.to_string(),
        detail: detail.to_string(),
        license: vec![],
    }
}

#[test]
fn can_compose_version_request() {
    assert_eq!(versions_url("http://localhost:8080"), "http://localhost:8080/api/v2/components/versions");
    assert_eq!(
        commons(Some("jar")).to_string(),
        "pkg:maven/org.apache.commons/commons@1.4.0?type=jar"
    );
}

#[test]
fn can_compose_get_all_applications_request() {
    assert_eq!(
        applications_url("http://localhost:8080", "myapplication"),
        "http://localhost:8080/api/v2/applications?publicId=myapplication"
    );
}

#[test]
fn can_compose_get_component_details_request() {
    assert_eq!(details_url("http://localhost:8080"), "http://localhost:8080/api/v2/components/details");
}

#[test]
fn single_purl_payload() {
    let purls = vec![Purl {
        package: "maven".to_string(),
        group_id: Some("org.apache.commons".to_string()),
        artifact_id: "commons-lang3".to_string(),
        version: "3.9".to_string(),
        purl_type: None,
    }];
    assert_eq!(COMPONENT_REPORT_URL, "https://ossindex.sonatype.org/api/v3/component-report");
    let coordinates: Vec<String> = strip_qualifiers(&purls).iter().map(|p| p.to_string()).collect();
    assert_eq!(
        serde_json::to_string(&coordinates).unwrap(),
        "[\"pkg:maven/org.apache.commons/commons-lang3@3.9\"]"
    );
}

#[test]
fn multi_purl_payload() {
    let purls = vec![
        Purl {
            package: "maven".to_string(),
            group_id: Some("org.apache.commons".to_string()),
            artifact_id: "commons-lang3".to_string(),
            version: "3.9".to_string(),
            purl_type: None,
        },
        Purl {
            package: "maven".to_string(),
            group_id: Some("org.foo".to_string()),
            artifact_id: "bar".to_string(),
            version: "1.0.0".to_string(),
            purl_type: None,
        },
    ];
    let coordinates: Vec<String> = strip_qualifiers(&purls).iter().map(|p| p.to_string()).collect();
    assert_eq!(
        serde_json::to_string(&coordinates).unwrap(),
        "[\"pkg:maven/org.apache.commons/commons-lang3@3.9\",\"pkg:maven/org.foo/bar@1.0.0\"]"
    );
}

#[test]
fn ossindex_answers_go_back_to_the_packages_that_were_asked_about() {
    let requested = vec![commons(Some("jar"))];
    let sent = strip_qualifiers(&requested);
    assert_eq!(sent, vec![commons(None)]);
    assert_eq!(match_against_purl(&sent[0], &requested), Some(&requested[0]));
    let mut other = commons(None);
    other.version = "9".to_string();
    assert_eq!(match_against_purl(&other, &requested), None);
    let reports = vec![
        VulnerabilityVersionInfo { purl: commons(None), vulnerabilities: vec![] },
        VulnerabilityVersionInfo { purl: other.clone(), vulnerabilities: vec![] },
    ];
    let restored = restore_purls(reports, &requested);
    assert_eq!(restored[0].purl, commons(Some("jar")));
    assert_eq!(restored[1].purl, other);
}

#[test]
fn cvss_scores_give_severities() {
    assert_eq!(calculate_violation_level(0), Severity::NoSeverity);
    assert_eq!(calculate_violation_level(1), Severity::Low);
    assert_eq!(calculate_violation_level(39), Severity::Low);
    assert_eq!(calculate_violation_level(40), Severity::Medium);
    assert_eq!(calculate_violation_level(69), Severity::Medium);
    assert_eq!(calculate_violation_level(70), Severity::High);
    assert_eq!(calculate_violation_level(75), Severity::High);
    assert_eq!(calculate_violation_level(89), Severity::High);
    assert_eq!(calculate_violation_level(90), Severity::Critical);
    assert_eq!(calculate_violation_level(100), Severity::Critical);
    assert_eq!(severity_from_score(91), Severity::Critical);
    assert_eq!(severity_from_score(90), Severity::High);
    assert_eq!(severity_from_score(70), Severity::Medium);
    assert_eq!(severity_from_score(40), Severity::Low);
    assert_eq!(severity_from_score(0), Severity::NoSeverity);
}

#[test]
fn versions_become_purls() {
    let purls = purls_for_versions(
        &commons(Some("jar")),
        vec!["1.0.0".to_string(), "1.0.1".to_string(), "3.0.0".to_string()],
    );
    assert_eq!(purls.len(), 3);
    assert_eq!(purls[2].to_string(), "pkg:maven/org.apache.commons/commons@3.0.0?type=jar");
}

#[test]
fn dummy_server_answers_for_every_package() {
    let dummy = Dummy;
    let versions = dummy.get_versions_for_purl(commons(None));
    assert_eq!(versions.len(), 2);
    assert_eq!(versions[0], commons(None));
    assert_eq!(versions[1].version, "1.4.01");
    let purls = vec![commons(None), commons(Some("jar"))];
    let answers = dummy.get_component_information(&purls);
    assert_eq!(answers.len(), 2);
    assert_eq!(answers[1].purl, purls[1]);
    assert_eq!(answers[0].vulnerabilities[0].summary, "Summary 0");
    assert_eq!(answers[1].vulnerabilities[0].detail, "Detail 1");
    assert_eq!(finding(120, Severity::Low).summary, "Summary 120");
}

#[test]
fn random_severity_is_one_of_the_five() {
    let all = [severity_of(0), severity_of(1), severity_of(2), severity_of(3), severity_of(4)];
    assert_eq!(
        all,
        [Severity::Critical, Severity::High, Severity::Medium, Severity::Low, Severity::NoSeverity]
    );
    assert_eq!(severity_of(17), Severity::NoSeverity);
    let drawn: Vec<Severity> = (0..400).map(|_| random_severity()).collect();
    assert!(drawn.iter().all(|s| all.contains(s)));
    assert!(drawn.iter().any(|s| *s != Severity::NoSeverity));
    assert!(drawn.iter().any(|s| *s != Severity::Critical));
}

#[test]
fn completion_texts_are_joined_by_empty_lines() {
    let value = VulnerabilityVersionInfo {
        purl: commons(None),
        vulnerabilities: vec![
            info(Severity::Low, "s1", "d1"),
            info(Severity::High, "s2", "d2"),
            info(Severity::Medium, "s3", "d3"),
        ],
    };
    assert_eq!(build_summary(&value), "\n\ns1\n\ns2\n\ns3");
    assert_eq!(format_summary(&value), "\n\ns1\n\ns2\n\ns3");
    assert_eq!(format_detail(&value), "\n\nd1\n\nd2\n\nd3");
    assert_eq!(highlight_severity(&value), Severity::High);
    assert_eq!(
        format_value(&value),
        "1.4.0 has highest severity of High\n\n\n\n\ns1\n\ns2\n\ns3\n\n\nd1\n\nd2\n\nd3"
    );
    let clean = VulnerabilityVersionInfo { purl: commons(None), vulnerabilities: vec![] };
    assert_eq!(highlight_severity(&clean), Severity::NoSeverity);
    assert_eq!(format_value(&clean), "1.4.0 has highest severity of None\n\n\n\n");
}

#[test]
fn diagnostic_is_placed_at_the_declaration() {
    let place = PurlRange::new(
        commons(None),
        Range::new(Position { row: 3, col: 4 }, Position { row: 5, col: 6 }),
    );
    let d = create_diagnostic(&place, &info(Severity::Critical, "summary", "detail"));
    assert_eq!((d.start.line, d.start.character, d.end.line, d.end.character), (3, 4, 5, 6));
    assert_eq!(d.severity, Some(DiagnosticLevel::Error));
    assert_eq!(d.source, "vulnerability");
    assert_eq!(d.message, "summary");
    assert_eq!(diagnostic_level(Severity::High), Some(DiagnosticLevel::Warning));
    assert_eq!(diagnostic_level(Severity::Medium), Some(DiagnosticLevel::Warning));
    assert_eq!(diagnostic_level(Severity::Low), Some(DiagnosticLevel::Information));
    assert_eq!(diagnostic_level(Severity::NoSeverity), None);
}

#[test]
fn hover_names_the_source_only_where_it_is_another_package() {
    let direct = commons(None);
    assert_eq!(hover_source(&direct, commons(None)), None);
    assert_eq!(hover_source(&direct, commons(Some("jar"))), Some(commons(Some("jar"))));
    assert_eq!(
        create_hover_message(&direct, None, info(Severity::Low, "s", "d")),
        "Direct: pkg:maven/org.apache.commons/commons@1.4.0
                Severity: Low
                s
                d
                "
    );
    assert_eq!(
        create_hover_message(&direct, Some(commons(Some("jar"))), info(Severity::High, "s", "d")),
        "Direct: pkg:maven/org.apache.commons/commons@1.4.0
                brings in: pkg:maven/org.apache.commons/commons@1.4.0?type=jar
                Severity: High
                s
                d
                "
    );
}

#[test]
fn document_store_keeps_the_last_text() {
    let mut store = DocumentStore::new();
    assert!(store.get("file:///a").is_none());
    store.insert("file:///a", "one".to_string());
    store.insert("file:///b", "two".to_string());
    store.insert("file:///a", "three".to_string());
    assert_eq!(store.get("file:///a").unwrap().document, "three");
    assert_eq!(store.get("file:///b").unwrap().document, "two");
    store.clear();
    assert!(store.get("file:///a").is_none());
}

#[test]
fn logging_filter_names_the_level() {
    assert_eq!(filter_directive(LogLevel::Debug), "vuln_lsp=Debug");
    assert_eq!(enable_tracing(Some(LogLevel::Warn)), Some("vuln_lsp=Warn".to_string()));
    assert_eq!(enable_tracing(None), None);
}

#[test]
fn server_types_are_told_apart() {
    let server = VulnerableServerType::Sonatype { base_url: "http://localhost".to_string() };
    assert!(matches!(server, VulnerableServerType::Sonatype { .. }));
    assert!(!matches!(VulnerableServerType::Dummy, VulnerableServerType::OssIndex));
}

#[test]
fn text_helpers_read_lines_and_numbers() {
    let read = |s: &str| -> Vec<String> {
        lines(&chars_of(s)).iter().map(|l| l.iter().collect()).collect()
    };
    assert_eq!(read("a\r\nb\n\nc\r"), vec!["a", "b", "", "c\r"]);
    assert_eq!(read(""), Vec::<String>::new());
    assert_eq!(read("\n"), vec![""]);
    assert_eq!(read("x"), vec!["x"]);
    let trimmed: String = trim(&chars_of(" \t\u{a0}a b\u{3000}\n")).iter().collect();
    assert_eq!(trimmed, "a b");
    assert_eq!(decimal(0).iter().collect::<String>(), "0");
    assert_eq!(decimal(40962).iter().collect::<String>(), "40962");
}
