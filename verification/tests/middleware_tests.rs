use vuln_lsp::common::VulnLspError;
use vuln_lsp::middleware::Middleware;
use vuln_lsp::parsers::{BuildReport, ParserManager};
use vuln_lsp::purl::Purl;
use vuln_lsp::server::{Severity, VulnerabilityInformation, VulnerabilityVersionInfo};

const MANIFEST: &str = "[package]\nname = \"demo\"\nversion = \"0.1.0\"\n\n[dependencies]\ntokio = \"1.34.0\"\nrand = \"0.8.5\"\n";

fn cargo(name: &str, version: &str) -> Purl {
    Purl {
        package: "cargo".to_string(),
        group_id: None,
        artifact_id: name.to_string(),
        version: version.to_string(),
        purl_type: None,
    }
}

fn answer(purl: Purl, severities: &[Severity]) -> VulnerabilityVersionInfo {
    VulnerabilityVersionInfo {
        purl,
        vulnerabilities: severities
            .iter()
            .map(|s| VulnerabilityInformation {
                severity: *s,
                summary: format!("{:?}", s),
                detail: String::new(),
                license: vec![],
            })
            .collect(),
    }
}

#[test]
fn pipeline_goes_from_text_to_placed_findings() {
    let uri = "file:///work/demo/Cargo.toml";
    let mut middleware = Middleware::new(ParserManager::new(false));
    assert!(!middleware.parser_manager().includes_transitives());
    middleware.store_document(uri, MANIFEST.to_string());
    assert_eq!(middleware.document(uri).unwrap(), MANIFEST);

    let requests = middleware.update_dependencies(uri, &vec![], BuildReport::Missing).unwrap();
    assert_eq!(requests, vec![vec![cargo("rand", "0.8.5"), cargo("tokio", "1.34.0")]]);
    assert!(middleware.get_security_information_for_document(uri).is_empty());

    middleware.complete_update(
        uri,
        vec![Some(vec![
            answer(cargo("tokio", "1.34.0"), &[Severity::Medium, Severity::High]),
            answer(cargo("rand", "0.8.5"), &[]),
        ])],
    );
    let findings = middleware.get_security_information_for_document(uri);
    assert_eq!(findings.len(), 1);
    assert_eq!(findings[0].0.purl, cargo("tokio", "1.34.0"));
    assert_eq!(findings[0].0.range.start.row, 5);
    assert_eq!(findings[0].1.severity, Severity::High);

    assert_eq!(middleware.get_purl_position_in_document(uri, 6), Some(cargo("rand", "0.8.5")));
    assert_eq!(middleware.get_purl_position_in_document(uri, 0), None);
    let hover = middleware
        .get_calculated_security_information_for_direct_dependency(uri, &cargo("tokio", "1.34.0"))
        .unwrap();
    assert_eq!(hover.0, cargo("tokio", "1.34.0"));

    let again = middleware.update_dependencies(uri, &vec![], BuildReport::Missing).unwrap();
    assert!(again.is_empty());
}

#[test]
fn failed_parse_leaves_what_is_known() {
    let uri = "Cargo.toml";
    let mut middleware = Middleware::new(ParserManager::new(false));
    middleware.store_document(uri, MANIFEST.to_string());
    middleware.update_dependencies(uri, &vec![], BuildReport::Missing).unwrap();
    middleware.complete_update(
        uri,
        vec![Some(vec![answer(cargo("rand", "0.8.5"), &[Severity::Low])])],
    );
    assert_eq!(middleware.get_security_information_for_document(uri).len(), 1);

    middleware.store_document(uri, "[dependencies\nbroken".to_string());
    let failed = middleware.update_dependencies(uri, &vec![], BuildReport::Missing);
    assert!(matches!(failed, Err(VulnLspError::ManifestParse(_))));
    let findings = middleware.get_security_information_for_document(uri);
    assert_eq!(findings.len(), 1);
    assert_eq!(findings[0].0.range.start.row, 6);
}

#[test]
fn failed_request_caches_nothing() {
    let uri = "Cargo.toml";
    let mut middleware = Middleware::new(ParserManager::new(false));
    middleware.store_document(uri, MANIFEST.to_string());
    let requests = middleware.update_dependencies(uri, &vec![], BuildReport::Missing).unwrap();
    assert_eq!(requests.len(), 1);
    middleware.complete_update(
        uri,
        vec![Some(vec![answer(cargo("rand", "0.8.5"), &[Severity::Low])]), None],
    );
    assert!(middleware.get_security_information_for_document(uri).is_empty());
    let asked_again = middleware.update_dependencies(uri, &vec![], BuildReport::Missing).unwrap();
    assert_eq!(asked_again, requests);
}

#[test]
fn unknown_document_asks_nothing() {
    let mut middleware = Middleware::new(ParserManager::new(true));
    let requests = middleware.update_dependencies("pom.xml", &vec![], BuildReport::Missing).unwrap();
    assert!(requests.is_empty());
    middleware.complete_update("pom.xml", vec![]);
    assert!(middleware.get_security_information_for_document("pom.xml").is_empty());
    assert!(middleware.get_purl_position_in_document("pom.xml", 1).is_none());
    middleware.store_document("notes.txt", "text".to_string());
    let failed = middleware.update_dependencies("notes.txt", &vec![], BuildReport::Missing);
    assert!(matches!(failed, Err(VulnLspError::ParserNotFound(_))));
}
