use vuln_lsp::purl::{Purl, PurlDecodeError};

#[test]
fn purl_can_deserialize() {
    let purl = "\"pkg:maven/org.apache.commons/commons-lang3@3.9?type=jar\"";
    let text: String = serde_json::from_str(purl).unwrap();
    let purl = Purl::decode(&text).unwrap();

    assert_eq!(purl.package, "maven");
    assert_eq!(purl.group_id.unwrap(), "org.apache.commons");
    assert_eq!(purl.artifact_id, "commons-lang3");
    assert_eq!(purl.version, "3.9");
}

#[test]
fn purl_can_deserialize_npm() {
    let purl = "\"pkg:npm/foobar@12.3.1\"";
    let text: String = serde_json::from_str(purl).unwrap();
    let purl = Purl::decode(&text).unwrap();

    assert_eq!(purl.package, "npm");
    assert_eq!(purl.group_id, None);
    assert_eq!(purl.artifact_id, "foobar");
    assert_eq!(purl.version, "12.3.1");
}

#[test]
fn purl_can_deserialize_struts() {
    let text: String =
        serde_json::from_str("\"pkg:maven/org.apache.struts/struts-core@1.3.10\"").unwrap();
    let purl = Purl::decode(&text).unwrap();

    assert_eq!(purl.package, "maven");
    assert_eq!(purl.group_id.unwrap(), "org.apache.struts");
    assert_eq!(purl.artifact_id, "struts-core");
    assert_eq!(purl.version, "1.3.10");
}

#[test]
fn purl_round_trip_with_type() {
    let text = "pkg:maven/org.apache.commons/commons-lang3@3.9?type=jar";
    let purl = Purl::decode(text).unwrap();
    assert_eq!(purl.purl_type, Some("jar".to_string()));
    assert_eq!(purl.to_string(), text);
}

#[test]
fn purl_round_trip_normalizes_version() {
    let purl = Purl::decode("pkg:cargo/tokio@>= 1.34.0").unwrap();
    assert_eq!(purl.version, "1.34.0");
    assert_eq!(purl.to_string(), "pkg:cargo/tokio@1.34.0");
}

#[test]
fn purl_decode_rejects_missing_prefix() {
    assert_eq!(Purl::decode("npm/foobar@1.0"), Err(PurlDecodeError::InvalidPrefix));
}

#[test]
fn purl_decode_rejects_missing_version() {
    assert_eq!(Purl::decode("pkg:npm/foobar"), Err(PurlDecodeError::VersionNotFound));
}

#[test]
fn purl_decode_rejects_wrong_segment_count() {
    assert_eq!(Purl::decode("pkg:npm"), Err(PurlDecodeError::InvalidPurl));
    assert_eq!(Purl::decode("pkg:a/b/c/d@1"), Err(PurlDecodeError::InvalidPurl));
    assert_eq!(Purl::decode(""), Err(PurlDecodeError::InvalidPurl));
}

#[test]
fn purl_new_strips_comparators() {
    let purl = Purl::new("cargo", None, "serde", "~1.0 <2", None);
    assert_eq!(purl.version, "1.02");
    assert_eq!(purl.to_string(), "pkg:cargo/serde@1.02");
}

#[test]
fn purl_type_is_first_type_qualifier() {
    let purl = Purl::decode("pkg:maven/g/a@1.0?os=linux&type=jar&type=war").unwrap();
    assert_eq!(purl.purl_type, Some("jar".to_string()));
}

#[test]
fn purl_equality_is_by_all_fields() {
    let a = Purl::new("maven", Some("g".to_string()), "a", "1.0", Some("jar".to_string()));
    let b = Purl::new("maven", Some("g".to_string()), "a", "1.0", Some("jar".to_string()));
    let c = Purl::new("maven", Some("g".to_string()), "a", "1.0", None);
    assert_eq!(a, b);
    assert_ne!(a, c);
    assert_eq!(a.clone(), a);
}
