use vuln_lsp::cacher::{Cacher, VulnerabilityCache};
use vuln_lsp::common::VulnLspError;
use vuln_lsp::common::ParseContent;
use vuln_lsp::middleware::{
    aggregate, batch, calculate_security_warning, chunks, collect_batches,
    fetch_and_cache_vulnerabilities, flatten_transitives,
    get_calculated_security_information_for_direct_dependency,
    get_missing_purls_from_vuln_store, get_purl_position_in_document,
    get_security_information_for_document, choose_finding, BATCH_SIZE,
};
use vuln_lsp::purl::Purl;
use vuln_lsp::key_map::PurlMap;
use vuln_lsp::range::{Position, Range};
use vuln_lsp::server::{Severity, VulnerabilityInformation, VulnerabilityVersionInfo};

fn purl(name: &str) -> Purl {
    Purl {
        package: "cargo".to_string(),
        group_id: None,
        artifact_id: name.to_string(),
        version: "1.0.0".to_string(),
        purl_type: None,
    }
}

fn finding(severity: Severity, summary: &str) -> VulnerabilityInformation {
    VulnerabilityInformation {
        severity,
        summary: summary.to_string(),
        detail: format!("detail of {}", summary),
        license: vec![],
    }
}

fn info(name: &str, findings: Vec<VulnerabilityInformation>) -> VulnerabilityVersionInfo {
    VulnerabilityVersionInfo { purl: purl(name), vulnerabilities: findings }
}

fn summaries(cache: &VulnerabilityCache, names: &[&str]) -> Vec<(String, Vec<String>)> {
    let keys: Vec<Purl> = names.iter().map(|n| purl(n)).collect();
    let found = cache.get(&keys).unwrap();
    names
        .iter()
        .filter_map(|n| {
            found.get(&purl(n)).map(|v| {
                (n.to_string(), v.vulnerabilities.iter().map(|f| f.summary.clone()).collect())
            })
        })
        .collect()
}

#[test]
fn cache_put_many_twice_is_put_many_once() {
    let values = vec![
        info("a", vec![finding(Severity::Low, "a1")]),
        info("b", vec![]),
        info("a", vec![finding(Severity::High, "a2")]),
    ];
    let mut once = VulnerabilityCache::new();
    once.put_many(values.clone());
    let mut twice = VulnerabilityCache::new();
    twice.put_many(values.clone());
    twice.put_many(values);
    let names = ["a", "b", "c"];
    assert_eq!(summaries(&once, &names), summaries(&twice, &names));
    assert_eq!(
        summaries(&once, &names),
        vec![("a".to_string(), vec!["a2".to_string()]), ("b".to_string(), vec![])]
    );
}

#[test]
fn cache_missing_keys_are_those_not_put() {
    let mut cache = VulnerabilityCache::new();
    cache.put_many(vec![info("a", vec![]), info("b", vec![finding(Severity::Low, "b1")])]);
    let keys = vec![purl("c"), purl("a"), purl("d"), purl("b"), purl("c")];
    assert_eq!(cache.find_not_found_keys(&keys), vec![purl("c"), purl("d"), purl("c")]);
    assert_eq!(get_missing_purls_from_vuln_store(&cache, &keys[1..2]), vec![]);
    assert!(cache.contains(&purl("a")));
    assert!(cache.lookup(&purl("c")).is_none());
}

#[test]
fn cache_put_overwrites_by_key() {
    let mut cache = VulnerabilityCache::new();
    cache.put(purl("a"), info("a", vec![finding(Severity::Low, "old")]));
    cache.put(purl("a"), info("a", vec![finding(Severity::Low, "new")]));
    assert_eq!(cache.lookup(&purl("a")).unwrap().vulnerabilities[0].summary, "new");
    let found = cache.get(&[purl("a"), purl("b")]).unwrap();
    assert_eq!(found.len(), 1);
}

fn parsed(entries: &[(&str, usize, &[&str])]) -> ParseContent {
    let mut ranges = PurlMap::new();
    let mut transitives = PurlMap::new();
    for (name, row, closure) in entries {
        ranges.insert(
            purl(name),
            Range::new(Position { row: *row, col: 0 }, Position { row: *row, col: 10 }),
        );
        if !closure.is_empty() {
            transitives.insert(purl(name), closure.iter().map(|c| purl(c)).collect());
        }
    }
    ParseContent { ranges, transitives }
}

#[test]
fn aggregation_selects_the_critical_entry() {
    let content = parsed(&[("d", 3, &["d", "t1", "t2"])]);
    let mut cache = VulnerabilityCache::new();
    cache.put_many(vec![
        info("d", vec![finding(Severity::Low, "low")]),
        info("t1", vec![finding(Severity::Critical, "critical")]),
        info("t2", vec![finding(Severity::Medium, "medium")]),
    ]);
    let found = aggregate(&content, &cache);
    assert_eq!(found.len(), 1);
    assert_eq!(found[0].0.start.row, 3);
    assert_eq!(found[0].1.severity, Severity::Critical);
    assert_eq!(found[0].1.summary, "critical");
    assert_eq!(found[0].1.detail, "detail of critical");
}

#[test]
fn aggregation_breaks_ties_by_the_later_entry() {
    let closure = vec![purl("x"), purl("y")];
    let mut cache = VulnerabilityCache::new();
    cache.put_many(vec![
        info("x", vec![finding(Severity::High, "x-high"), finding(Severity::NoSeverity, "x-none")]),
        info("y", vec![finding(Severity::Medium, "y-medium"), finding(Severity::High, "y-high")]),
    ]);
    let (source, chosen) = choose_finding(&closure, &cache).unwrap();
    assert_eq!(source, purl("y"));
    assert_eq!(chosen.summary, "y-high");
    assert!(choose_finding(&vec![purl("z")], &cache).is_none());
}

#[test]
fn aggregation_gives_one_finding_per_declaration_with_findings() {
    let content = parsed(&[("a", 1, &["a", "t"]), ("b", 2, &["b"]), ("c", 4, &[])]);
    let mut cache = VulnerabilityCache::new();
    cache.put_many(vec![
        info("t", vec![finding(Severity::Medium, "t-medium")]),
        info("b", vec![]),
        info("c", vec![finding(Severity::Low, "c-low")]),
    ]);
    let warnings = calculate_security_warning(&content, &cache);
    assert_eq!(warnings.len(), 2);
    assert_eq!(warnings[0].direct, purl("a"));
    assert_eq!(warnings[0].source, purl("t"));
    assert_eq!(warnings[1].direct, purl("c"));
    assert_eq!(warnings[1].source, purl("c"));
    let placed = get_security_information_for_document(&content, &warnings);
    assert_eq!(placed.len(), 2);
    assert_eq!(placed[0].0.purl, purl("t"));
    assert_eq!(placed[0].0.range.start.row, 1);
    assert_eq!(placed[1].0.range.start.row, 4);
    let hover = get_calculated_security_information_for_direct_dependency(&warnings, &purl("a"));
    assert_eq!(hover.unwrap().1.summary, "t-medium");
    assert!(get_calculated_security_information_for_direct_dependency(&warnings, &purl("b")).is_none());
    let found = aggregate(&content, &cache);
    assert_eq!(found.len(), 2);
    assert_eq!(found[1].1.severity, Severity::Low);
}

#[test]
fn declaration_is_found_by_its_line() {
    let content = parsed(&[("a", 1, &[]), ("b", 5, &[])]);
    assert_eq!(get_purl_position_in_document(&content, 5), Some(purl("b")));
    assert_eq!(get_purl_position_in_document(&content, 2), None);
}

#[test]
fn transitives_are_flattened_in_order() {
    let content = parsed(&[("a", 1, &["a", "t"]), ("b", 2, &["b", "t"])]);
    assert_eq!(flatten_transitives(&content), vec![purl("a"), purl("t"), purl("b"), purl("t")]);
}

#[test]
fn requests_are_cut_into_batches() {
    let purls: Vec<Purl> = (0..250).map(|i| purl(&format!("p{}", i))).collect();
    let batches = batch(&purls);
    assert_eq!(BATCH_SIZE, 100);
    assert_eq!(batches.iter().map(|b| b.len()).collect::<Vec<_>>(), vec![100, 100, 50]);
    assert_eq!(batches.concat(), purls);
    assert!(batch(&[]).is_empty());
    assert_eq!(chunks(&purls[..4], 2), vec![purls[..2].to_vec(), purls[2..4].to_vec()]);
}

#[test]
fn failed_batch_fails_the_refill_and_leaves_the_cache() {
    let answers = vec![Some(vec![info("a", vec![])]), None, Some(vec![info("b", vec![])])];
    let fetched = collect_batches(answers);
    match &fetched {
        Err(e @ VulnLspError::ServerError(_)) => {
            assert_eq!(e.message(), "Server error Error requesting batches")
        }
        _ => panic!("the refill went through"),
    }
    let mut cache = VulnerabilityCache::new();
    cache.put(purl("z"), info("z", vec![]));
    fetch_and_cache_vulnerabilities(&mut cache, fetched);
    assert!(!cache.contains(&purl("a")));
    assert!(cache.contains(&purl("z")));
}

#[test]
fn answers_without_findings_are_cached() {
    let answers = vec![Some(vec![info("a", vec![])]), Some(vec![info("b", vec![])])];
    let fetched = collect_batches(answers);
    let mut cache = VulnerabilityCache::new();
    fetch_and_cache_vulnerabilities(&mut cache, fetched);
    assert!(cache.contains(&purl("a")));
    assert!(cache.contains(&purl("b")));
    assert!(cache.find_not_found_keys(&[purl("a"), purl("b")]).is_empty());
}

#[test]
fn range_holds_its_first_and_last_line() {
    let range = Range::new(Position { row: 3, col: 7 }, Position { row: 5, col: 0 });
    assert!(!range.contains_position(2));
    assert!(range.contains_position(3));
    assert!(range.contains_position(4));
    assert!(range.contains_position(5));
    assert!(!range.contains_position(6));
}

#[test]
fn severity_order_is_critical_first() {
    assert!(Severity::Critical.at_least(&Severity::High));
    assert!(Severity::High.at_least(&Severity::Medium));
    assert!(Severity::Medium.at_least(&Severity::Low));
    assert!(Severity::Low.at_least(&Severity::NoSeverity));
    assert!(!Severity::NoSeverity.at_least(&Severity::Low));
    assert_eq!(Severity::Critical.level(), 4);
    assert_eq!(Severity::NoSeverity.name(), "None");
}

#[test]
fn cache_takes_other_keys() {
    let mut cache: Cacher<String, VulnerabilityVersionInfo> = Cacher::new();
    cache.put("a".to_string(), info("a", vec![finding(Severity::Low, "a1")]));
    cache.put("b".to_string(), info("b", vec![]));
    let keys = vec!["b".to_string(), "c".to_string(), "a".to_string()];
    assert_eq!(cache.find_not_found_keys(&keys), vec!["c".to_string()]);
    let found = cache.get(&keys).unwrap();
    assert_eq!(found.len(), 2);
    assert_eq!(found.key_at(0), "b");
    assert_eq!(found.get(&"a".to_string()).unwrap().vulnerabilities[0].summary, "a1");
    assert!(cache.contains(&"a".to_string()));
    assert!(cache.lookup(&"c".to_string()).is_none());
}
