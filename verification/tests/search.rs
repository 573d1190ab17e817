use metrics_registry::search::{name_matches, MAX_QUERY_LEN};

#[test]
fn empty_query_matches_every_name() {
    assert!(name_matches("requests_total", ""));
    assert!(name_matches("", ""));
    assert!(name_matches("Hello, 世界", ""));
}

#[test]
fn scattered_characters_match_in_order() {
    assert!(name_matches("requests_total", "reqtot"));
    assert!(name_matches("requests_total", "rt"));
    assert!(name_matches("axbycz", "abc"));
    assert!(name_matches("axbycz", "xyz"));
    assert!(name_matches("Hello, 世界", "H世"));
}

#[test]
fn characters_out_of_order_do_not_match() {
    assert!(!name_matches("requests_total", "totreq"));
    assert!(!name_matches("abc", "abx"));
    assert!(!name_matches("abc", "cba"));
    assert!(!name_matches("requests_total", "xyz123"));
}

#[test]
fn query_longer_than_name_does_not_match() {
    assert!(!name_matches("", "a"));
    assert!(!name_matches("ab", "abc"));
    assert!(!name_matches("aa", "aaa"));
}

#[test]
fn every_contiguous_part_matches() {
    let name = "http_requests_total";
    let chars: Vec<char> = name.chars().collect();
    for start in 0..=chars.len() {
        for end in start..=chars.len() {
            let part: String = chars[start..end].iter().collect();
            assert!(name_matches(name, &part), "{part:?} should match");
        }
    }
}

#[test]
fn lower_case_query_ignores_case() {
    assert!(name_matches("Requests_Total", "requests"));
    assert!(name_matches("REQUESTS", "req"));
    assert!(name_matches("HttpRequests", "httpreq"));
}

#[test]
fn query_with_upper_case_respects_case() {
    assert!(name_matches("HttpRequests", "HR"));
    assert!(name_matches("HttpRequests", "HttpR"));
    assert!(!name_matches("requests_total", "REQ"));
    assert!(!name_matches("requests_total", "Req"));
    assert!(!name_matches("httprequests", "hR"));
}

#[test]
fn only_ascii_letters_fold() {
    assert!(!name_matches("Ärger", "ärger"));
    assert!(name_matches("Ärger", "Ärger"));
    assert!(name_matches("ärger", "ärger"));
    assert!(!name_matches("abc", "中"));
}

#[test]
fn repeated_characters_need_as_many_in_the_name() {
    assert!(name_matches("banana", "aaa"));
    assert!(!name_matches("banana", "aaaa"));
    assert!(name_matches("banana", "bnn"));
    assert!(!name_matches("banana", "bnnn"));
}

#[test]
fn long_names_and_queries_are_matched() {
    assert_eq!(MAX_QUERY_LEN, 16_777_216);
    let long_query = "a".repeat(4096);
    let long_name = "a".repeat(5000);
    assert!(name_matches(&long_name, &long_query));
    assert!(!name_matches(&long_query, &long_name));
}

#[test]
fn query_beyond_the_limit_is_matched_by_scanning() {
    let mut query = "a".repeat(MAX_QUERY_LEN);
    query.push('b');
    assert!(!name_matches("requests_total", &query));
    assert!(!name_matches("", &query));
    let mut name = String::from("x");
    name.push_str(&query);
    name.push('y');
    assert!(name_matches(&name, &query));
    name.pop();
    name.pop();
    assert!(!name_matches(&name, &query));
}

#[test]
fn query_beyond_the_limit_follows_the_same_rules() {
    let filler = "a".repeat(MAX_QUERY_LEN);
    let lower = format!("{filler}req");
    let upper = format!("{filler}Req");
    let name = format!("x{filler}_Requests_total");
    let lower_name = format!("x{filler}_requests_total");
    assert!(name_matches(&name, &lower));
    assert!(name_matches(&name, &upper));
    assert!(name_matches(&lower_name, &lower));
    assert!(!name_matches(&lower_name, &upper));
    assert!(!name_matches(&filler, &lower));
}
