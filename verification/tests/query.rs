use gmc_ingest::query::QueryParams;

fn pairs(list: &[(&str, &str)]) -> Vec<(String, String)> {
    list.iter().map(|(n, v)| (n.to_string(), v.to_string())).collect()
}

#[test]
fn a_request_without_a_query_has_no_parameters() {
    let params = QueryParams::parse(None);
    assert_eq!(params.get("CPM"), None);
    assert_eq!(params, QueryParams::from_pairs(Vec::new()));
}

#[test]
fn an_empty_query_has_no_parameters() {
    let params = QueryParams::parse(Some(""));
    assert_eq!(params.get("CPM"), None);
    assert_eq!(params.get(""), None);
}

#[test]
fn parses_names_and_values() {
    let params = QueryParams::parse(Some("CPM=10.5&ACPM=12.3&uSV=0.05"));
    assert_eq!(params.get("CPM"), Some("10.5"));
    assert_eq!(params.get("ACPM"), Some("12.3"));
    assert_eq!(params.get("uSV"), Some("0.05"));
    assert_eq!(params, QueryParams::from_pairs(pairs(&[("CPM", "10.5"), ("ACPM", "12.3"), ("uSV", "0.05")])));
}

#[test]
fn the_last_value_of_a_name_wins() {
    let params = QueryParams::parse(Some("CPM=1&CPM=2&ACPM=3&CPM=4"));
    assert_eq!(params.get("CPM"), Some("4"));
    assert_eq!(params.get("ACPM"), Some("3"));
    let params = QueryParams::from_pairs(pairs(&[("a", "first"), ("b", "x"), ("a", "second")]));
    assert_eq!(params.get("a"), Some("second"));
}

#[test]
fn names_are_matched_exactly() {
    let params = QueryParams::parse(Some("cpm=1&Cpm=2&usv=3"));
    assert_eq!(params.get("CPM"), None);
    assert_eq!(params.get("uSV"), None);
    assert_eq!(params.get("cpm"), Some("1"));
}

#[test]
fn other_names_are_ignored() {
    let params = QueryParams::parse(Some("ID=0001&CPM=15&GID=77"));
    assert_eq!(params.get("CPM"), Some("15"));
    assert_eq!(params.get("AID"), None);
}

#[test]
fn values_are_decoded() {
    let params = QueryParams::parse(Some("CPM=1%2E5&a+b=c+d&%23first=%25try%25"));
    assert_eq!(params.get("CPM"), Some("1.5"));
    assert_eq!(params.get("a b"), Some("c d"));
    assert_eq!(params.get("#first"), Some("%try%"));
}

#[test]
fn a_name_without_a_value_is_bound_to_the_empty_text() {
    let params = QueryParams::parse(Some("CPM&ACPM=&&uSV=1"));
    assert_eq!(params.get("CPM"), Some(""));
    assert_eq!(params.get("ACPM"), Some(""));
    assert_eq!(params.get("uSV"), Some("1"));
}

#[test]
fn a_value_may_hold_an_equals_sign() {
    let params = QueryParams::parse(Some("CPM=1=2"));
    assert_eq!(params.get("CPM"), Some("1=2"));
}
