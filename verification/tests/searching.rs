use logstats::search::{build_search_query, join_ids, search_log_ids, Parameters, SearchError,
    SearchResponse, SearchResults};

#[test]
fn joins_player_ids_with_commas() {
    assert_eq!(join_ids(&vec![]), "");
    assert_eq!(join_ids(&vec![76561197960287930]), "76561197960287930");
    assert_eq!(join_ids(&vec![1, 22, 333]), "1,22,333");
}

#[test]
fn short_title_is_rejected() {
    let r = build_search_query(&Some("x".to_string()), &None, &None, &None, &None, &None);
    assert!(matches!(r, Err(SearchError::TitleTooShort)));
}

#[test]
fn empty_title_is_rejected() {
    let r = build_search_query(&Some("".to_string()), &None, &None, &None, &None, &None);
    assert!(matches!(r, Err(SearchError::TitleTooShort)));
}

#[test]
fn two_character_title_passes() {
    let r = build_search_query(&Some("xy".to_string()), &None, &None, &None, &None, &None);
    let pairs = r.unwrap();
    assert_eq!(pairs, vec![("title".to_string(), "xy".to_string())]);
}

#[test]
fn all_filters_in_order() {
    let r = build_search_query(
        &Some("my match".to_string()),
        &Some("pl_upward".to_string()),
        &Some(76561197960287930),
        &Some(vec![76561197960287930, 76561197960287931]),
        &Some(25),
        &Some(50),
    );
    let pairs = r.unwrap();
    assert_eq!(
        pairs,
        vec![
            ("title".to_string(), "my match".to_string()),
            ("map".to_string(), "pl_upward".to_string()),
            ("uploader".to_string(), "76561197960287930".to_string()),
            ("player".to_string(), "76561197960287930,76561197960287931".to_string()),
            ("limit".to_string(), "25".to_string()),
            ("offset".to_string(), "50".to_string()),
        ]
    );
}

#[test]
fn no_filters_build_an_empty_query() {
    let r = build_search_query(&None, &None, &None, &None, &None, &None);
    assert_eq!(r.unwrap(), vec![]);
}

fn listing(id: u32) -> SearchResults {
    SearchResults {
        id,
        title: "a log".to_string(),
        map: "cp_process".to_string(),
        date: 1700000000,
        views: 3,
        players: 12,
    }
}

#[test]
fn search_response_yields_its_ids() {
    let resp = SearchResponse {
        results: 2,
        total: 40,
        parameters: Parameters {
            title: None,
            map: Some("cp_process".to_string()),
            uploader: None,
            players: None,
            limit: Some(2),
            offset: None,
        },
        logs: vec![listing(3300001), listing(3300002)],
    };
    assert_eq!(search_log_ids(&resp), vec![3300001, 3300002]);
}
