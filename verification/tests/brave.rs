use mcp_aggregator::brave::api_failure;
use mcp_aggregator::brave::bound;
use mcp_aggregator::brave::news_search_reply;
use mcp_aggregator::brave::web_search_reply;
use mcp_aggregator::brave::BraveSearchRouter;
use mcp_aggregator::brave::NewsResponse;
use mcp_aggregator::brave::SearchPlan;
use mcp_aggregator::brave::SearchRequest;
use mcp_aggregator::codes::CountryCode;
use mcp_aggregator::codes::LanguageCode;
use mcp_aggregator::search_text::LocationRef;
use mcp_aggregator::search_text::NewsResult;
use mcp_aggregator::search_text::WebResult;

fn pairs(list: &[(&str, &str)]) -> Vec<(String, String)> {
    list.iter().map(|(key, value)| (String::from(*key), String::from(*value))).collect()
}

fn headers(key: &str) -> Vec<(String, String)> {
    pairs(&[
        ("Accept", "application/json"),
        ("Accept-Encoding", "gzip"),
        ("X-Subscription-Token", key),
    ])
}

fn sent(plan: SearchPlan) -> SearchRequest {
    match plan {
        SearchPlan::Send(request) => request,
        SearchPlan::Reply(text) => panic!("no request, but the reply {}", text),
    }
}

fn reply(plan: SearchPlan) -> String {
    match plan {
        SearchPlan::Reply(text) => text,
        SearchPlan::Send(request) => panic!("no reply, but a request to {}", request.url),
    }
}

#[test]
fn counts_have_a_default_and_a_ceiling() {
    assert_eq!(bound(None, 10, 20), 10);
    assert_eq!(bound(Some(3), 10, 20), 3);
    assert_eq!(bound(Some(20), 10, 20), 20);
    assert_eq!(bound(Some(21), 10, 20), 20);
    assert_eq!(bound(Some(0), 10, 20), 0);
    assert_eq!(bound(None, 0, 9), 0);
}

#[test]
fn web_search_request() {
    let mut router = BraveSearchRouter::new(String::from("my-key"));
    let request = router.perform_web_search("rust language", 3, 1).expect("the first call is granted");
    assert_eq!(request.url, "https://api.search.brave.com/res/v1/web/search");
    assert_eq!(request.params, pairs(&[("q", "rust language"), ("count", "3"), ("offset", "1")]));
    assert_eq!(request.headers, headers("my-key"));
}

#[test]
fn second_request_within_the_second_is_refused() {
    let mut router = BraveSearchRouter::new(String::from("k"));
    assert!(router.perform_web_search("a", 1, 0).is_ok());
    let mut refused = 0;
    for _ in 0..3 {
        if router.perform_web_search("a", 1, 0).is_err() {
            refused += 1;
        }
    }
    assert!(refused >= 2);
}

#[test]
fn web_search_tool_bounds_count_and_offset() {
    let mut router = BraveSearchRouter::new(String::from("k"));
    let request = sent(router.brave_web_search("q", Some(100), Some(100)));
    assert_eq!(request.params, pairs(&[("q", "q"), ("count", "20"), ("offset", "9")]));
    let mut router = BraveSearchRouter::new(String::from("k"));
    let request = sent(router.brave_web_search("q", None, None));
    assert_eq!(request.params, pairs(&[("q", "q"), ("count", "10"), ("offset", "0")]));
}

#[test]
fn refused_tool_replies_with_the_refusal() {
    let mut router = BraveSearchRouter::new(String::from("k"));
    let _ = sent(router.brave_web_search("q", None, None));
    let mut replies = Vec::new();
    for _ in 0..3 {
        if let SearchPlan::Reply(text) = router.brave_web_search("q", None, None) {
            replies.push(text);
        }
    }
    assert!(replies.len() >= 2);
    assert!(replies.iter().all(|text| text == "Error: Rate limit exceeded"));
}

#[test]
fn news_search_request_with_defaults() {
    let mut router = BraveSearchRouter::new(String::from("k"));
    let request = router
        .perform_news_search("technology", 20, 0, None, None, None)
        .expect("the first call is granted");
    assert_eq!(request.url, "https://api.search.brave.com/res/v1/news/search");
    assert_eq!(
        request.params,
        pairs(&[
            ("q", "technology"),
            ("count", "20"),
            ("offset", "0"),
            ("country", "us"),
            ("search_lang", "en"),
            ("spellcheck", "1"),
        ])
    );
    assert_eq!(request.headers, headers("k"));
}

#[test]
fn news_search_request_with_everything() {
    let mut router = BraveSearchRouter::new(String::from("k"));
    let request = router
        .perform_news_search(
            "technology",
            3,
            2,
            Some(CountryCode::JP),
            Some(LanguageCode::ZH_HANS),
            Some("w"),
        )
        .expect("the first call is granted");
    assert_eq!(
        request.params,
        pairs(&[
            ("q", "technology"),
            ("count", "3"),
            ("offset", "2"),
            ("country", "jp"),
            ("search_lang", "zh-hans"),
            ("spellcheck", "1"),
            ("freshness", "w"),
        ])
    );
}

#[test]
fn news_tool_reads_the_codes() {
    let mut router = BraveSearchRouter::new(String::from("k"));
    let request = sent(router.brave_news_search(
        "news",
        Some(60),
        None,
        Some("gb"),
        Some("EN-GB"),
        None,
    ));
    assert_eq!(
        request.params,
        pairs(&[
            ("q", "news"),
            ("count", "50"),
            ("offset", "0"),
            ("country", "gb"),
            ("search_lang", "en-gb"),
            ("spellcheck", "1"),
        ])
    );
}

#[test]
fn news_tool_refuses_unknown_codes_without_using_the_budget() {
    let mut router = BraveSearchRouter::new(String::from("k"));
    assert_eq!(
        reply(router.brave_news_search("news", None, None, Some("xx"), Some("yy"), None)),
        "Error parsing country code: Unknown country code: xx"
    );
    assert_eq!(
        reply(router.brave_news_search("news", None, None, Some("us"), Some("yy"), None)),
        "Error parsing language code: Unknown language code: yy"
    );
    let request = sent(router.brave_news_search("news", None, None, None, None, Some("d")));
    assert_eq!(request.params.len(), 7);
    assert_eq!(request.params[1], (String::from("count"), String::from("20")));
}

#[test]
fn local_search_request() {
    let mut router = BraveSearchRouter::new(String::from("k"));
    let request = sent(router.brave_local_search("coffee shop", Some(2)));
    assert_eq!(request.url, "https://api.search.brave.com/res/v1/web/search");
    assert_eq!(
        request.params,
        pairs(&[
            ("q", "coffee shop"),
            ("search_lang", "en"),
            ("result_filter", "locations"),
            ("count", "2"),
        ])
    );
    let mut router = BraveSearchRouter::new(String::from("k"));
    let request = sent(router.brave_local_search("coffee shop", None));
    assert_eq!(request.params[3], (String::from("count"), String::from("5")));
    let mut router = BraveSearchRouter::new(String::from("k"));
    let request = router.perform_local_search("x", 21).expect("the first call is granted");
    assert_eq!(request.params[3], (String::from("count"), String::from("21")));
}

#[test]
fn found_places_are_shown_without_another_request() {
    let mut router = BraveSearchRouter::new(String::from("k"));
    let places = Some(vec![LocationRef {
        id: String::from("loc1"),
        title: Some(String::from("Cafe")),
        postal_address: None,
        coordinates: None,
    }]);
    assert_eq!(reply(router.local_search_reply("coffee", 5, &places)), "Name: Cafe\nID: loc1");
    assert_eq!(reply(router.local_search_reply("coffee", 5, &places)), "Name: Cafe\nID: loc1");
    assert!(router.perform_web_search("a", 1, 0).is_ok());
}

#[test]
fn search_without_places_goes_on_as_a_web_search() {
    let mut router = BraveSearchRouter::new(String::from("k"));
    let request = sent(router.local_search_reply("coffee", 5, &None));
    assert_eq!(request.url, "https://api.search.brave.com/res/v1/web/search");
    assert_eq!(request.params, pairs(&[("q", "coffee"), ("count", "5"), ("offset", "0")]));
    let mut router = BraveSearchRouter::new(String::from("k"));
    let request = sent(router.local_search_reply("coffee", 7, &Some(Vec::new())));
    assert_eq!(request.params, pairs(&[("q", "coffee"), ("count", "7"), ("offset", "0")]));
}

#[test]
fn requests_for_places() {
    let ids = vec![String::from("a"), String::from("b")];
    let mut router = BraveSearchRouter::new(String::from("k"));
    let request = router.get_pois_data(&ids).expect("the first call is granted");
    assert_eq!(request.url, "https://api.search.brave.com/res/v1/local/pois");
    assert_eq!(request.params, pairs(&[("ids", "a"), ("ids", "b")]));
    assert_eq!(request.headers, headers("k"));
    let mut router = BraveSearchRouter::new(String::from("k"));
    let request = router.get_descriptions_data(&ids).expect("the first call is granted");
    assert_eq!(request.url, "https://api.search.brave.com/res/v1/local/descriptions");
    assert_eq!(request.params, pairs(&[("ids", "a"), ("ids", "b")]));
    let mut router = BraveSearchRouter::new(String::from("k"));
    let request = router.get_pois_data(&Vec::new()).expect("the first call is granted");
    assert!(request.params.is_empty());
}

#[test]
fn failed_answer_is_reported_with_status_and_body() {
    assert_eq!(
        api_failure(429, "Too Many Requests", "{\"error\":\"slow down\"}"),
        "Brave API error: 429 Too Many Requests\n{\"error\":\"slow down\"}"
    );
    assert_eq!(api_failure(599, "", ""), "Brave API error: 599 \n");
}

#[test]
fn web_reply() {
    let results = vec![WebResult {
        title: String::from("Rust"),
        description: String::from("A language"),
        url: String::from("https://www.rust-lang.org"),
    }];
    assert_eq!(
        web_search_reply(&Ok(results)),
        "Title: Rust\nDescription: A language\nURL: https://www.rust-lang.org"
    );
    assert_eq!(web_search_reply(&Ok(Vec::new())), "");
    assert_eq!(
        web_search_reply(&Err(String::from("Brave API error: 500 Internal Server Error\n"))),
        "Error: Brave API error: 500 Internal Server Error\n"
    );
}

#[test]
fn news_reply() {
    let results = vec![NewsResult {
        title: String::from("Event"),
        description: String::from("What happened"),
        url: String::from("https://news.example/a"),
        age: Some(String::from("1 day ago")),
        breaking: None,
        thumbnail: None,
    }];
    assert_eq!(
        news_search_reply(&NewsResponse::Results(results)),
        "Title: Event\nDescription: What happened\nURL: https://news.example/a\nAge: 1 day ago"
    );
    assert_eq!(
        news_search_reply(&NewsResponse::Results(Vec::new())),
        "No news results found (empty results array)"
    );
    assert_eq!(
        news_search_reply(&NewsResponse::Unreadable(String::from("expected value at line 1"))),
        "Failed to parse API response: expected value at line 1"
    );
    assert_eq!(
        news_search_reply(&NewsResponse::Failed(String::from("timeout"))),
        "Error: timeout"
    );
}
