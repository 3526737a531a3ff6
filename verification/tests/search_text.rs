use mcp_aggregator::search_text::find_description;
use mcp_aggregator::search_text::format_address;
use mcp_aggregator::search_text::format_local_results;
use mcp_aggregator::search_text::format_location;
use mcp_aggregator::search_text::format_locations;
use mcp_aggregator::search_text::format_news_result;
use mcp_aggregator::search_text::format_news_results;
use mcp_aggregator::search_text::format_poi;
use mcp_aggregator::search_text::format_postal_address;
use mcp_aggregator::search_text::format_web_result;
use mcp_aggregator::search_text::format_web_results;
use mcp_aggregator::search_text::Address;
use mcp_aggregator::search_text::LocationRef;
use mcp_aggregator::search_text::NewsResult;
use mcp_aggregator::search_text::Poi;
use mcp_aggregator::search_text::PostalAddress;
use mcp_aggregator::search_text::WebResult;

fn some(text: &str) -> Option<String> {
    Some(String::from(text))
}

fn web(title: &str) -> WebResult {
    WebResult {
        title: String::from(title),
        description: String::from("About it"),
        url: format!("https://example.com/{}", title),
    }
}

fn news(title: &str) -> NewsResult {
    NewsResult {
        title: String::from(title),
        description: String::from("What happened"),
        url: String::from("https://news.example/a"),
        age: None,
        breaking: None,
        thumbnail: None,
    }
}

fn poi(id: &str) -> Poi {
    Poi {
        id: String::from(id),
        name: String::from("Cafe"),
        address: Address {
            street_address: None,
            address_locality: None,
            address_region: None,
            postal_code: None,
        },
        phone: None,
        rating_value: None,
        rating_count: None,
        opening_hours: None,
        price_range: None,
    }
}

#[test]
fn web_result_has_three_lines() {
    assert_eq!(
        format_web_result(&web("rust")),
        "Title: rust\nDescription: About it\nURL: https://example.com/rust"
    );
}

#[test]
fn web_results_are_separated_by_an_empty_line() {
    assert_eq!(format_web_results(&Vec::new()), "");
    assert_eq!(format_web_results(&vec![web("a")]), format_web_result(&web("a")));
    assert_eq!(
        format_web_results(&vec![web("a"), web("b")]),
        "Title: a\nDescription: About it\nURL: https://example.com/a\n\nTitle: b\nDescription: About it\nURL: https://example.com/b"
    );
}

#[test]
fn news_result_without_extras() {
    assert_eq!(
        format_news_result(&news("Event")),
        "Title: Event\nDescription: What happened\nURL: https://news.example/a\nAge: Unknown"
    );
}

#[test]
fn breaking_news_is_marked() {
    let mut result = news("Event");
    result.breaking = Some(true);
    result.age = some("2 hours ago");
    result.thumbnail = some("https://img.example/1.png");
    assert_eq!(
        format_news_result(&result),
        "[BREAKING] Title: Event\nDescription: What happened\nURL: https://news.example/a\nAge: 2 hours ago\nThumbnail: https://img.example/1.png"
    );
    result.breaking = Some(false);
    assert!(format_news_result(&result).starts_with("Title: Event\n"));
}

#[test]
fn no_news_results() {
    assert_eq!(
        format_news_results(&Vec::new()),
        "No news results found (empty results array)"
    );
}

#[test]
fn news_results_are_separated_by_an_empty_line() {
    let text = format_news_results(&vec![news("a"), news("b")]);
    assert_eq!(
        text,
        format!("{}\n\n{}", format_news_result(&news("a")), format_news_result(&news("b")))
    );
}

#[test]
fn postal_address_leaves_out_what_is_unknown_or_empty() {
    let address = PostalAddress {
        country: some("US"),
        postal_code: some("10001"),
        street_address: some("1 Main St"),
        address_locality: some(""),
        address_region: None,
    };
    assert_eq!(format_postal_address(&address), "1 Main St, 10001, US");
    let nothing = PostalAddress {
        country: None,
        postal_code: None,
        street_address: None,
        address_locality: None,
        address_region: None,
    };
    assert_eq!(format_postal_address(&nothing), "");
}

#[test]
fn place_with_everything() {
    let place = LocationRef {
        id: String::from("loc1"),
        title: some("Blue Bottle"),
        postal_address: Some(PostalAddress {
            country: some("US"),
            postal_code: some("94103"),
            street_address: some("66 Mint St"),
            address_locality: some("San Francisco"),
            address_region: some("CA"),
        }),
        coordinates: Some(vec![String::from("37.7825"), String::from("-122.4075")]),
    };
    assert_eq!(
        format_location(&place),
        "Name: Blue Bottle\nAddress: 66 Mint St, San Francisco, CA, 94103, US\nCoordinates: 37.7825, -122.4075\nID: loc1"
    );
}

#[test]
fn place_with_nothing_but_its_identifier() {
    let place = LocationRef {
        id: String::from("loc2"),
        title: None,
        postal_address: Some(PostalAddress {
            country: None,
            postal_code: None,
            street_address: None,
            address_locality: None,
            address_region: None,
        }),
        coordinates: Some(vec![String::from("1.5")]),
    };
    assert_eq!(format_location(&place), "ID: loc2");
}

#[test]
fn places_are_separated_by_a_rule() {
    let place = |id: &str| LocationRef {
        id: String::from(id),
        title: some("Here"),
        postal_address: None,
        coordinates: None,
    };
    assert_eq!(
        format_locations(&vec![place("a"), place("b")]),
        "Name: Here\nID: a\n---\nName: Here\nID: b"
    );
    assert_eq!(format_locations(&Vec::new()), "");
}

#[test]
fn address_of_a_point_of_interest() {
    let address = Address {
        street_address: some("5 High St"),
        address_locality: None,
        address_region: some("Kent"),
        postal_code: some(""),
    };
    assert_eq!(format_address(&address), "5 High St, Kent");
}

#[test]
fn description_is_found_by_identifier() {
    let descriptions = vec![
        (String::from("a"), String::from("first")),
        (String::from("b"), String::from("second")),
        (String::from("a"), String::from("third")),
    ];
    assert_eq!(find_description(&descriptions, &String::from("b")), "second");
    assert_eq!(find_description(&descriptions, &String::from("a")), "first");
    assert_eq!(find_description(&descriptions, &String::from("c")), "No description available");
    assert_eq!(find_description(&Vec::new(), &String::from("a")), "No description available");
}

#[test]
fn point_of_interest_with_nothing_known() {
    assert_eq!(
        format_poi(&poi("p1"), &Vec::new()),
        "Name: Cafe\nAddress: N/A\nPhone: N/A\nRating: N/A (0 reviews)\nPrice Range: N/A\nHours: N/A\nDescription: No description available"
    );
}

#[test]
fn point_of_interest_with_everything_known() {
    let mut known = poi("p2");
    known.address.street_address = some("1 Main St");
    known.address.address_locality = some("Springfield");
    known.phone = some("555-0100");
    known.rating_value = some("4.5");
    known.rating_count = Some(120);
    known.opening_hours = Some(vec![String::from("Mo-Fr 8-18"), String::from("Sa 9-14")]);
    known.price_range = some("$$");
    let descriptions = vec![(String::from("p2"), String::from("Cosy place"))];
    assert_eq!(
        format_poi(&known, &descriptions),
        "Name: Cafe\nAddress: 1 Main St, Springfield\nPhone: 555-0100\nRating: 4.5 (120 reviews)\nPrice Range: $$\nHours: Mo-Fr 8-18, Sa 9-14\nDescription: Cosy place"
    );
}

#[test]
fn empty_opening_hours_are_not_available() {
    let mut closed = poi("p3");
    closed.opening_hours = Some(Vec::new());
    assert!(format_poi(&closed, &Vec::new()).contains("\nHours: N/A\n"));
}

#[test]
fn local_results_are_separated_by_a_rule() {
    assert_eq!(format_local_results(&Vec::new(), &Vec::new()), "No local results found");
    let text = format_local_results(&vec![poi("a"), poi("b")], &Vec::new());
    assert_eq!(
        text,
        format!("{}\n---\n{}", format_poi(&poi("a"), &Vec::new()), format_poi(&poi("b"), &Vec::new()))
    );
}
