//! Search results as readable text.
//!
//! The records hold what the search provider's answers are read for; numbers
//! with a fraction arrive written out as text.
use crate::text::decimal;
use crate::text::decimal_text;
use crate::text::join;
use crate::text::joined;
use crate::text::lemma_texts_grow;
use crate::text::text_views;
use vstd::prelude::*;
use vstd::string::StringExecFns;

verus! {

/// The text of an optional value; `fallback` where there is none.
pub open spec fn text_or(value: Option<String>, fallback: Seq<char>) -> Seq<char> {
    match value {
        Some(text) => text@,
        None => fallback,
    }
}

/// `text`, or `fallback` where `text` is empty.
pub open spec fn shown_or(text: Seq<char>, fallback: Seq<char>) -> Seq<char> {
    if text.len() == 0 {
        fallback
    } else {
        text
    }
}

/// The texts of `parts` that are not empty, in their order.
pub open spec fn filled_parts(parts: Seq<Seq<char>>) -> Seq<Seq<char>> {
    parts.filter(|part: Seq<char>| part.len() > 0)
}

/// The text behind `value`, and no text where there is no value.
fn text_of(value: &Option<String>) -> (text: &str)
    ensures
        text@ == text_or(*value, Seq::empty()),
{
    match value {
        Some(text) => text.as_str(),
        None => {
            proof {
                reveal_strlit("");
                assert(""@ =~= Seq::<char>::empty());
            }
            ""
        },
    }
}

/// Writes the parts that are not empty in a row, with a comma and a blank
/// between neighbours.
fn join_filled(parts: &Vec<&str>) -> (text: String)
    ensures
        text@ == joined(
            filled_parts(parts@.map_values(|part: &str| part@)),
            ", "@,
        ),
{
    let ghost views = parts@.map_values(|part: &str| part@);
    let mut kept: Vec<String> = Vec::new();
    let mut i: usize = 0;
    assert(views.take(0) =~= Seq::<Seq<char>>::empty());
    assert(text_views(kept@) =~= filled_parts(views.take(0)));
    while i < parts.len()
        invariant
            i <= parts.len(),
            views == parts@.map_values(|part: &str| part@),
            text_views(kept@) == filled_parts(views.take(i as int)),
        decreases parts.len() - i,
    {
        let ghost before = kept@;
        proof {
            assert(views.take(i + 1).drop_last() =~= views.take(i as int));
            assert(views.take(i + 1).last() == parts@[i as int]@);
            reveal(Seq::filter);
        }
        if !parts[i].is_empty() {
            kept.push(parts[i].to_owned());
            assert(text_views(kept@) =~= text_views(before).push(parts@[i as int]@));
        }
        i += 1;
    }
    assert(views.take(parts@.len() as int) =~= views);
    join(&kept, ", ")
}

/// One result of a web search.
#[derive(Debug, PartialEq, Eq)]
pub struct WebResult {
    pub title: String,
    pub description: String,
    pub url: String,
}

/// The text of one web result.
pub open spec fn web_result_text(result: WebResult) -> Seq<char> {
    "Title: "@ + result.title@ + "\nDescription: "@ + result.description@ + "\nURL: "@
        + result.url@
}

/// The text of a list of web results: the results in their order, with an
/// empty line between neighbours.
pub open spec fn web_results_text(results: Seq<WebResult>) -> Seq<char> {
    joined(results.map_values(|result: WebResult| web_result_text(result)), "\n\n"@)
}

/// Writes one web result.
pub fn format_web_result(result: &WebResult) -> (text: String)
    ensures
        text@ == web_result_text(*result),
{
    let mut text: String = "Title: ".to_owned();
    text.append(result.title.as_str());
    text.append("\nDescription: ");
    text.append(result.description.as_str());
    text.append("\nURL: ");
    text.append(result.url.as_str());
    text
}

/// Writes a list of web results.
pub fn format_web_results(results: &Vec<WebResult>) -> (text: String)
    ensures
        text@ == web_results_text(results@),
{
    let ghost text_of = |result: WebResult| web_result_text(result);
    let mut parts: Vec<String> = Vec::with_capacity(results.len());
    let mut i: usize = 0;
    assert(text_views(parts@) =~= results@.take(0).map_values(text_of));
    while i < results.len()
        invariant
            i <= results.len(),
            text_of == (|result: WebResult| web_result_text(result)),
            text_views(parts@) == results@.take(i as int).map_values(text_of),
        decreases results.len() - i,
    {
        let part: String = format_web_result(&results[i]);
        proof {
            lemma_texts_grow(results@, text_of, parts@, part, i as int);
        }
        parts.push(part);
        i += 1;
    }
    assert(results@.take(results@.len() as int) =~= results@);
    join(&parts, "\n\n")
}

/// One result of a news search.
#[derive(Debug, PartialEq, Eq)]
pub struct NewsResult {
    pub title: String,
    pub description: String,
    pub url: String,
    /// How long ago the article appeared, in the provider's words.
    pub age: Option<String>,
    /// Whether the article is breaking news.
    pub breaking: Option<bool>,
    /// Address of the article's preview image.
    pub thumbnail: Option<String>,
}

/// The text of one news result: breaking news is marked in front, an
/// unknown age is said to be unknown, and a preview image gets a line of its
/// own.
pub open spec fn news_result_text(result: NewsResult) -> Seq<char> {
    (if result.breaking == Some(true) {
        "[BREAKING] "@
    } else {
        Seq::empty()
    }) + "Title: "@ + result.title@ + "\nDescription: "@ + result.description@ + "\nURL: "@
        + result.url@ + "\nAge: "@ + text_or(result.age, "Unknown"@) + (match result.thumbnail {
        Some(source) => "\nThumbnail: "@ + source@,
        None => Seq::empty(),
    })
}

/// The text of a list of news results: the results in their order, with an
/// empty line between neighbours; a fixed sentence where there is none.
pub open spec fn news_results_text(results: Seq<NewsResult>) -> Seq<char> {
    if results.len() == 0 {
        "No news results found (empty results array)"@
    } else {
        joined(results.map_values(|result: NewsResult| news_result_text(result)), "\n\n"@)
    }
}

/// Writes one news result.
pub fn format_news_result(result: &NewsResult) -> (text: String)
    ensures
        text@ == news_result_text(*result),
{
    let mut text: String = String::new();
    match result.breaking {
        Some(breaking) => {
            if breaking {
                text.append("[BREAKING] ");
            }
        },
        None => {},
    }
    text.append("Title: ");
    text.append(result.title.as_str());
    text.append("\nDescription: ");
    text.append(result.description.as_str());
    text.append("\nURL: ");
    text.append(result.url.as_str());
    text.append("\nAge: ");
    match &result.age {
        Some(age) => {
            text.append(age.as_str());
        },
        None => {
            text.append("Unknown");
        },
    }
    match &result.thumbnail {
        Some(source) => {
            text.append("\nThumbnail: ");
            text.append(source.as_str());
        },
        None => {},
    }
    assert(text@ =~= news_result_text(*result));
    text
}

/// Writes a list of news results.
pub fn format_news_results(results: &Vec<NewsResult>) -> (text: String)
    ensures
        text@ == news_results_text(results@),
{
    if results.len() == 0 {
        return "No news results found (empty results array)".to_owned();
    }
    let ghost text_of = |result: NewsResult| news_result_text(result);
    let mut parts: Vec<String> = Vec::with_capacity(results.len());
    let mut i: usize = 0;
    assert(text_views(parts@) =~= results@.take(0).map_values(text_of));
    while i < results.len()
        invariant
            i <= results.len(),
            text_of == (|result: NewsResult| news_result_text(result)),
            text_views(parts@) == results@.take(i as int).map_values(text_of),
        decreases results.len() - i,
    {
        let part: String = format_news_result(&results[i]);
        proof {
            lemma_texts_grow(results@, text_of, parts@, part, i as int);
        }
        parts.push(part);
        i += 1;
    }
    assert(results@.take(results@.len() as int) =~= results@);
    join(&parts, "\n\n")
}

/// The postal address of a place, as a search answer carries it.
#[derive(Debug, PartialEq, Eq)]
pub struct PostalAddress {
    pub country: Option<String>,
    pub postal_code: Option<String>,
    pub street_address: Option<String>,
    pub address_locality: Option<String>,
    pub address_region: Option<String>,
}

/// A place that a search answer refers to.
#[derive(Debug, PartialEq, Eq)]
pub struct LocationRef {
    pub id: String,
    pub title: Option<String>,
    pub postal_address: Option<PostalAddress>,
    /// Latitude and longitude, written out.
    pub coordinates: Option<Vec<String>>,
}

/// The address in one line: street, locality, region, postal code and
/// country, as far as they are known, separated by commas.
pub open spec fn postal_address_text(address: PostalAddress) -> Seq<char> {
    joined(
        filled_parts(
            seq![
                text_or(address.street_address, Seq::empty()),
                text_or(address.address_locality, Seq::empty()),
                text_or(address.address_region, Seq::empty()),
                text_or(address.postal_code, Seq::empty()),
                text_or(address.country, Seq::empty()),
            ],
        ),
        ", "@,
    )
}

/// The lines that show a place: its name, its address and its coordinates as
/// far as they are known, and its identifier.
pub open spec fn location_lines(place: LocationRef) -> Seq<Seq<char>> {
    (match place.title {
        Some(title) => seq!["Name: "@ + title@],
        None => Seq::empty(),
    }) + (match place.postal_address {
        Some(address) => if postal_address_text(address).len() > 0 {
            seq!["Address: "@ + postal_address_text(address)]
        } else {
            Seq::empty()
        },
        None => Seq::empty(),
    }) + (match place.coordinates {
        Some(numbers) => if numbers@.len() >= 2 {
            seq!["Coordinates: "@ + numbers@[0]@ + ", "@ + numbers@[1]@]
        } else {
            Seq::empty()
        },
        None => Seq::empty(),
    }) + seq!["ID: "@ + place.id@]
}

/// The text of one place.
pub open spec fn location_text(place: LocationRef) -> Seq<char> {
    joined(location_lines(place), "\n"@)
}

/// The text of a list of places: the places in their order, with a rule
/// between neighbours.
pub open spec fn locations_text(places: Seq<LocationRef>) -> Seq<char> {
    joined(places.map_values(|place: LocationRef| location_text(place)), "\n---\n"@)
}

/// Writes a postal address in one line.
pub fn format_postal_address(address: &PostalAddress) -> (text: String)
    ensures
        text@ == postal_address_text(*address),
{
    let mut parts: Vec<&str> = Vec::with_capacity(5);
    parts.push(text_of(&address.street_address));
    parts.push(text_of(&address.address_locality));
    parts.push(text_of(&address.address_region));
    parts.push(text_of(&address.postal_code));
    parts.push(text_of(&address.country));
    assert(parts@.map_values(|part: &str| part@) =~= seq![
        text_or(address.street_address, Seq::empty()),
        text_or(address.address_locality, Seq::empty()),
        text_or(address.address_region, Seq::empty()),
        text_or(address.postal_code, Seq::empty()),
        text_or(address.country, Seq::empty()),
    ]);
    join_filled(&parts)
}

/// Writes one place.
pub fn format_location(place: &LocationRef) -> (text: String)
    ensures
        text@ == location_text(*place),
{
    let mut lines: Vec<String> = Vec::new();
    assert(text_views(lines@) =~= Seq::<Seq<char>>::empty());
    match &place.title {
        Some(title) => {
            let mut line: String = "Name: ".to_owned();
            line.append(title.as_str());
            lines.push(line);
            assert(text_views(lines@) =~= seq!["Name: "@ + title@]);
        },
        None => {},
    }
    let ghost named = text_views(lines@);
    match &place.postal_address {
        Some(address) => {
            let address_text: String = format_postal_address(address);
            if !address_text.as_str().is_empty() {
                let mut line: String = "Address: ".to_owned();
                line.append(address_text.as_str());
                lines.push(line);
                assert(text_views(lines@) =~= named + seq![
                    "Address: "@ + postal_address_text(*address),
                ]);
            }
        },
        None => {},
    }
    let ghost addressed = text_views(lines@);
    match &place.coordinates {
        Some(numbers) => {
            if numbers.len() >= 2 {
                let mut line: String = "Coordinates: ".to_owned();
                line.append(numbers[0].as_str());
                line.append(", ");
                line.append(numbers[1].as_str());
                lines.push(line);
                assert(text_views(lines@) =~= addressed + seq![
                    "Coordinates: "@ + numbers@[0]@ + ", "@ + numbers@[1]@,
                ]);
            }
        },
        None => {},
    }
    let ghost located = text_views(lines@);
    let mut line: String = "ID: ".to_owned();
    line.append(place.id.as_str());
    lines.push(line);
    assert(text_views(lines@) =~= located + seq!["ID: "@ + place.id@]);
    assert(text_views(lines@) =~= location_lines(*place));
    join(&lines, "\n")
}

/// Writes a list of places.
pub fn format_locations(places: &Vec<LocationRef>) -> (text: String)
    ensures
        text@ == locations_text(places@),
{
    let ghost text_of = |place: LocationRef| location_text(place);
    let mut parts: Vec<String> = Vec::with_capacity(places.len());
    let mut i: usize = 0;
    assert(text_views(parts@) =~= places@.take(0).map_values(text_of));
    while i < places.len()
        invariant
            i <= places.len(),
            text_of == (|place: LocationRef| location_text(place)),
            text_views(parts@) == places@.take(i as int).map_values(text_of),
        decreases places.len() - i,
    {
        let part: String = format_location(&places[i]);
        proof {
            lemma_texts_grow(places@, text_of, parts@, part, i as int);
        }
        parts.push(part);
        i += 1;
    }
    assert(places@.take(places@.len() as int) =~= places@);
    join(&parts, "\n---\n")
}

/// The address of a point of interest.
#[derive(Debug, PartialEq, Eq)]
pub struct Address {
    pub street_address: Option<String>,
    pub address_locality: Option<String>,
    pub address_region: Option<String>,
    pub postal_code: Option<String>,
}

/// A point of interest with its details.
#[derive(Debug, PartialEq, Eq)]
pub struct Poi {
    pub id: String,
    pub name: String,
    pub address: Address,
    pub phone: Option<String>,
    /// The average rating, written out.
    pub rating_value: Option<String>,
    pub rating_count: Option<u32>,
    pub opening_hours: Option<Vec<String>>,
    pub price_range: Option<String>,
}

/// The address in one line: street, locality, region and postal code, as
/// far as they are known, separated by commas.
pub open spec fn address_text(address: Address) -> Seq<char> {
    joined(
        filled_parts(
            seq![
                text_or(address.street_address, Seq::empty()),
                text_or(address.address_locality, Seq::empty()),
                text_or(address.address_region, Seq::empty()),
                text_or(address.postal_code, Seq::empty()),
            ],
        ),
        ", "@,
    )
}

/// The opening hours in one line, separated by commas.
pub open spec fn hours_text(hours: Option<Vec<String>>) -> Seq<char> {
    match hours {
        Some(lines) => joined(text_views(lines@), ", "@),
        None => Seq::empty(),
    }
}

/// The description kept under `id`: that of the first pair whose
/// identifier is `id`, and a fixed sentence where there is no such pair.
pub open spec fn description_of(descriptions: Seq<(String, String)>, id: Seq<char>) -> Seq<char>
    decreases descriptions.len(),
{
    if descriptions.len() == 0 {
        "No description available"@
    } else if descriptions[0].0@ == id {
        descriptions[0].1@
    } else {
        description_of(descriptions.drop_first(), id)
    }
}

/// The text of one point of interest. What is not known is marked as not
/// available; an unknown number of reviews counts as none.
pub open spec fn poi_text(poi: Poi, descriptions: Seq<(String, String)>) -> Seq<char> {
    "Name: "@ + poi.name@ + "\nAddress: "@ + shown_or(address_text(poi.address), "N/A"@)
        + "\nPhone: "@ + text_or(poi.phone, "N/A"@) + "\nRating: "@ + text_or(
        poi.rating_value,
        "N/A"@,
    ) + " ("@ + (match poi.rating_count {
        Some(count) => decimal_text(count as nat),
        None => "0"@,
    }) + " reviews)\nPrice Range: "@ + text_or(poi.price_range, "N/A"@) + "\nHours: "@
        + shown_or(hours_text(poi.opening_hours), "N/A"@) + "\nDescription: "@ + description_of(
        descriptions,
        poi.id@,
    )
}

/// The text of a list of points of interest: the points in their order,
/// with a rule between neighbours; a fixed sentence where that text is empty.
pub open spec fn pois_text(pois: Seq<Poi>, descriptions: Seq<(String, String)>) -> Seq<char> {
    shown_or(
        joined(pois.map_values(|poi: Poi| poi_text(poi, descriptions)), "\n---\n"@),
        "No local results found"@,
    )
}

/// Writes an address in one line.
pub fn format_address(address: &Address) -> (text: String)
    ensures
        text@ == address_text(*address),
{
    let mut parts: Vec<&str> = Vec::with_capacity(4);
    parts.push(text_of(&address.street_address));
    parts.push(text_of(&address.address_locality));
    parts.push(text_of(&address.address_region));
    parts.push(text_of(&address.postal_code));
    assert(parts@.map_values(|part: &str| part@) =~= seq![
        text_or(address.street_address, Seq::empty()),
        text_or(address.address_locality, Seq::empty()),
        text_or(address.address_region, Seq::empty()),
        text_or(address.postal_code, Seq::empty()),
    ]);
    join_filled(&parts)
}

/// Finds the description kept under `id`.
pub fn find_description(descriptions: &Vec<(String, String)>, id: &String) -> (text: String)
    ensures
        text@ == description_of(descriptions@, id@),
{
    let mut i: usize = 0;
    assert(descriptions@.skip(0) =~= descriptions@);
    while i < descriptions.len()
        invariant
            i <= descriptions.len(),
            description_of(descriptions@, id@) == description_of(descriptions@.skip(i as int), id@),
        decreases descriptions.len() - i,
    {
        proof {
            assert(descriptions@.skip(i as int)[0] == descriptions@[i as int]);
            assert(descriptions@.skip(i as int).drop_first() =~= descriptions@.skip(i + 1));
        }
        if descriptions[i].0 == *id {
            return descriptions[i].1.clone();
        }
        i += 1;
    }
    "No description available".to_owned()
}

/// Appends `text`, or `fallback` where `text` is empty.
fn append_shown(target: &mut String, text: &str, fallback: &str)
    ensures
        final(target)@ == old(target)@ + shown_or(text@, fallback@),
{
    if text.is_empty() {
        target.append(fallback);
    } else {
        target.append(text);
    }
}

/// Appends the text behind `value`, or `fallback` where there is no value.
fn append_or(target: &mut String, value: &Option<String>, fallback: &str)
    ensures
        final(target)@ == old(target)@ + text_or(*value, fallback@),
{
    match value {
        Some(text) => {
            target.append(text.as_str());
        },
        None => {
            target.append(fallback);
        },
    }
}

/// Writes one point of interest.
pub fn format_poi(poi: &Poi, descriptions: &Vec<(String, String)>) -> (text: String)
    ensures
        text@ == poi_text(*poi, descriptions@),
{
    let mut text: String = "Name: ".to_owned();
    text.append(poi.name.as_str());
    text.append("\nAddress: ");
    append_shown(&mut text, format_address(&poi.address).as_str(), "N/A");
    text.append("\nPhone: ");
    append_or(&mut text, &poi.phone, "N/A");
    text.append("\nRating: ");
    append_or(&mut text, &poi.rating_value, "N/A");
    text.append(" (");
    match poi.rating_count {
        Some(count) => {
            text.append(decimal(count as u64).as_str());
        },
        None => {
            text.append("0");
        },
    }
    text.append(" reviews)\nPrice Range: ");
    append_or(&mut text, &poi.price_range, "N/A");
    text.append("\nHours: ");
    match &poi.opening_hours {
        Some(lines) => {
            append_shown(&mut text, join(lines, ", ").as_str(), "N/A");
        },
        None => {
            text.append("N/A");
        },
    }
    text.append("\nDescription: ");
    text.append(find_description(descriptions, &poi.id).as_str());
    assert(text@ =~= poi_text(*poi, descriptions@));
    text
}

/// Writes a list of points of interest with their descriptions.
pub fn format_local_results(pois: &Vec<Poi>, descriptions: &Vec<(String, String)>) -> (text:
    String)
    ensures
        text@ == pois_text(pois@, descriptions@),
{
    let ghost text_of = |poi: Poi| poi_text(poi, descriptions@);
    let mut parts: Vec<String> = Vec::with_capacity(pois.len());
    let mut i: usize = 0;
    assert(text_views(parts@) =~= pois@.take(0).map_values(text_of));
    while i < pois.len()
        invariant
            i <= pois.len(),
            text_of == (|poi: Poi| poi_text(poi, descriptions@)),
            text_views(parts@) == pois@.take(i as int).map_values(text_of),
        decreases pois.len() - i,
    {
        let part: String = format_poi(&pois[i], descriptions);
        proof {
            lemma_texts_grow(pois@, text_of, parts@, part, i as int);
        }
        parts.push(part);
        i += 1;
    }
    assert(pois@.take(pois@.len() as int) =~= pois@);
    let results: String = join(&parts, "\n---\n");
    if results.as_str().is_empty() {
        "No local results found".to_owned()
    } else {
        results
    }
}

} // verus!
