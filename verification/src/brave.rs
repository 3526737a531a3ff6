//! The search tools: which request goes to the search provider, if any, and
//! the text of the reply.
//!
//! Nothing here sends a request. A tool hands out a [`SearchPlan`]: either
//! the request that the embedding program is to send, or the reply that is
//! due without one. Every request is counted against the request budget
//! before it is handed out.
use crate::codes::country_named;
use crate::codes::country_text;
use crate::codes::language_named;
use crate::codes::language_text;
use crate::codes::lowercase;
use crate::codes::uppercase;
use crate::codes::CountryCode;
use crate::codes::LanguageCode;
use crate::rate_limit::RateLimitExceeded;
use crate::rate_limit::RateLimiter;
use crate::search_text::format_locations;
use crate::search_text::format_news_results;
use crate::search_text::format_web_results;
use crate::search_text::locations_text;
use crate::search_text::news_results_text;
use crate::search_text::web_results_text;
use crate::search_text::LocationRef;
use crate::search_text::NewsResult;
use crate::search_text::WebResult;
use crate::text::decimal;
use crate::text::decimal_text;
use vstd::prelude::*;
use vstd::string::StringExecFns;

verus! {

/// Web results returned where a request names no number.
pub const DEFAULT_WEB_COUNT: usize = 10;

/// Web results returned at most.
pub const MAX_WEB_COUNT: usize = 20;

/// News results returned where a request names no number.
pub const DEFAULT_NEWS_COUNT: usize = 20;

/// News results returned at most.
pub const MAX_NEWS_COUNT: usize = 50;

/// Places returned where a request names no number.
pub const DEFAULT_LOCAL_COUNT: usize = 5;

/// Places returned at most.
pub const MAX_LOCAL_COUNT: usize = 20;

/// The largest page offset.
pub const MAX_OFFSET: usize = 9;

/// A request to the search provider: an address, the query parameters in
/// their order, and the headers.
#[derive(Debug, PartialEq, Eq)]
pub struct SearchRequest {
    pub url: String,
    pub params: Vec<(String, String)>,
    pub headers: Vec<(String, String)>,
}

/// What a [`SearchRequest`] holds, as mathematical values.
pub struct SearchRequestView {
    pub url: Seq<char>,
    pub params: Seq<(Seq<char>, Seq<char>)>,
    pub headers: Seq<(Seq<char>, Seq<char>)>,
}

/// Pairs of texts as pairs of character sequences.
pub open spec fn pair_views(pairs: Seq<(String, String)>) -> Seq<(Seq<char>, Seq<char>)> {
    pairs.map_values(|pair: (String, String)| (pair.0@, pair.1@))
}

impl View for SearchRequest {
    type V = SearchRequestView;

    open spec fn view(&self) -> SearchRequestView {
        SearchRequestView {
            url: self.url@,
            params: pair_views(self.params@),
            headers: pair_views(self.headers@),
        }
    }
}

/// What a tool asks the embedding program to do.
#[derive(Debug, PartialEq, Eq)]
pub enum SearchPlan {
    /// Send this request and come back with the answer.
    Send(SearchRequest),
    /// Reply with this text; nothing is to be sent.
    Reply(String),
}

/// The answer to a news request.
#[derive(Debug, PartialEq, Eq)]
pub enum NewsResponse {
    /// The results that the answer holds.
    Results(Vec<NewsResult>),
    /// The answer arrived but could not be read; the text says why.
    Unreadable(String),
    /// The request failed; the text says why.
    Failed(String),
}

/// `count`, or `default` where there is none, but at most `most`.
pub open spec fn bounded(count: Option<usize>, default: usize, most: usize) -> usize {
    let wanted = match count {
        Some(n) => n,
        None => default,
    };
    if wanted < most {
        wanted
    } else {
        most
    }
}

/// The headers of every request: the answer is to be JSON, may be
/// compressed, and the key identifies the subscriber.
pub open spec fn request_headers(api_key: Seq<char>) -> Seq<(Seq<char>, Seq<char>)> {
    seq![
        ("Accept"@, "application/json"@),
        ("Accept-Encoding"@, "gzip"@),
        ("X-Subscription-Token"@, api_key),
    ]
}

/// The request of a web search.
pub open spec fn web_search_request(
    api_key: Seq<char>,
    query: Seq<char>,
    count: usize,
    offset: usize,
) -> SearchRequestView {
    SearchRequestView {
        url: "https://api.search.brave.com/res/v1/web/search"@,
        params: seq![
            ("q"@, query),
            ("count"@, decimal_text(count as nat)),
            ("offset"@, decimal_text(offset as nat)),
        ],
        headers: request_headers(api_key),
    }
}

/// The request of a news search. Without a country the United States are
/// meant, without a language English; a freshness filter is passed on where
/// one is given.
pub open spec fn news_search_request(
    api_key: Seq<char>,
    query: Seq<char>,
    count: usize,
    offset: usize,
    country: Option<CountryCode>,
    search_lang: Option<LanguageCode>,
    freshness: Option<Seq<char>>,
) -> SearchRequestView {
    SearchRequestView {
        url: "https://api.search.brave.com/res/v1/news/search"@,
        params: seq![
            ("q"@, query),
            ("count"@, decimal_text(count as nat)),
            ("offset"@, decimal_text(offset as nat)),
            (
                "country"@,
                country_text(
                    match country {
                        Some(code) => code,
                        None => CountryCode::US,
                    },
                ),
            ),
            (
                "search_lang"@,
                language_text(
                    match search_lang {
                        Some(code) => code,
                        None => LanguageCode::EN,
                    },
                ),
            ),
            ("spellcheck"@, "1"@),
        ] + (match freshness {
            Some(span) => seq![("freshness"@, span)],
            None => Seq::empty(),
        }),
        headers: request_headers(api_key),
    }
}

/// The request of a search for places.
pub open spec fn local_search_request(api_key: Seq<char>, query: Seq<char>, count: usize) -> SearchRequestView {
    SearchRequestView {
        url: "https://api.search.brave.com/res/v1/web/search"@,
        params: seq![
            ("q"@, query),
            ("search_lang"@, "en"@),
            ("result_filter"@, "locations"@),
            ("count"@, decimal_text(count as nat)),
        ],
        headers: request_headers(api_key),
    }
}

/// The request for what is known of the places `ids`, at the address `url`:
/// one parameter per place, in their order.
pub open spec fn places_request(api_key: Seq<char>, url: Seq<char>, ids: Seq<String>) -> SearchRequestView {
    SearchRequestView {
        url,
        params: ids.map_values(|id: String| ("ids"@, id@)),
        headers: request_headers(api_key),
    }
}

/// The report of an answer that signals a failure.
pub open spec fn api_failure_text(status: u16, reason: Seq<char>, body: Seq<char>) -> Seq<char> {
    "Brave API error: "@ + decimal_text(status as nat) + " "@ + reason + "\n"@ + body
}

/// The reply to a web search.
pub open spec fn web_reply_text(response: Result<Vec<WebResult>, String>) -> Seq<char> {
    match response {
        Ok(results) => web_results_text(results@),
        Err(reason) => "Error: "@ + reason@,
    }
}

/// The reply to a news search.
pub open spec fn news_reply_text(response: NewsResponse) -> Seq<char> {
    match response {
        NewsResponse::Results(results) => news_results_text(results@),
        NewsResponse::Unreadable(reason) => "Failed to parse API response: "@ + reason@,
        NewsResponse::Failed(reason) => "Error: "@ + reason@,
    }
}

/// A pair of owned texts.
fn pair(key: &str, value: &str) -> (made: (String, String))
    ensures
        made.0@ == key@,
        made.1@ == value@,
{
    (key.to_owned(), value.to_owned())
}

/// `count`, or `default` where there is none, but at most `most`.
pub fn bound(count: Option<usize>, default: usize, most: usize) -> (n: usize)
    ensures
        n == bounded(count, default, most),
{
    let wanted: usize = match count {
        Some(n) => n,
        None => default,
    };
    if wanted < most {
        wanted
    } else {
        most
    }
}

/// Reports an answer that signals a failure: the status, its name, and on a
/// line of its own what the answer holds.
pub fn api_failure(status: u16, reason: &str, body: &str) -> (text: String)
    ensures
        text@ == api_failure_text(status, reason@, body@),
{
    let mut text: String = "Brave API error: ".to_owned();
    text.append(decimal(status as u64).as_str());
    text.append(" ");
    text.append(reason);
    text.append("\n");
    text.append(body);
    text
}

/// Writes the reply to a web search: the results, or the failure.
pub fn web_search_reply(response: &Result<Vec<WebResult>, String>) -> (text: String)
    ensures
        text@ == web_reply_text(*response),
{
    match response {
        Ok(results) => format_web_results(results),
        Err(reason) => {
            let mut text: String = "Error: ".to_owned();
            text.append(reason.as_str());
            text
        },
    }
}

/// Writes the reply to a news search: the results, or why there are none.
pub fn news_search_reply(response: &NewsResponse) -> (text: String)
    ensures
        text@ == news_reply_text(*response),
{
    match response {
        NewsResponse::Results(results) => format_news_results(results),
        NewsResponse::Unreadable(reason) => {
            let mut text: String = "Failed to parse API response: ".to_owned();
            text.append(reason.as_str());
            text
        },
        NewsResponse::Failed(reason) => {
            let mut text: String = "Error: ".to_owned();
            text.append(reason.as_str());
            text
        },
    }
}

/// The search tools: a request budget and the subscriber's key.
pub struct BraveSearchRouter {
    rate_limiter: RateLimiter,
    api_key: String,
}

impl BraveSearchRouter {
    /// The request budget.
    pub closed spec fn limiter(&self) -> RateLimiter {
        self.rate_limiter
    }

    /// The subscriber's key.
    pub closed spec fn key(&self) -> Seq<char> {
        self.api_key@
    }

    /// The request budget is well formed.
    pub open spec fn wf(&self) -> bool {
        self.limiter().wf()
    }

    /// True when `after` is `before` once one request was decided, with the
    /// same key, and `granted` tells how it was decided.
    pub open spec fn decided(before: BraveSearchRouter, after: BraveSearchRouter, granted: bool) -> bool {
        &&& after.key() == before.key()
        &&& RateLimiter::decided(before.limiter(), after.limiter(), granted)
    }

    /// What a tool hands out once its request was decided: the request where
    /// it was granted, and the report of the refusal otherwise.
    pub open spec fn planned(
        before: BraveSearchRouter,
        after: BraveSearchRouter,
        request: SearchRequestView,
        plan: SearchPlan,
    ) -> bool {
        &&& BraveSearchRouter::decided(before, after, plan is Send)
        &&& match plan {
            SearchPlan::Send(sent) => sent@ == request,
            SearchPlan::Reply(text) => text@ == "Error: Rate limit exceeded"@,
        }
    }

    /// The tools of the subscriber with the key `api_key`, with the default
    /// request budget and nothing of it used.
    pub fn new(api_key: String) -> (router: BraveSearchRouter)
        ensures
            router.wf(),
            router.key() == api_key@,
            router.limiter().per_second_limit() == crate::rate_limit::RATE_LIMIT_PER_SECOND,
            router.limiter().per_month_limit() == crate::rate_limit::RATE_LIMIT_PER_MONTH,
            router.limiter().count().second == 0,
            router.limiter().count().month == 0,
    {
        BraveSearchRouter { rate_limiter: RateLimiter::new(), api_key }
    }

    /// The headers of every request.
    fn headers(&self) -> (headers: Vec<(String, String)>)
        ensures
            pair_views(headers@) == request_headers(self.key()),
    {
        let mut headers: Vec<(String, String)> = Vec::with_capacity(3);
        headers.push(pair("Accept", "application/json"));
        headers.push(pair("Accept-Encoding", "gzip"));
        headers.push(pair("X-Subscription-Token", self.api_key.as_str()));
        assert(pair_views(headers@) =~= request_headers(self.key()));
        headers
    }

    /// Decides a web search: the request where the budget grants one.
    pub fn perform_web_search(&mut self, query: &str, count: usize, offset: usize) -> (result:
        Result<SearchRequest, RateLimitExceeded>)
        requires
            old(self).wf(),
        ensures
            BraveSearchRouter::decided(*old(self), *final(self), result is Ok),
            result matches Ok(request) ==> request@ == web_search_request(
                old(self).key(),
                query@,
                count,
                offset,
            ),
    {
        match self.rate_limiter.check_rate_limit() {
            Ok(_) => {},
            Err(refusal) => { return Err(refusal); },
        }
        let mut params: Vec<(String, String)> = Vec::with_capacity(3);
        params.push(pair("q", query));
        params.push(pair("count", decimal(count as u64).as_str()));
        params.push(pair("offset", decimal(offset as u64).as_str()));
        let request = SearchRequest {
            url: "https://api.search.brave.com/res/v1/web/search".to_owned(),
            params,
            headers: self.headers(),
        };
        assert(request@.params =~= web_search_request(self.key(), query@, count, offset).params);
        Ok(request)
    }

    /// Decides a news search: the request where the budget grants one.
    pub fn perform_news_search(
        &mut self,
        query: &str,
        count: usize,
        offset: usize,
        country: Option<CountryCode>,
        search_lang: Option<LanguageCode>,
        freshness: Option<&str>,
    ) -> (result: Result<SearchRequest, RateLimitExceeded>)
        requires
            old(self).wf(),
        ensures
            BraveSearchRouter::decided(*old(self), *final(self), result is Ok),
            result matches Ok(request) ==> request@ == news_search_request(
                old(self).key(),
                query@,
                count,
                offset,
                country,
                search_lang,
                match freshness {
                    Some(span) => Some(span@),
                    None => None,
                },
            ),
    {
        match self.rate_limiter.check_rate_limit() {
            Ok(_) => {},
            Err(refusal) => { return Err(refusal); },
        }
        let country_code: CountryCode = match country {
            Some(code) => code,
            None => CountryCode::default(),
        };
        let language_code: LanguageCode = match search_lang {
            Some(code) => code,
            None => LanguageCode::default(),
        };
        let mut params: Vec<(String, String)> = Vec::with_capacity(7);
        params.push(pair("q", query));
        params.push(pair("count", decimal(count as u64).as_str()));
        params.push(pair("offset", decimal(offset as u64).as_str()));
        params.push(pair("country", country_code.as_str()));
        params.push(pair("search_lang", language_code.as_str()));
        params.push(pair("spellcheck", "1"));
        match freshness {
            Some(span) => {
                params.push(pair("freshness", span));
            },
            None => {},
        }
        let request = SearchRequest {
            url: "https://api.search.brave.com/res/v1/news/search".to_owned(),
            params,
            headers: self.headers(),
        };
        assert(request@.params =~= news_search_request(
            self.key(),
            query@,
            count,
            offset,
            country,
            search_lang,
            match freshness {
                Some(span) => Some(span@),
                None => None,
            },
        ).params);
        Ok(request)
    }

    /// Decides a search for places: the request where the budget grants one.
    pub fn perform_local_search(&mut self, query: &str, count: usize) -> (result: Result<
        SearchRequest,
        RateLimitExceeded,
    >)
        requires
            old(self).wf(),
        ensures
            BraveSearchRouter::decided(*old(self), *final(self), result is Ok),
            result matches Ok(request) ==> request@ == local_search_request(
                old(self).key(),
                query@,
                count,
            ),
    {
        match self.rate_limiter.check_rate_limit() {
            Ok(_) => {},
            Err(refusal) => { return Err(refusal); },
        }
        let mut params: Vec<(String, String)> = Vec::with_capacity(4);
        params.push(pair("q", query));
        params.push(pair("search_lang", "en"));
        params.push(pair("result_filter", "locations"));
        params.push(pair("count", decimal(count as u64).as_str()));
        let request = SearchRequest {
            url: "https://api.search.brave.com/res/v1/web/search".to_owned(),
            params,
            headers: self.headers(),
        };
        assert(request@.params =~= local_search_request(self.key(), query@, count).params);
        Ok(request)
    }

    /// The request for what is known of the places `ids`, at `url`, where
    /// the budget grants one.
    fn places_data(&mut self, url: &str, ids: &Vec<String>) -> (result: Result<
        SearchRequest,
        RateLimitExceeded,
    >)
        requires
            old(self).wf(),
        ensures
            BraveSearchRouter::decided(*old(self), *final(self), result is Ok),
            result matches Ok(request) ==> request@ == places_request(old(self).key(), url@, ids@),
    {
        match self.rate_limiter.check_rate_limit() {
            Ok(_) => {},
            Err(refusal) => { return Err(refusal); },
        }
        let ghost param_of = |id: String| ("ids"@, id@);
        let mut params: Vec<(String, String)> = Vec::with_capacity(ids.len());
        let mut i: usize = 0;
        assert(pair_views(params@) =~= ids@.take(0).map_values(param_of));
        while i < ids.len()
            invariant
                i <= ids.len(),
                params@.len() == i,
                param_of == (|id: String| ("ids"@, id@)),
                pair_views(params@) == ids@.take(i as int).map_values(param_of),
            decreases ids.len() - i,
        {
            let ghost before = params@;
            params.push(pair("ids", ids[i].as_str()));
            i += 1;
            proof {
                let grown = pair_views(params@);
                let wanted = ids@.take(i as int).map_values(param_of);
                assert(grown.len() == wanted.len());
                assert forall|k: int| 0 <= k < grown.len() implies grown[k] == wanted[k] by {
                    if k < i - 1 {
                        assert(pair_views(before)[k] == ids@.take(i - 1).map_values(param_of)[k]);
                    }
                }
                assert(grown =~= wanted);
            }
        }
        assert(ids@.take(ids@.len() as int) =~= ids@);
        Ok(SearchRequest { url: url.to_owned(), params, headers: self.headers() })
    }

    /// Decides a request for the details of the places `ids`.
    pub fn get_pois_data(&mut self, ids: &Vec<String>) -> (result: Result<
        SearchRequest,
        RateLimitExceeded,
    >)
        requires
            old(self).wf(),
        ensures
            BraveSearchRouter::decided(*old(self), *final(self), result is Ok),
            result matches Ok(request) ==> request@ == places_request(
                old(self).key(),
                "https://api.search.brave.com/res/v1/local/pois"@,
                ids@,
            ),
    {
        self.places_data("https://api.search.brave.com/res/v1/local/pois", ids)
    }

    /// Decides a request for the descriptions of the places `ids`.
    pub fn get_descriptions_data(&mut self, ids: &Vec<String>) -> (result: Result<
        SearchRequest,
        RateLimitExceeded,
    >)
        requires
            old(self).wf(),
        ensures
            BraveSearchRouter::decided(*old(self), *final(self), result is Ok),
            result matches Ok(request) ==> request@ == places_request(
                old(self).key(),
                "https://api.search.brave.com/res/v1/local/descriptions"@,
                ids@,
            ),
    {
        self.places_data("https://api.search.brave.com/res/v1/local/descriptions", ids)
    }

    /// Hands out a decided request, or the report of its refusal.
    fn plan(decision: Result<SearchRequest, RateLimitExceeded>) -> (plan: SearchPlan)
        ensures
            (plan is Send) == (decision is Ok),
            match plan {
                SearchPlan::Send(sent) => decision == Ok::<SearchRequest, RateLimitExceeded>(sent),
                SearchPlan::Reply(text) => text@ == "Error: Rate limit exceeded"@,
            },
    {
        match decision {
            Ok(request) => SearchPlan::Send(request),
            Err(refusal) => {
                proof {
                    reveal_strlit("Error: ");
                    reveal_strlit("Rate limit exceeded");
                    reveal_strlit("Error: Rate limit exceeded");
                }
                let mut text: String = "Error: ".to_owned();
                text.append(refusal.message().as_str());
                assert(text@ =~= "Error: Rate limit exceeded"@);
                SearchPlan::Reply(text)
            },
        }
    }

    /// The web search tool: asks for `count` results from page `offset`. The
    /// count is ten where none is named and at most twenty; the offset is
    /// zero where none is named and at most nine.
    pub fn brave_web_search(&mut self, query: &str, count: Option<usize>, offset: Option<usize>) -> (plan:
        SearchPlan)
        requires
            old(self).wf(),
        ensures
            BraveSearchRouter::planned(
                *old(self),
                *final(self),
                web_search_request(
                    old(self).key(),
                    query@,
                    bounded(count, DEFAULT_WEB_COUNT, MAX_WEB_COUNT),
                    bounded(offset, 0, MAX_OFFSET),
                ),
                plan,
            ),
    {
        let count: usize = bound(count, DEFAULT_WEB_COUNT, MAX_WEB_COUNT);
        let offset: usize = bound(offset, 0, MAX_OFFSET);
        BraveSearchRouter::plan(self.perform_web_search(query, count, offset))
    }

    /// The news search tool: asks for `count` results from page `offset`,
    /// for a country and a language, and as fresh as wanted. The count is
    /// twenty where none is named and at most fifty; the offset is zero
    /// where none is named and at most nine. A country or language that is
    /// not known ends the tool with a reply that says so, and the budget is
    /// not touched.
    pub fn brave_news_search(
        &mut self,
        query: &str,
        count: Option<usize>,
        offset: Option<usize>,
        country: Option<&str>,
        search_lang: Option<&str>,
        freshness: Option<&str>,
    ) -> (plan: SearchPlan)
        requires
            old(self).wf(),
        ensures
            match read_codes(text_view(country), text_view(search_lang)) {
                Ok(codes) => BraveSearchRouter::planned(
                    *old(self),
                    *final(self),
                    news_search_request(
                        old(self).key(),
                        query@,
                        bounded(count, DEFAULT_NEWS_COUNT, MAX_NEWS_COUNT),
                        bounded(offset, 0, MAX_OFFSET),
                        codes.0,
                        codes.1,
                        text_view(freshness),
                    ),
                    plan,
                ),
                Err(complaint) => {
                    &&& *final(self) == *old(self)
                    &&& plan matches SearchPlan::Reply(text)
                    &&& text@ == complaint
                },
            },
    {
        let count: usize = bound(count, DEFAULT_NEWS_COUNT, MAX_NEWS_COUNT);
        let offset: usize = bound(offset, 0, MAX_OFFSET);
        let country_code: Option<CountryCode> = match country {
            Some(name) => match CountryCode::from_str(name) {
                Ok(code) => Some(code),
                Err(complaint) => {
                    let mut text: String = "Error parsing country code: ".to_owned();
                    text.append(complaint.as_str());
                    return SearchPlan::Reply(text);
                },
            },
            None => None,
        };
        let language_code: Option<LanguageCode> = match search_lang {
            Some(name) => match LanguageCode::from_str(name) {
                Ok(code) => Some(code),
                Err(complaint) => {
                    let mut text: String = "Error parsing language code: ".to_owned();
                    text.append(complaint.as_str());
                    return SearchPlan::Reply(text);
                },
            },
            None => None,
        };
        BraveSearchRouter::plan(
            self.perform_news_search(query, count, offset, country_code, language_code, freshness),
        )
    }

    /// The tool that searches for places: asks for `count` places, five
    /// where no number is named and at most twenty.
    pub fn brave_local_search(&mut self, query: &str, count: Option<usize>) -> (plan: SearchPlan)
        requires
            old(self).wf(),
        ensures
            BraveSearchRouter::planned(
                *old(self),
                *final(self),
                local_search_request(
                    old(self).key(),
                    query@,
                    bounded(count, DEFAULT_LOCAL_COUNT, MAX_LOCAL_COUNT),
                ),
                plan,
            ),
    {
        let count: usize = bound(count, DEFAULT_LOCAL_COUNT, MAX_LOCAL_COUNT);
        BraveSearchRouter::plan(self.perform_local_search(query, count))
    }

    /// Goes on with a search for places once the answer is in. Places that
    /// were found are shown, and nothing more is sent. Where the answer holds
    /// no place, the search goes on as a web search for the same query,
    /// again for `count` results and from the first page.
    pub fn local_search_reply(&mut self, query: &str, count: usize, places: &Option<Vec<LocationRef>>) -> (plan:
        SearchPlan)
        requires
            old(self).wf(),
        ensures
            match found_places(*places) {
                Some(list) => {
                    &&& *final(self) == *old(self)
                    &&& plan matches SearchPlan::Reply(text)
                    &&& text@ == locations_text(list)
                },
                None => BraveSearchRouter::planned(
                    *old(self),
                    *final(self),
                    web_search_request(old(self).key(), query@, count, 0),
                    plan,
                ),
            },
    {
        match places {
            Some(list) => {
                if list.len() > 0 {
                    return SearchPlan::Reply(format_locations(list));
                }
            },
            None => {},
        }
        BraveSearchRouter::plan(self.perform_web_search(query, count, 0))
    }
}

/// The places of an answer, if it holds any.
pub open spec fn found_places(places: Option<Vec<LocationRef>>) -> Option<Seq<LocationRef>> {
    match places {
        Some(list) => if list@.len() > 0 {
            Some(list@)
        } else {
            None
        },
        None => None,
    }
}

/// The characters of an optional text.
pub open spec fn text_view(text: Option<&str>) -> Option<Seq<char>> {
    match text {
        Some(t) => Some(t@),
        None => None,
    }
}

/// The country that a request names, if any; the complaint where the name
/// is no country's.
pub open spec fn read_country(name: Option<Seq<char>>) -> Result<Option<CountryCode>, Seq<char>> {
    match name {
        Some(text) => match country_named(uppercase(text)) {
            Some(code) => Ok(Some(code)),
            None => Err("Error parsing country code: "@ + ("Unknown country code: "@ + text)),
        },
        None => Ok(None),
    }
}

/// The language that a request names, if any; the complaint where the name
/// is no language's.
pub open spec fn read_language(name: Option<Seq<char>>) -> Result<Option<LanguageCode>, Seq<char>> {
    match name {
        Some(text) => match language_named(lowercase(text)) {
            Some(code) => Ok(Some(code)),
            None => Err("Error parsing language code: "@ + ("Unknown language code: "@ + text)),
        },
        None => Ok(None),
    }
}

/// The country and the language that a request names; the complaint about
/// the country where both are unknown.
pub open spec fn read_codes(country: Option<Seq<char>>, language: Option<Seq<char>>) -> Result<
    (Option<CountryCode>, Option<LanguageCode>),
    Seq<char>,
> {
    match read_country(country) {
        Ok(country_code) => match read_language(language) {
            Ok(language_code) => Ok((country_code, language_code)),
            Err(complaint) => Err(complaint),
        },
        Err(complaint) => Err(complaint),
    }
}

} // verus!
