//! Listings of story identifiers.
//!
//! The upstream source lists the identifiers of a category; the embedding
//! program asks for the listing and hands the answer in. What is kept of it,
//! and how a failure is worded, is decided here.
use crate::client::HnClient;
use vstd::prelude::*;
use vstd::string::StringExecFns;

verus! {

/// The identifiers kept of a listing: the first `limit` of them, or all of
/// them where no limit is given or the listing is shorter.
pub open spec fn limited(ids: Seq<u32>, limit: Option<usize>) -> Seq<u32> {
    match limit {
        Some(most) => if most < ids.len() {
            ids.take(most as int)
        } else {
            ids
        },
        None => ids,
    }
}

/// What becomes of the upstream source's answer to a listing request: a
/// listing is cut to the limit, and a failure is reported with `prefix` in
/// front of the source's own words.
pub open spec fn listing_outcome(
    listing: Result<Vec<u32>, String>,
    limit: Option<usize>,
    prefix: Seq<char>,
    result: Result<Vec<u32>, String>,
) -> bool {
    match listing {
        Ok(ids) => result matches Ok(kept) && kept@ == limited(ids@, limit),
        Err(reason) => result matches Err(message) && message@ == prefix + reason@,
    }
}

/// Cuts a listing to the limit, or words its failure.
fn take_listing(listing: Result<Vec<u32>, String>, limit: Option<usize>, prefix: &str) -> (result:
    Result<Vec<u32>, String>)
    ensures
        listing_outcome(listing, limit, prefix@, result),
{
    match listing {
        Ok(ids) => {
            let mut kept: Vec<u32> = ids;
            match limit {
                Some(most) => {
                    if most < kept.len() {
                        kept.truncate(most);
                        assert(kept@ =~= ids@.take(most as int));
                    }
                },
                None => {},
            }
            Ok(kept)
        },
        Err(reason) => {
            let mut message: String = prefix.to_owned();
            message.append(reason.as_str());
            Err(message)
        },
    }
}

impl HnClient {
    /// The top stories of a listing, at most `limit` of them.
    pub fn get_top_stories(listing: Result<Vec<u32>, String>, limit: Option<usize>) -> (result:
        Result<Vec<u32>, String>)
        ensures
            listing_outcome(listing, limit, "Failed to fetch top stories: "@, result),
    {
        take_listing(listing, limit, "Failed to fetch top stories: ")
    }

    /// The latest stories of a listing, at most `limit` of them.
    pub fn get_latest_stories(listing: Result<Vec<u32>, String>, limit: Option<usize>) -> (result:
        Result<Vec<u32>, String>)
        ensures
            listing_outcome(listing, limit, "Failed to fetch latest stories: "@, result),
    {
        take_listing(listing, limit, "Failed to fetch latest stories: ")
    }

    /// The best stories of a listing, at most `limit` of them.
    pub fn get_best_stories(listing: Result<Vec<u32>, String>, limit: Option<usize>) -> (result:
        Result<Vec<u32>, String>)
        ensures
            listing_outcome(listing, limit, "Failed to fetch best stories: "@, result),
    {
        take_listing(listing, limit, "Failed to fetch best stories: ")
    }

    /// The questions to the community of a listing, at most `limit` of them.
    pub fn get_ask_stories(listing: Result<Vec<u32>, String>, limit: Option<usize>) -> (result:
        Result<Vec<u32>, String>)
        ensures
            listing_outcome(listing, limit, "Failed to fetch Ask HN stories: "@, result),
    {
        take_listing(listing, limit, "Failed to fetch Ask HN stories: ")
    }

    /// The project showcases of a listing, at most `limit` of them.
    pub fn get_show_stories(listing: Result<Vec<u32>, String>, limit: Option<usize>) -> (result:
        Result<Vec<u32>, String>)
        ensures
            listing_outcome(listing, limit, "Failed to fetch Show HN stories: "@, result),
    {
        take_listing(listing, limit, "Failed to fetch Show HN stories: ")
    }
}

} // verus!
