//! The decisions of the command-line commands: checking arguments, reading
//! video IDs, choosing cache keys, and reusing cached results.
use vstd::prelude::*;
use crate::api::channel::ChannelInput;
use crate::cache::{Cache, cache_key};
use crate::cli::{
    ChannelSort, DurationFilter, SortOrder, channel_sort_name, duration_filter_name,
    sort_order_name,
};
use crate::model::{ChannelVideosResult, SearchResult};
use crate::output::{date_text, format_cached_at};
use crate::seqs::take_at_most;
use crate::text::{
    all_id_chars, byte_len, chars_of, contains, contains_exec, find, find_exec, id_prefix,
    id_run_end, lemma_id_prefix_len, push_str, string_from_chars, string_of, sub_chars, trim,
    trimmed_chars, utf8_len,
};

verus! {

/// The identifier that follows the first `marker` in `s`, if it is not empty.
pub open spec fn url_id_after(s: Seq<char>, marker: Seq<char>) -> Option<Seq<char>> {
    match find(s, marker) {
        Some(pos) => {
            let id = id_prefix(s.skip(pos + marker.len()));
            if id.len() > 0 {
                Some(id)
            } else {
                None
            }
        },
        None => None,
    }
}

/// A video ID read from user input: an ID of 11 characters; else in a
/// YouTube URL, the ID after `v=`, `youtu.be/` or `/embed/`; else input of at
/// most 20 identifier characters. Otherwise the message of the error.
pub open spec fn video_id_of(input: Seq<char>) -> Result<Seq<char>, Seq<char>> {
    let s = trim(input);
    if utf8_len(s) == 11 && all_id_chars(s) {
        Ok(s)
    } else {
        let from_url = if contains(s, "youtube.com"@) || contains(s, "youtu.be"@) {
            match url_id_after(s, "v="@) {
                Some(id) => Some(id),
                None => match url_id_after(s, "youtu.be/"@) {
                    Some(id) => Some(id),
                    None => url_id_after(s, "/embed/"@),
                },
            }
        } else {
            None
        };
        match from_url {
            Some(id) => Ok(id),
            None => if s.len() > 0 && utf8_len(s) <= 20 && all_id_chars(s) {
                Ok(s)
            } else {
                Err("Could not parse video ID from: "@ + s + ". Provide a YouTube video ID or URL."@)
            },
        }
    }
}

pub open spec fn result_view(r: Result<String, String>) -> Result<Seq<char>, Seq<char>> {
    match r {
        Ok(s) => Ok(s@),
        Err(e) => Err(e@),
    }
}

fn id_after(s: &Vec<char>, marker: &str) -> (r: Option<String>)
    ensures
        crate::model::opt_view(r) == url_id_after(s@, marker@),
{
    let m = chars_of(marker);
    let s_len: usize = s.len();
    match find_exec(s, &m) {
        Some(pos) => {
            let start = pos + m.len();
            let end = id_run_end(s, start);
            if end > start {
                let id = sub_chars(s, start, end);
                proof {
                    assert(id@ =~= id_prefix(s@.skip(start as int)));
                }
                Some(string_from_chars(&id))
            } else {
                None
            }
        },
        None => None,
    }
}

fn all_id_chars_exec(v: &Vec<char>) -> (r: bool)
    ensures
        r == all_id_chars(v@),
{
    let end = id_run_end(v, 0);
    proof {
        lemma_id_prefix_len(v@.skip(0));
        assert(v@.skip(0) =~= v@);
    }
    end == v.len()
}

/// Reads a video ID from a plain ID or a YouTube URL.
pub fn parse_video_id(input: &str) -> (r: Result<String, String>)
    ensures
        result_view(r) == video_id_of(input@),
{
    let s = trimmed_chars(input);
    let st = string_from_chars(&s);
    let nbytes = byte_len(st.as_str());
    if nbytes == 11 && all_id_chars_exec(&s) {
        return Ok(st);
    }
    let yt = chars_of("youtube.com");
    let yb = chars_of("youtu.be");
    if contains_exec(&s, &yt) || contains_exec(&s, &yb) {
        if let Some(id) = id_after(&s, "v=") {
            return Ok(id);
        }
        if let Some(id) = id_after(&s, "youtu.be/") {
            return Ok(id);
        }
        if let Some(id) = id_after(&s, "/embed/") {
            return Ok(id);
        }
    }
    if s.len() > 0 && nbytes <= 20 && all_id_chars_exec(&s) {
        return Ok(st);
    }
    let mut m = string_of("Could not parse video ID from: ");
    push_str(&mut m, st.as_str());
    push_str(&mut m, ". Provide a YouTube video ID or URL.");
    Err(m)
}

/// Checks the arguments of a search: a query that is not blank, and a limit
/// from 1 to 50.
pub fn validate_search(query: &str, limit: usize) -> (r: Result<(), String>)
    ensures
        trim(query@).len() == 0 ==> (r matches Err(m) && m@ == "Search query cannot be empty"@),
        trim(query@).len() > 0 && (limit == 0 || limit > 50) ==> (r matches Err(m) && m@ == "Limit must be between 1 and 50"@),
        trim(query@).len() > 0 && 1 <= limit <= 50 ==> r is Ok,
{
    let q = trimmed_chars(query);
    if q.len() == 0 {
        return Err(string_of("Search query cannot be empty"));
    }
    if limit == 0 || limit > 50 {
        return Err(string_of("Limit must be between 1 and 50"));
    }
    Ok(())
}

/// The cache key of a search: over the query and the names of the sort
/// order and duration filter (empty without a filter).
pub fn search_cache_key_for(query: &str, sort: SortOrder, duration: Option<DurationFilter>) -> (r: String)
    ensures
        r@ == cache_key(query@, sort_order_name(sort), match duration {
            Some(d) => duration_filter_name(d),
            None => Seq::empty(),
        }),
{
    let dur = match duration {
        Some(d) => d.name(),
        None => "",
    };
    proof {
        reveal_strlit("");
    }
    Cache::search_cache_key(query, sort.name(), dur)
}

/// A cached search result is used when it has at least `limit` videos; it
/// is then cut to `limit`.
pub fn cached_search(result: SearchResult, limit: usize) -> (r: Option<SearchResult>)
    ensures
        result.videos@.len() >= limit ==> (r matches Some(s) && s.query == result.query
            && s.videos@ == result.videos@.take(limit as int)),
        result.videos@.len() < limit ==> r is None,
{
    if result.videos.len() >= limit {
        let mut result = result;
        result.videos.truncate(limit);
        Some(result)
    } else {
        None
    }
}

/// What is printed when a search finds nothing.
pub fn no_search_results_message(query: &str) -> (r: String)
    ensures
        r@ == "No results found for: "@ + query@,
{
    let mut m = string_of("No results found for: ");
    push_str(&mut m, query);
    m
}

/// Checks the arguments of a channel command: a limit from 1 to 200, and a
/// search query that is not blank.
pub fn validate_channel(limit: usize, search_query: Option<&str>) -> (r: Result<(), String>)
    ensures
        (limit == 0 || limit > 200) ==> (r matches Err(m) && m@ == "Limit must be between 1 and 200"@),
        1 <= limit <= 200 ==> match search_query {
            Some(q) => if trim(q@).len() == 0 {
                r matches Err(m) && m@ == "Search query cannot be empty"@
            } else {
                r is Ok
            },
            None => r is Ok,
        },
{
    if limit == 0 || limit > 200 {
        return Err(string_of("Limit must be between 1 and 200"));
    }
    if let Some(q) = search_query {
        let t = trimmed_chars(q);
        if t.len() == 0 {
            return Err(string_of("Search query cannot be empty"));
        }
    }
    Ok(())
}

/// The cache key of a channel command: a search within the channel is keyed
/// by "search" and its query, a listing by its sort order.
pub fn channel_cache_key_for(channel_id: &str, sort: ChannelSort, search_query: Option<&str>) -> (r: String)
    ensures
        r@ == match search_query {
            Some(q) => cache_key(channel_id@, "search"@, q@),
            None => cache_key(channel_id@, channel_sort_name(sort), Seq::empty()),
        },
{
    proof {
        reveal_strlit("");
    }
    match search_query {
        Some(q) => Cache::channel_cache_key(channel_id, "search", q),
        None => Cache::channel_cache_key(channel_id, sort.name(), ""),
    }
}

/// A cached channel result is used when it has at least `limit` videos; it
/// is then cut to `limit`.
pub fn cached_channel(result: ChannelVideosResult, limit: usize) -> (r: Option<ChannelVideosResult>)
    ensures
        result.videos@.len() >= limit ==> (r matches Some(c) && c.channel == result.channel
            && c.query == result.query && c.videos@ == result.videos@.take(limit as int)),
        result.videos@.len() < limit ==> r is None,
{
    if result.videos.len() >= limit {
        let mut result = result;
        result.videos.truncate(limit);
        Some(result)
    } else {
        None
    }
}

/// What is printed when a channel command finds no videos.
pub fn channel_empty_message(search_query: Option<&str>, channel_name: &str) -> (r: String)
    ensures
        r@ == match search_query {
            Some(q) => "No videos found for \""@ + q@ + "\" in channel "@ + channel_name@,
            None => "No videos found for channel "@ + channel_name@,
        },
{
    match search_query {
        Some(q) => {
            let mut m = string_of("No videos found for \"");
            push_str(&mut m, q);
            push_str(&mut m, "\" in channel ");
            push_str(&mut m, channel_name);
            m
        },
        None => {
            let mut m = string_of("No videos found for channel ");
            push_str(&mut m, channel_name);
            m
        },
    }
}

/// A channel given by its ID is known at once (its name comes later, from
/// the channel's pages); a handle must be resolved, and is handed back.
pub fn known_channel(input: ChannelInput) -> (r: Result<(String, String), String>)
    ensures
        match input {
            ChannelInput::Id(id) => r matches Ok((i, n)) && i == id && n@ == "Unknown"@,
            ChannelInput::Handle(h) => r matches Err(x) && x == h,
        },
{
    match input {
        ChannelInput::Id(id) => Ok((id, string_of("Unknown"))),
        ChannelInput::Handle(h) => Err(h),
    }
}

/// The line that dates cached output.
pub fn cached_footer(secs: u64) -> (r: String)
    ensures
        r@ == "*Cached: "@ + date_text(secs as nat) + "*"@,
{
    let mut m = string_of("*Cached: ");
    let d = format_cached_at(secs);
    push_str(&mut m, d.as_str());
    push_str(&mut m, "*");
    m
}

/// The line that dates freshly fetched output.
pub fn fresh_footer(secs: u64) -> (r: String)
    ensures
        r@ == "*Data from: "@ + date_text(secs as nat) + "*"@,
{
    let mut m = string_of("*Data from: ");
    let d = format_cached_at(secs);
    push_str(&mut m, d.as_str());
    push_str(&mut m, "*");
    m
}

} // verus!
