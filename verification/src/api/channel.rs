//! Channels: reading user input, resolving handles, listing videos (with
//! pagination and sort orders) and searching within a channel.
use vstd::prelude::*;
use crate::api::protobuf::{build_channel_videos_ctoken, channel_videos_ctoken};
use crate::api::search::{parse_video_renderer, video_of, opt_summary_view, or_unknown};
use crate::api::{web_context, is_web_context};
use crate::cli::ChannelSort;
use crate::error::YoutubeError;
use crate::json::{JsonValue, array_at, array_at_exec, path_view, str_at, str_at_exec};
use crate::model::{
    ChannelInfo, ChannelInfoView, ChannelVideosResult, VideoSummary, VideoSummaryView, opt_view,
    summaries_view,
};
use crate::pattern::{first_capture, regex_capture};
use crate::seqs::{
    first_some, flat_map, last_some, lemma_first_some_skip, lemma_flat_map_all,
    lemma_flat_map_step, lemma_last_some_step, lemma_take_at_most_flat_rest,
    lemma_take_at_most_push, take_at_most,
};
use crate::text::{
    all_id_chars, chars_of, contains, contains_exec, find, find_exec, id_prefix, id_prefix_len,
    id_run_end, lemma_id_prefix_len, push_char, push_str, starts_with, starts_with_exec,
    string_from_range, string_of, trim, trim_start_char, trim_start_char_exec, trimmed_chars,
    string_from_chars, str_contains,
};

verus! {

/// The InnerTube browse endpoint.
pub const INNERTUBE_BROWSE_URL: &'static str = "https://www.youtube.com/youtubei/v1/browse";

/// Browse parameters that select the "Videos" tab (newest first).
pub const VIDEOS_TAB_PARAMS: &'static str = "EgZ2aWRlb3PyBgQKAjoA";

/// Where a channel's ID appears in its page.
pub const CHANNEL_ID_PATTERN: &'static str = r#""browseId"\s*:\s*"(UC[a-zA-Z0-9_-]{22})""#;

/// The channel ID in the page's metadata, looked at when the first is absent.
pub const CHANNEL_META_PATTERN: &'static str = r#"<meta\s+itemprop="channelId"\s+content="(UC[a-zA-Z0-9_-]{22})""#;

/// Where a channel's name appears in its page.
pub const CHANNEL_TITLE_PATTERN: &'static str = r#""title"\s*:\s*"([^"]+)""#;

/// Where the initial data of a page is embedded.
pub const INITIAL_DATA_PATTERN: &'static str = r"var ytInitialData\s*=\s*(\{.+?\});\s*</script>";

// ---------------------------------------------------------------------------
// Channel input
// ---------------------------------------------------------------------------

/// What the user named: a channel ID, or a handle that must be resolved.
#[derive(Debug)]
pub enum ChannelInput {
    Id(String),
    Handle(String),
}

pub ghost enum ChannelInputView {
    Id(Seq<char>),
    Handle(Seq<char>),
}

impl View for ChannelInput {
    type V = ChannelInputView;

    open spec fn view(&self) -> ChannelInputView {
        match self {
            ChannelInput::Id(s) => ChannelInputView::Id(s@),
            ChannelInput::Handle(s) => ChannelInputView::Handle(s@),
        }
    }
}

pub open spec fn is_handle_end(c: char) -> bool {
    c == '/' || c == '?' || c == '#'
}

/// Length of the prefix of `s` before the first `/`, `?` or `#`.
pub open spec fn handle_prefix_len(s: Seq<char>) -> nat
    decreases s.len(),
{
    if s.len() == 0 || is_handle_end(s[0]) {
        0
    } else {
        1 + handle_prefix_len(s.drop_first())
    }
}

pub proof fn lemma_handle_prefix_len(s: Seq<char>, n: int)
    requires
        0 <= n <= s.len(),
        forall|j: int| 0 <= j < n ==> !is_handle_end(#[trigger] s[j]),
        n < s.len() ==> is_handle_end(s[n]),
    ensures
        handle_prefix_len(s) == n,
    decreases n,
{
    if n > 0 {
        assert forall|j: int| 0 <= j < n - 1 implies !is_handle_end(#[trigger] s.drop_first()[j]) by {
            assert(s.drop_first()[j] == s[j + 1]);
        }
        lemma_handle_prefix_len(s.drop_first(), n - 1);
        assert(!is_handle_end(s[0]));
    }
}

/// A channel ID in a `/channel/` URL: the identifier after it, when it is
/// `UC` followed by 22 characters.
pub open spec fn channel_url_id(s: Seq<char>) -> Option<Seq<char>> {
    match find(s, "/channel/"@) {
        Some(pos) => {
            let id = id_prefix(s.skip(pos + "/channel/"@.len()));
            if starts_with(id, "UC"@) && id.len() == 24 {
                Some(id)
            } else {
                None
            }
        },
        None => None,
    }
}

/// A handle in a `/@` URL, with its `@`.
pub open spec fn channel_url_handle(s: Seq<char>) -> Option<Seq<char>> {
    match find(s, "/@"@) {
        Some(pos) => {
            let rest = s.skip(pos + "/@"@.len());
            let h = rest.take(handle_prefix_len(rest) as int);
            if h.len() > 0 {
                Some("@"@ + h)
            } else {
                None
            }
        },
        None => None,
    }
}

/// How user input names a channel: a `/channel/UC…` URL, a `/@handle` URL,
/// a bare `@handle`, a bare `UC…` ID of 24 characters, or else a handle
/// without its `@`.
pub open spec fn channel_input_of(input: Seq<char>) -> ChannelInputView {
    let s = trim(input);
    match channel_url_id(s) {
        Some(id) => ChannelInputView::Id(id),
        None => match channel_url_handle(s) {
            Some(h) => ChannelInputView::Handle(h),
            None => if s.len() > 1 && s[0] == '@' && !contains(s, "/"@) {
                ChannelInputView::Handle(s)
            } else if starts_with(s, "UC"@) && s.len() == 24 && all_id_chars(s) {
                ChannelInputView::Id(s)
            } else {
                ChannelInputView::Handle("@"@ + s)
            },
        },
    }
}

fn handle_run_end(v: &Vec<char>, start: usize) -> (r: usize)
    requires
        start <= v@.len(),
    ensures
        start <= r <= v@.len(),
        r - start == handle_prefix_len(v@.skip(start as int)),
{
    let mut i = start;
    while i < v.len() && !(v[i] == '/' || v[i] == '?' || v[i] == '#')
        invariant
            start <= i <= v@.len(),
            forall|j: int| start <= j < i ==> !is_handle_end(#[trigger] v@[j]),
        decreases v.len() - i,
    {
        i = i + 1;
    }
    proof {
        let t = v@.skip(start as int);
        assert forall|j: int| 0 <= j < i - start implies !is_handle_end(#[trigger] t[j]) by {
            assert(t[j] == v@[start + j]);
        }
        if i < v@.len() {
            assert(t[i - start] == v@[i as int]);
        }
        lemma_handle_prefix_len(t, i - start);
    }
    i
}

fn all_id_chars_exec(v: &Vec<char>) -> (r: bool)
    ensures
        r == all_id_chars(v@),
{
    let end = id_run_end(v, 0);
    proof {
        lemma_id_prefix_len(v@.skip(0));
        assert(v@.skip(0) =~= v@);
    }
    end == v.len()
}

/// Reads user input as a channel ID or a handle to resolve.
pub fn parse_channel_input(input: &str) -> (r: ChannelInput)
    ensures
        r@ == channel_input_of(input@),
{
    let s = trimmed_chars(input);
    let s_len: usize = s.len();
    let channel_pat = chars_of("/channel/");
    if let Some(pos) = find_exec(&s, &channel_pat) {
        proof {
            crate::text::lemma_find_spec(s@, channel_pat@);
            assert(crate::text::matches_at(s@, channel_pat@, pos as int));
        }
        let start = pos + channel_pat.len();
        let end = id_run_end(&s, start);
        let id = crate::text::sub_chars(&s, start, end);
        proof {
            assert(id@ =~= id_prefix(s@.skip(start as int)));
        }
        let uc = chars_of("UC");
        if starts_with_exec(&id, &uc) && id.len() == 24 {
            return ChannelInput::Id(string_from_chars(&id));
        }
    }
    let at_pat = chars_of("/@");
    if let Some(pos) = find_exec(&s, &at_pat) {
        proof {
            crate::text::lemma_find_spec(s@, at_pat@);
            assert(crate::text::matches_at(s@, at_pat@, pos as int));
        }
        let start = pos + at_pat.len();
        let end = handle_run_end(&s, start);
        if end > start {
            let mut h = string_of("@");
            let rest = string_from_range(&s, start, end);
            push_str(&mut h, rest.as_str());
            proof {
                let r = s@.skip(start as int);
                assert(r.take(handle_prefix_len(r) as int) =~= s@.subrange(start as int, end as int));
            }
            return ChannelInput::Handle(h);
        }
    }
    let slash = chars_of("/");
    if s.len() > 1 && s[0] == '@' && !contains_exec(&s, &slash) {
        return ChannelInput::Handle(string_from_chars(&s));
    }
    let uc = chars_of("UC");
    if starts_with_exec(&s, &uc) && s.len() == 24 && all_id_chars_exec(&s) {
        return ChannelInput::Id(string_from_chars(&s));
    }
    let mut h = string_of("@");
    let rest = string_from_chars(&s);
    push_str(&mut h, rest.as_str());
    ChannelInput::Handle(h)
}

// ---------------------------------------------------------------------------
// Resolving a handle from the channel page
// ---------------------------------------------------------------------------

/// The address of the page of a handle.
pub open spec fn handle_url(handle: Seq<char>) -> Seq<char> {
    "https://www.youtube.com/@"@ + trim_start_char(handle, '@')
}

/// The page of `handle` (with or without its `@`).
pub fn handle_page_url(handle: &str) -> (r: String)
    ensures
        r@ == handle_url(handle@),
{
    let hv = chars_of(handle);
    let clean = trim_start_char_exec(&hv, '@');
    let mut url = string_of("https://www.youtube.com/@");
    let c = string_from_chars(&clean);
    push_str(&mut url, c.as_str());
    url
}

/// The error for a failed fetch of a handle's page: a "404" becomes
/// "channel not found", anything else is kept.
pub fn handle_fetch_error(e: YoutubeError, handle: &str) -> (r: YoutubeError)
    ensures
        match e {
            YoutubeError::Api(m) => if contains(m@, "404"@) {
                r matches YoutubeError::ChannelNotFound(t) && t@ == "Channel @"@ + trim_start_char(handle@, '@') + " not found"@
            } else {
                r == e
            },
            _ => r == e,
        },
{
    match e {
        YoutubeError::Api(m) => {
            if str_contains(m.as_str(), "404") {
                let hv = chars_of(handle);
                let clean = trim_start_char_exec(&hv, '@');
                let mut t = string_of("Channel @");
                let c = string_from_chars(&clean);
                push_str(&mut t, c.as_str());
                push_str(&mut t, " not found");
                YoutubeError::ChannelNotFound(t)
            } else {
                YoutubeError::Api(m)
            }
        },
        other => other,
    }
}

/// The channel ID and name given what the channel-ID pattern, the meta-tag
/// pattern and the title pattern capture in a page, or the message of the
/// "channel not found" error when neither ID pattern captures. The name
/// falls back to the handle as given.
pub open spec fn channel_page_from(
    id: Option<Seq<char>>,
    meta: Option<Seq<char>>,
    title: Option<Seq<char>>,
    handle: Seq<char>,
) -> Result<(Seq<char>, Seq<char>), Seq<char>> {
    let found = match id {
        Some(i) => Some(i),
        None => meta,
    };
    match found {
        None => Err("Could not find channel ID for @"@ + trim_start_char(handle, '@')),
        Some(i) => Ok((i, match title {
            Some(n) => n,
            None => handle,
        })),
    }
}

/// The channel ID and name read from a channel page, or the message of the
/// "channel not found" error when the page holds no ID.
pub open spec fn channel_page_of(html: Seq<char>, handle: Seq<char>) -> Result<(Seq<char>, Seq<char>), Seq<char>> {
    channel_page_from(
        regex_capture(CHANNEL_ID_PATTERN@, html),
        regex_capture(CHANNEL_META_PATTERN@, html),
        regex_capture(CHANNEL_TITLE_PATTERN@, html),
        handle,
    )
}

/// The channel ID and name of `handle` given the captures of the channel-ID,
/// meta-tag and title patterns in its page. The meta-tag capture is read
/// only without a channel-ID capture, the title only once an ID is found.
pub fn channel_from_captures(
    id: Option<String>,
    meta: Option<String>,
    title: Option<String>,
    handle: &str,
) -> (r: Result<(String, String), YoutubeError>)
    ensures
        match r {
            Ok((i, n)) => channel_page_from(opt_view(id), opt_view(meta), opt_view(title), handle@)
                == Ok::<(Seq<char>, Seq<char>), Seq<char>>((i@, n@)),
            Err(YoutubeError::ChannelNotFound(m)) => channel_page_from(opt_view(id), opt_view(meta), opt_view(title), handle@)
                == Err::<(Seq<char>, Seq<char>), Seq<char>>(m@),
            Err(_) => false,
        },
{
    let found = match id {
        Some(i) => i,
        None => match meta {
            Some(i) => i,
            None => {
                let hv = chars_of(handle);
                let clean = trim_start_char_exec(&hv, '@');
                let mut m = string_of("Could not find channel ID for @");
                let c = string_from_chars(&clean);
                push_str(&mut m, c.as_str());
                return Err(YoutubeError::ChannelNotFound(m));
            },
        },
    };
    let name = match title {
        Some(n) => n,
        None => string_of(handle),
    };
    Ok((found, name))
}

/// Reads the channel ID and name of `handle` from its page.
pub fn parse_channel_page(html: &str, handle: &str) -> (r: Result<(String, String), YoutubeError>)
    ensures
        match r {
            Ok((id, name)) => channel_page_of(html@, handle@) == Ok::<(Seq<char>, Seq<char>), Seq<char>>((id@, name@)),
            Err(YoutubeError::ChannelNotFound(m)) => channel_page_of(html@, handle@) == Err::<(Seq<char>, Seq<char>), Seq<char>>(m@),
            Err(_) => false,
        },
{
    let id = first_capture(CHANNEL_ID_PATTERN, html);
    let meta = if id.is_none() {
        first_capture(CHANNEL_META_PATTERN, html)
    } else {
        None
    };
    let title = if id.is_some() || meta.is_some() {
        first_capture(CHANNEL_TITLE_PATTERN, html)
    } else {
        None
    };
    channel_from_captures(id, meta, title, handle)
}

// ---------------------------------------------------------------------------
// Channel information
// ---------------------------------------------------------------------------

pub open spec fn opt_str_at(v: Option<JsonValue>, tokens: Seq<Seq<char>>) -> Option<Seq<char>> {
    match v {
        Some(x) => str_at(x, tokens),
        None => None,
    }
}

/// What a browse response says about the channel: the name from the tabbed
/// header, the page header or the metadata, and the handle and counts from
/// the tabbed header.
pub open spec fn channel_info_of(response: JsonValue, channel_id: Seq<char>) -> ChannelInfoView {
    let header = response.at_path(seq!["header"@, "c4TabbedHeaderRenderer"@]);
    let page_header = response.at_path(seq!["header"@, "pageHeaderRenderer"@]);
    let from_header = match header {
        Some(h) => match h.field("title"@) {
            Some(t) => t.str_value(),
            None => None,
        },
        None => None,
    };
    let from_page = match page_header {
        Some(p) => match p.field("pageTitle"@) {
            Some(t) => t.str_value(),
            None => None,
        },
        None => None,
    };
    let name = match from_header {
        Some(n) => n,
        None => match from_page {
            Some(n) => n,
            None => or_unknown(str_at(response, seq!["metadata"@, "channelMetadataRenderer"@, "title"@])),
        },
    };
    ChannelInfoView {
        channel_id,
        name,
        handle: opt_str_at(header, seq!["channelHandleText"@, "runs"@, "0"@, "text"@]),
        subscriber_count: opt_str_at(header, seq!["subscriberCountText"@, "simpleText"@]),
        video_count: opt_str_at(header, seq!["videosCountText"@, "runs"@, "0"@, "text"@]),
    }
}

fn opt_str_at_exec(v: Option<&JsonValue>, tokens: &[&str]) -> (r: Option<String>)
    ensures
        opt_view(r) == opt_str_at(match v { Some(x) => Some(*x), None => None }, path_view(tokens@)),
{
    match v {
        Some(x) => match str_at_exec(x, tokens) {
            Some(s) => Some(string_of(s)),
            None => None,
        },
        None => None,
    }
}

/// Reads what a browse response says about the channel `channel_id`.
pub fn extract_channel_info(response: &JsonValue, channel_id: &str) -> (r: ChannelInfo)
    ensures
        r@ == channel_info_of(*response, channel_id@),
{
    proof {
        assert(path_view(seq!["header", "c4TabbedHeaderRenderer"]) =~= seq!["header"@, "c4TabbedHeaderRenderer"@]);
        assert(path_view(seq!["header", "pageHeaderRenderer"]) =~= seq!["header"@, "pageHeaderRenderer"@]);
        assert(path_view(seq!["metadata", "channelMetadataRenderer", "title"]) =~= seq!["metadata"@, "channelMetadataRenderer"@, "title"@]);
        assert(path_view(seq!["channelHandleText", "runs", "0", "text"]) =~= seq!["channelHandleText"@, "runs"@, "0"@, "text"@]);
        assert(path_view(seq!["subscriberCountText", "simpleText"]) =~= seq!["subscriberCountText"@, "simpleText"@]);
        assert(path_view(seq!["videosCountText", "runs", "0", "text"]) =~= seq!["videosCountText"@, "runs"@, "0"@, "text"@]);
    }
    let header = response.pointer(&["header", "c4TabbedHeaderRenderer"]);
    let page_header = response.pointer(&["header", "pageHeaderRenderer"]);
    let from_header: Option<&str> = match header {
        Some(h) => match h.get("title") {
            Some(t) => t.as_str(),
            None => None,
        },
        None => None,
    };
    let ghost sh = response.at_path(seq!["header"@, "c4TabbedHeaderRenderer"@]);
    let ghost sp = response.at_path(seq!["header"@, "pageHeaderRenderer"@]);
    proof {
        assert(sh == match header { Some(x) => Some(*x), None => None::<JsonValue> });
        assert(sp == match page_header { Some(x) => Some(*x), None => None::<JsonValue> });
        let fh = match sh {
            Some(h) => match h.field("title"@) {
                Some(t) => t.str_value(),
                None => None,
            },
            None => None,
        };
        assert(fh == match from_header { Some(x) => Some(x@), None => None::<Seq<char>> });
    }
    let from_page: Option<&str> = match page_header {
        Some(p) => match p.get("pageTitle") {
            Some(t) => t.as_str(),
            None => None,
        },
        None => None,
    };
    let name = match from_header {
        Some(n) => string_of(n),
        None => match from_page {
            Some(n) => string_of(n),
            None => match str_at_exec(response, &["metadata", "channelMetadataRenderer", "title"]) {
                Some(n) => string_of(n),
                None => string_of("Unknown"),
            },
        },
    };
    let handle = opt_str_at_exec(header, &["channelHandleText", "runs", "0", "text"]);
    let subscriber_count = opt_str_at_exec(header, &["subscriberCountText", "simpleText"]);
    let video_count = opt_str_at_exec(header, &["videosCountText", "runs", "0", "text"]);
    ChannelInfo { channel_id: string_of(channel_id), name, handle, subscriber_count, video_count }
}

// ---------------------------------------------------------------------------
// Video grids and continuations
// ---------------------------------------------------------------------------

pub open spec fn opt_seq<T>(o: Option<T>) -> Seq<T> {
    match o {
        Some(v) => seq![v],
        None => Seq::empty(),
    }
}

/// The video of one grid item, if it has one.
pub open spec fn grid_item_video(item: JsonValue, channel_name: Seq<char>) -> Seq<VideoSummaryView> {
    match item.at_path(seq!["richItemRenderer"@, "content"@, "videoRenderer"@]) {
        Some(r) => opt_seq(video_of(r, Some(channel_name))),
        None => Seq::empty(),
    }
}

/// The continuation token held by a grid item, if any.
pub open spec fn grid_item_token(item: JsonValue) -> Option<Seq<char>> {
    str_at(item, seq!["continuationItemRenderer"@, "continuationEndpoint"@, "continuationCommand"@, "token"@])
}

pub open spec fn grid_video_fn(channel_name: Seq<char>) -> spec_fn(JsonValue) -> Seq<VideoSummaryView> {
    |item: JsonValue| grid_item_video(item, channel_name)
}

pub open spec fn grid_token_fn() -> spec_fn(JsonValue) -> Option<Seq<char>> {
    |item: JsonValue| grid_item_token(item)
}

/// The videos of a grid, in order.
pub open spec fn grid_videos(items: Seq<JsonValue>, channel_name: Seq<char>) -> Seq<VideoSummaryView> {
    flat_map(items, grid_video_fn(channel_name))
}

/// The continuation token of a grid: the last one it holds.
pub open spec fn grid_token(items: Seq<JsonValue>) -> Option<Seq<char>> {
    last_some(items, grid_token_fn())
}

/// Reads the videos and the continuation token of a video grid.
fn extract_videos_from_grid(items: &Vec<JsonValue>, channel_name: &str) -> (r: (Vec<VideoSummary>, Option<String>))
    ensures
        summaries_view(r.0@) == grid_videos(items@, channel_name@),
        opt_view(r.1) == grid_token(items@),
{
    proof {
        assert(path_view(seq!["richItemRenderer", "content", "videoRenderer"]) =~= seq!["richItemRenderer"@, "content"@, "videoRenderer"@]);
        assert(path_view(seq!["continuationItemRenderer", "continuationEndpoint", "continuationCommand", "token"])
            =~= seq!["continuationItemRenderer"@, "continuationEndpoint"@, "continuationCommand"@, "token"@]);
        lemma_flat_map_all(items@, grid_video_fn(channel_name@));
        assert(items@.take(0).len() == 0);
    }
    let mut videos: Vec<VideoSummary> = Vec::new();
    let mut continuation: Option<String> = None;
    let mut i: usize = 0;
    while i < items.len()
        invariant
            i <= items@.len(),
            summaries_view(videos@) == flat_map(items@.take(i as int), grid_video_fn(channel_name@)),
            opt_view(continuation) == last_some(items@.take(i as int), grid_token_fn()),
            path_view(seq!["richItemRenderer", "content", "videoRenderer"]) == seq!["richItemRenderer"@, "content"@, "videoRenderer"@],
            path_view(seq!["continuationItemRenderer", "continuationEndpoint", "continuationCommand", "token"])
                == seq!["continuationItemRenderer"@, "continuationEndpoint"@, "continuationCommand"@, "token"@],
        decreases items.len() - i,
    {
        proof {
            lemma_flat_map_step(items@, grid_video_fn(channel_name@), i as int);
            lemma_last_some_step(items@, grid_token_fn(), i as int);
        }
        let ghost pre = summaries_view(videos@);
        match items[i].pointer(&["richItemRenderer", "content", "videoRenderer"]) {
            Some(renderer) => match parse_video_renderer(renderer, Some(channel_name)) {
                Some(v) => {
                    let ghost vv = v@;
                    let ghost old_videos = videos@;
                    videos.push(v);
                    proof {
                        assert(summaries_view(videos@) =~= summaries_view(old_videos) + seq![vv]);
                    }
                },
                None => {
                    proof {
                        assert(pre + Seq::<VideoSummaryView>::empty() =~= pre);
                    }
                },
            },
            None => {
                proof {
                    assert(pre + Seq::<VideoSummaryView>::empty() =~= pre);
                }
            },
        }
        match str_at_exec(&items[i], &["continuationItemRenderer", "continuationEndpoint", "continuationCommand", "token"]) {
            Some(token) => {
                continuation = Some(string_of(token));
            },
            None => {},
        }
        i = i + 1;
    }
    proof {
        assert(items@.take(items@.len() as int) =~= items@);
    }
    (videos, continuation)
}

pub open spec fn tabs_path() -> Seq<Seq<char>> {
    seq!["contents"@, "twoColumnBrowseResultsRenderer"@, "tabs"@]
}

/// The video grid of a tab, if it has one.
pub open spec fn tab_grid(tab: JsonValue) -> Option<Seq<JsonValue>> {
    array_at(tab, seq!["tabRenderer"@, "content"@, "richGridRenderer"@, "contents"@])
}

pub open spec fn tab_grid_fn() -> spec_fn(JsonValue) -> Option<Seq<JsonValue>> {
    |tab: JsonValue| tab_grid(tab)
}

/// A page of a listing: its videos and the token of the next page.
pub type PageView = (Seq<VideoSummaryView>, Option<Seq<char>>);

/// The first page of a browse response: the grid of the first tab that has
/// one, or the message of the error when there are no tabs or no grid.
pub open spec fn browse_initial_page(response: JsonValue, channel_name: Seq<char>) -> Result<PageView, Seq<char>> {
    match array_at(response, tabs_path()) {
        None => Err("Missing tabs in browse response"@),
        Some(tabs) => match first_some(tabs, tab_grid_fn()) {
            None => Err("No video grid found in browse response"@),
            Some(items) => Ok((grid_videos(items, channel_name), grid_token(items))),
        },
    }
}

pub open spec fn page_view(p: (Vec<VideoSummary>, Option<String>)) -> PageView {
    (summaries_view(p.0@), opt_view(p.1))
}

/// Reads the first page of a channel's videos from a browse response.
pub fn parse_browse_initial(response: &JsonValue, channel_name: &str) -> (r: Result<(Vec<VideoSummary>, Option<String>), YoutubeError>)
    ensures
        match r {
            Ok(p) => browse_initial_page(*response, channel_name@) == Ok::<PageView, Seq<char>>(page_view(p)),
            Err(YoutubeError::ParseError(m)) => browse_initial_page(*response, channel_name@) == Err::<PageView, Seq<char>>(m@),
            Err(_) => false,
        },
{
    proof {
        assert(path_view(seq!["contents", "twoColumnBrowseResultsRenderer", "tabs"]) =~= tabs_path());
        assert(path_view(seq!["tabRenderer", "content", "richGridRenderer", "contents"]) =~= seq!["tabRenderer"@, "content"@, "richGridRenderer"@, "contents"@]);
    }
    let tabs = match array_at_exec(response, &["contents", "twoColumnBrowseResultsRenderer", "tabs"]) {
        Some(t) => t,
        None => {
            return Err(YoutubeError::ParseError(string_of("Missing tabs in browse response")));
        },
    };
    let mut i: usize = 0;
    proof {
        assert(tabs@.skip(0) =~= tabs@);
    }
    while i < tabs.len()
        invariant
            i <= tabs@.len(),
            first_some(tabs@, tab_grid_fn()) == first_some(tabs@.skip(i as int), tab_grid_fn()),
            array_at(*response, tabs_path()) == Some(tabs@),
            path_view(seq!["tabRenderer", "content", "richGridRenderer", "contents"]) == seq!["tabRenderer"@, "content"@, "richGridRenderer"@, "contents"@],
        decreases tabs.len() - i,
    {
        proof {
            lemma_first_some_skip(tabs@, tab_grid_fn(), i as int);
        }
        if let Some(items) = array_at_exec(&tabs[i], &["tabRenderer", "content", "richGridRenderer", "contents"]) {
            proof {
                assert(tab_grid(tabs@[i as int]) == Some(items@));
                assert(first_some(tabs@, tab_grid_fn()) == Some(items@));
            }
            return Ok(extract_videos_from_grid(items, channel_name));
        }
        i = i + 1;
    }
    proof {
        assert(tabs@.skip(i as int).len() == 0);
        assert(first_some(tabs@, tab_grid_fn()) is None);
    }
    Err(YoutubeError::ParseError(string_of("No video grid found in browse response")))
}

/// The items of a continuation action: appended ones, else reloaded ones.
pub open spec fn action_items(action: JsonValue) -> Option<Seq<JsonValue>> {
    match array_at(action, seq!["appendContinuationItemsAction"@, "continuationItems"@]) {
        Some(items) => Some(items),
        None => array_at(action, seq!["reloadContinuationItemsCommand"@, "continuationItems"@]),
    }
}

pub open spec fn action_videos_fn(channel_name: Seq<char>) -> spec_fn(JsonValue) -> Seq<VideoSummaryView> {
    |action: JsonValue| match action_items(action) {
        Some(items) => grid_videos(items, channel_name),
        None => Seq::empty(),
    }
}

pub open spec fn action_token_fn() -> spec_fn(JsonValue) -> Option<Seq<char>> {
    |action: JsonValue| match action_items(action) {
        Some(items) => grid_token(items),
        None => None,
    }
}

/// A page of a continuation response: the videos of all its actions, and the
/// last continuation token among them. A response without actions is an
/// empty page.
pub open spec fn continuation_page(response: JsonValue, channel_name: Seq<char>) -> PageView {
    match response.field("onResponseReceivedActions"@) {
        None => (Seq::empty(), None),
        Some(v) => match v.array_value() {
        None => (Seq::empty(), None),
        Some(actions) => (flat_map(actions, action_videos_fn(channel_name)), last_some(actions, action_token_fn())),
        },
    }
}

/// Reads a page of videos from a continuation response.
pub fn parse_browse_continuation(response: &JsonValue, channel_name: &str) -> (r: (Vec<VideoSummary>, Option<String>))
    ensures
        page_view(r) == continuation_page(*response, channel_name@),
{
    proof {
        assert(path_view(seq!["appendContinuationItemsAction", "continuationItems"]) =~= seq!["appendContinuationItemsAction"@, "continuationItems"@]);
        assert(path_view(seq!["reloadContinuationItemsCommand", "continuationItems"]) =~= seq!["reloadContinuationItemsCommand"@, "continuationItems"@]);
    }
    let actions = match response.get("onResponseReceivedActions") {
        Some(v) => match v.as_array() {
            Some(a) => a,
            None => {
                let v: Vec<VideoSummary> = Vec::new();
                proof {
                    assert(summaries_view(v@) =~= Seq::<VideoSummaryView>::empty());
                }
                return (v, None);
            },
        },
        None => {
            let v: Vec<VideoSummary> = Vec::new();
            proof {
                assert(summaries_view(v@) =~= Seq::<VideoSummaryView>::empty());
            }
            return (v, None);
        },
    };
    let mut all_videos: Vec<VideoSummary> = Vec::new();
    let mut continuation: Option<String> = None;
    let mut i: usize = 0;
    proof {
        lemma_flat_map_all(actions@, action_videos_fn(channel_name@));
        assert(actions@.take(0).len() == 0);
    }
    while i < actions.len()
        invariant
            i <= actions@.len(),
            summaries_view(all_videos@) == flat_map(actions@.take(i as int), action_videos_fn(channel_name@)),
            opt_view(continuation) == last_some(actions@.take(i as int), action_token_fn()),
            response.field("onResponseReceivedActions"@) matches Some(v) && v.array_value() == Some(actions@),
            path_view(seq!["appendContinuationItemsAction", "continuationItems"]) == seq!["appendContinuationItemsAction"@, "continuationItems"@],
            path_view(seq!["reloadContinuationItemsCommand", "continuationItems"]) == seq!["reloadContinuationItemsCommand"@, "continuationItems"@],
        decreases actions.len() - i,
    {
        proof {
            lemma_flat_map_step(actions@, action_videos_fn(channel_name@), i as int);
            lemma_last_some_step(actions@, action_token_fn(), i as int);
        }
        let items = match array_at_exec(&actions[i], &["appendContinuationItemsAction", "continuationItems"]) {
            Some(x) => Some(x),
            None => array_at_exec(&actions[i], &["reloadContinuationItemsCommand", "continuationItems"]),
        };
        match items {
            Some(items) => {
                let (mut videos, cont) = extract_videos_from_grid(items, channel_name);
                let ghost pre = all_videos@;
                let ghost added = videos@;
                all_videos.append(&mut videos);
                proof {
                    assert(summaries_view(all_videos@) =~= summaries_view(pre) + summaries_view(added));
                }
                if cont.is_some() {
                    continuation = cont;
                }
            },
            None => {
                proof {
                    assert(summaries_view(all_videos@) + Seq::<VideoSummaryView>::empty() =~= summaries_view(all_videos@));
                }
            },
        }
        i = i + 1;
    }
    proof {
        lemma_flat_map_all(actions@, action_videos_fn(channel_name@));
        assert(actions@.take(actions@.len() as int) =~= actions@);
    }
    (all_videos, continuation)
}

// ---------------------------------------------------------------------------
// Listing a channel's videos
// ---------------------------------------------------------------------------

/// `v` is `{"context": <web context>, "browseId": channel_id, "params": <videos tab>}`.
pub open spec fn is_browse_body(v: JsonValue, channel_id: Seq<char>) -> bool {
    match v {
        JsonValue::Object(m) => {
            &&& m@.len() == 3
            &&& m@[0].0@ == "context"@ && is_web_context(m@[0].1)
            &&& m@[1].0@ == "browseId"@ && m@[1].1.str_value() == Some(channel_id)
            &&& m@[2].0@ == "params"@ && m@[2].1.str_value() == Some(VIDEOS_TAB_PARAMS@)
        },
        _ => false,
    }
}

/// `v` is `{"context": <web context>, "continuation": token}`.
pub open spec fn is_continuation_body(v: JsonValue, token: Seq<char>) -> bool {
    match v {
        JsonValue::Object(m) => {
            &&& m@.len() == 2
            &&& m@[0].0@ == "context"@ && is_web_context(m@[0].1)
            &&& m@[1].0@ == "continuation"@ && m@[1].1.str_value() == Some(token)
        },
        _ => false,
    }
}

/// The request for the videos tab of a channel.
pub fn browse_body(channel_id: &str) -> (r: JsonValue)
    ensures
        is_browse_body(r, channel_id@),
{
    let mut m: Vec<(String, JsonValue)> = Vec::new();
    m.push((string_of("context"), web_context()));
    m.push((string_of("browseId"), JsonValue::Str(string_of(channel_id))));
    m.push((string_of("params"), JsonValue::Str(string_of(VIDEOS_TAB_PARAMS))));
    JsonValue::Object(m)
}

/// The request for the page that follows `token`.
pub fn continuation_body(token: &str) -> (r: JsonValue)
    ensures
        is_continuation_body(r, token@),
{
    let mut m: Vec<(String, JsonValue)> = Vec::new();
    m.push((string_of("context"), web_context()));
    m.push((string_of("continuation"), JsonValue::Str(string_of(token))));
    JsonValue::Object(m)
}

/// For an order other than newest first, the request that lists the
/// channel's videos in that order (a continuation token encodes the order);
/// newest first is the videos tab itself.
pub fn sorted_listing_body(channel_id: &str, sort: ChannelSort) -> (r: Option<JsonValue>)
    ensures
        sort == ChannelSort::Newest ==> r is None,
        sort != ChannelSort::Newest ==> (r matches Some(b) && is_continuation_body(b, channel_videos_ctoken(channel_id@, sort))),
{
    match sort {
        ChannelSort::Newest => None,
        _ => {
            let token = build_channel_videos_ctoken(channel_id, sort);
            Some(continuation_body(token.as_str()))
        },
    }
}

/// Reads the first page of a listing: from the videos tab when newest first,
/// else from the sorted continuation response.
pub fn parse_first_page(sort: ChannelSort, response: &JsonValue, channel_name: &str) -> (r: Result<(Vec<VideoSummary>, Option<String>), YoutubeError>)
    ensures
        sort == ChannelSort::Newest ==> match r {
            Ok(p) => browse_initial_page(*response, channel_name@) == Ok::<PageView, Seq<char>>(page_view(p)),
            Err(YoutubeError::ParseError(m)) => browse_initial_page(*response, channel_name@) == Err::<PageView, Seq<char>>(m@),
            Err(_) => false,
        },
        sort != ChannelSort::Newest ==> (r matches Ok(p) && page_view(p) == continuation_page(*response, channel_name@)),
{
    match sort {
        ChannelSort::Newest => parse_browse_initial(response, channel_name),
        _ => Ok(parse_browse_continuation(response, channel_name)),
    }
}

/// A listing of a channel's videos being paged through: pages are fetched
/// while fewer than `limit` videos are known, a next page exists, and the
/// last page was not empty.
#[derive(Debug)]
pub struct ChannelListing {
    pub channel: ChannelInfo,
    pub videos: Vec<VideoSummary>,
    pub continuation: Option<String>,
    pub limit: usize,
    pub exhausted: bool,
}

impl ChannelListing {
    /// How many more pages the listing may fetch at most: each fetched page
    /// either adds a video or ends the listing.
    pub open spec fn pages_left(self) -> nat {
        if self.exhausted || self.videos@.len() >= self.limit {
            0
        } else {
            (self.limit - self.videos@.len()) as nat
        }
    }

    /// Starts a listing from its first page.
    pub fn new(channel: ChannelInfo, first: (Vec<VideoSummary>, Option<String>), limit: usize) -> (r: ChannelListing)
        ensures
            r.channel == channel,
            r.videos == first.0,
            r.continuation == first.1,
            r.limit == limit,
            !r.exhausted,
    {
        ChannelListing { channel, videos: first.0, continuation: first.1, limit, exhausted: false }
    }

    /// The token of the next page to fetch, if one is wanted.
    pub fn next_token(&mut self) -> (r: Option<String>)
        ensures
            final(self).channel == old(self).channel,
            final(self).videos == old(self).videos,
            final(self).limit == old(self).limit,
            final(self).continuation is None || final(self).continuation == old(self).continuation,
            (old(self).exhausted || old(self).videos@.len() >= old(self).limit) ==> r is None && final(self).exhausted == old(self).exhausted
                && final(self).continuation == old(self).continuation,
            !(old(self).exhausted || old(self).videos@.len() >= old(self).limit) ==> r == old(self).continuation
                && final(self).continuation is None && final(self).exhausted == (old(self).continuation is None),
            r is Some ==> old(self).pages_left() > 0 && final(self).pages_left() == old(self).pages_left(),
    {
        if self.exhausted || self.videos.len() >= self.limit {
            return None;
        }
        let token = self.continuation.take();
        if token.is_none() {
            self.exhausted = true;
        }
        token
    }

    /// Adds a fetched page: an empty page ends the listing; else its videos
    /// are appended and its token is the next one.
    pub fn add_page(&mut self, page: (Vec<VideoSummary>, Option<String>))
        ensures
            final(self).channel == old(self).channel,
            final(self).limit == old(self).limit,
            page.0@.len() == 0 ==> final(self).exhausted && final(self).videos == old(self).videos
                && final(self).continuation == old(self).continuation,
            page.0@.len() > 0 ==> final(self).videos@ == old(self).videos@ + page.0@
                && final(self).continuation == page.1 && final(self).exhausted == old(self).exhausted,
            old(self).pages_left() > 0 ==> final(self).pages_left() < old(self).pages_left(),
    {
        let (mut videos, next) = page;
        if videos.len() == 0 {
            self.exhausted = true;
            return;
        }
        self.videos.append(&mut videos);
        self.continuation = next;
    }

    /// The listing's result: at most `limit` videos, the first ones found.
    pub fn finish(self) -> (r: ChannelVideosResult)
        ensures
            r.channel == self.channel,
            r.query is None,
            r.videos@ == take_at_most(self.videos@, self.limit as nat),
            r.videos@.len() <= self.limit,
    {
        let mut videos = self.videos;
        videos.truncate(self.limit);
        ChannelVideosResult { channel: self.channel, query: None, videos }
    }
}

// ---------------------------------------------------------------------------
// Searching within a channel
// ---------------------------------------------------------------------------

/// The address of the search page of a channel.
pub open spec fn channel_search_url(channel_id: Seq<char>, query: Seq<char>) -> Seq<char> {
    "https://www.youtube.com/channel/"@ + channel_id + "/search?query="@ + url_encode(vstd::utf8::encode_utf8(query))
}

/// The search page of a channel for `query`.
pub fn channel_search_page_url(channel_id: &str, query: &str) -> (r: String)
    ensures
        r@ == channel_search_url(channel_id@, query@),
{
    let mut url = string_of("https://www.youtube.com/channel/");
    push_str(&mut url, channel_id);
    push_str(&mut url, "/search?query=");
    let q = urlencoded(query);
    push_str(&mut url, q.as_str());
    url
}

pub open spec fn is_unreserved(b: u8) -> bool {
    ||| (0x41 <= b <= 0x5A)
    ||| (0x61 <= b <= 0x7A)
    ||| (0x30 <= b <= 0x39)
    ||| b == 0x2D
    ||| b == 0x5F
    ||| b == 0x2E
    ||| b == 0x7E
}

pub open spec fn hex_upper(d: u8) -> char {
    if d < 10 {
        (0x30 + d) as char
    } else {
        (0x41 + d - 10) as char
    }
}

/// One byte, percent-encoded for a query parameter: unreserved bytes stay,
/// a space becomes `+`, any other byte becomes `%` and two upper-case hex digits.
pub open spec fn url_encode_byte(b: u8) -> Seq<char> {
    if is_unreserved(b) {
        seq![b as char]
    } else if b == 0x20 {
        seq!['+']
    } else {
        seq!['%', hex_upper(b / 16), hex_upper(b % 16)]
    }
}

pub open spec fn url_encode_fn() -> spec_fn(u8) -> Seq<char> {
    |b: u8| url_encode_byte(b)
}

/// The UTF-8 bytes of a string, percent-encoded.
pub open spec fn url_encode(bytes: Seq<u8>) -> Seq<char> {
    flat_map(bytes, url_encode_fn())
}

fn hex_upper_exec(d: u8) -> (c: char)
    requires
        d < 16,
    ensures
        c == hex_upper(d),
{
    if d < 10 {
        (0x30 + d) as char
    } else {
        (0x41 + d - 10) as char
    }
}

/// Percent-encodes `s` for a URL query parameter.
pub fn urlencoded(s: &str) -> (r: String)
    ensures
        r@ == url_encode(vstd::utf8::encode_utf8(s@)),
{
    let bytes = s.as_bytes();
    let mut result = String::new();
    let mut i: usize = 0;
    proof {
        lemma_flat_map_all(bytes@, url_encode_fn());
    }
    while i < bytes.len()
        invariant
            i <= bytes@.len(),
            bytes@ == vstd::utf8::encode_utf8(s@),
            result@ == flat_map(bytes@.take(i as int), url_encode_fn()),
        decreases bytes.len() - i,
    {
        proof {
            lemma_flat_map_step(bytes@, url_encode_fn(), i as int);
        }
        let b = bytes[i];
        let ghost pre = result@;
        if (0x41 <= b && b <= 0x5A) || (0x61 <= b && b <= 0x7A) || (0x30 <= b && b <= 0x39) || b == 0x2D || b == 0x5F || b == 0x2E || b == 0x7E {
            push_char(&mut result, b as char);
            proof {
                assert(result@ =~= pre + seq![b as char]);
            }
        } else if b == 0x20 {
            push_char(&mut result, '+');
            proof {
                assert(result@ =~= pre + seq!['+']);
            }
        } else {
            push_char(&mut result, '%');
            push_char(&mut result, hex_upper_exec(b / 16));
            push_char(&mut result, hex_upper_exec(b % 16));
            proof {
                assert(result@ =~= pre + seq!['%', hex_upper(b / 16), hex_upper(b % 16)]);
            }
        }
        i = i + 1;
    }
    proof {
        lemma_flat_map_all(bytes@, url_encode_fn());
    }
    result
}

/// The JSON text embedded as the initial data of a page, if the page has it.
pub fn extract_initial_data(html: &str) -> (r: Option<String>)
    ensures
        opt_view(r) == regex_capture(INITIAL_DATA_PATTERN@, html@),
{
    first_capture(INITIAL_DATA_PATTERN, html)
}

/// The sections of a tab of a channel's search page.
pub open spec fn tab_sections(tab: JsonValue) -> Option<Seq<JsonValue>> {
    match array_at(tab, seq!["expandableTabRenderer"@, "content"@, "sectionListRenderer"@, "contents"@]) {
        Some(s) => Some(s),
        None => array_at(tab, seq!["tabRenderer"@, "content"@, "sectionListRenderer"@, "contents"@]),
    }
}

pub open spec fn search_item_fn(channel_name: Seq<char>) -> spec_fn(JsonValue) -> Seq<VideoSummaryView> {
    |item: JsonValue| match item.field("videoRenderer"@) {
        Some(r) => opt_seq(video_of(r, Some(channel_name))),
        None => Seq::empty(),
    }
}

pub open spec fn search_section_fn(channel_name: Seq<char>) -> spec_fn(JsonValue) -> Seq<VideoSummaryView> {
    |section: JsonValue| match array_at(section, seq!["itemSectionRenderer"@, "contents"@]) {
        Some(items) => flat_map(items, search_item_fn(channel_name)),
        None => Seq::empty(),
    }
}

pub open spec fn search_tab_fn(channel_name: Seq<char>) -> spec_fn(JsonValue) -> Seq<VideoSummaryView> {
    |tab: JsonValue| match tab_sections(tab) {
        Some(sections) => flat_map(sections, search_section_fn(channel_name)),
        None => Seq::empty(),
    }
}

/// All videos of a channel's search page, in order.
pub open spec fn channel_search_videos(data: JsonValue, channel_name: Seq<char>) -> Seq<VideoSummaryView> {
    match array_at(data, tabs_path()) {
        Some(tabs) => flat_map(tabs, search_tab_fn(channel_name)),
        None => Seq::empty(),
    }
}

/// The channel name for a channel search: the page's, unless it is unknown.
pub open spec fn search_channel_name(data: JsonValue, channel_id: Seq<char>, channel_name: Seq<char>) -> Seq<char> {
    let info = channel_info_of(data, channel_id);
    if info.name != "Unknown"@ {
        info.name
    } else {
        channel_name
    }
}

/// The result of a channel search read from the page's initial data: at most
/// `limit` videos, the channel as the page describes it, and the query.
pub open spec fn channel_search_result_ok(
    r: ChannelVideosResult,
    data: JsonValue,
    channel_id: Seq<char>,
    channel_name: Seq<char>,
    query: Seq<char>,
    limit: nat,
) -> bool {
    let info = channel_info_of(data, channel_id);
    let name = search_channel_name(data, channel_id, channel_name);
    &&& r.channel@ == ChannelInfoView { channel_id, name, ..info }
    &&& opt_view(r.query) == Some(query)
    &&& summaries_view(r.videos@) == take_at_most(channel_search_videos(data, name), limit)
}

/// Reads the result of a search within a channel from the initial data of
/// its search page; without initial data the page cannot be read.
pub fn parse_channel_search_page(
    initial_data: Option<&JsonValue>,
    channel_id: &str,
    channel_name: &str,
    query: &str,
    limit: usize,
) -> (r: Result<ChannelVideosResult, YoutubeError>)
    ensures
        match initial_data {
            None => r matches Err(YoutubeError::ParseError(m)) && m@ == "Could not extract search results from channel page"@,
            Some(data) => r matches Ok(res) && channel_search_result_ok(res, *data, channel_id@, channel_name@, query@, limit as nat)
                && res.videos@.len() <= limit,
        },
{
    let data = match initial_data {
        Some(d) => d,
        None => {
            return Err(YoutubeError::ParseError(string_of("Could not extract search results from channel page")));
        },
    };
    let info = extract_channel_info(data, channel_id);
    let final_name = if !crate::text::str_eq(info.name.as_str(), "Unknown") {
        string_of(info.name.as_str())
    } else {
        string_of(channel_name)
    };
    let videos = channel_search_videos_exec(data, final_name.as_str(), limit);
    proof {
        assert(summaries_view(videos@).len() == videos@.len());
    }
    let ChannelInfo { channel_id: _, name: _, handle, subscriber_count, video_count } = info;
    Ok(ChannelVideosResult {
        channel: ChannelInfo { channel_id: string_of(channel_id), name: final_name, handle, subscriber_count, video_count },
        query: Some(string_of(query)),
        videos,
    })
}

fn channel_search_videos_exec(data: &JsonValue, name: &str, limit: usize) -> (r: Vec<VideoSummary>)
    ensures
        summaries_view(r@) == take_at_most(channel_search_videos(*data, name@), limit as nat),
{
    proof {
        assert(path_view(seq!["contents", "twoColumnBrowseResultsRenderer", "tabs"]) =~= tabs_path());
    }
    let ghost n = limit as nat;
    let ghost fi = search_item_fn(name@);
    let ghost fs = search_section_fn(name@);
    let ghost ft = search_tab_fn(name@);
    let mut videos: Vec<VideoSummary> = Vec::new();
    let tabs = match array_at_exec(data, &["contents", "twoColumnBrowseResultsRenderer", "tabs"]) {
        Some(t) => t,
        None => {
            proof {
                assert(summaries_view(videos@) =~= Seq::<VideoSummaryView>::empty());
            }
            return videos;
        },
    };
    proof {
        lemma_flat_map_all(tabs@, ft);
        assert(summaries_view(videos@) =~= Seq::<VideoSummaryView>::empty());
    }
    let mut i: usize = 0;
    while i < tabs.len()
        invariant
            i <= tabs@.len(),
            n == limit,
            fi == search_item_fn(name@),
            fs == search_section_fn(name@),
            ft == search_tab_fn(name@),
            summaries_view(videos@) == take_at_most(flat_map(tabs@.take(i as int), ft), n),
        decreases tabs.len() - i,
    {
        proof {
            lemma_flat_map_step(tabs@, ft, i as int);
            assert(path_view(seq!["expandableTabRenderer", "content", "sectionListRenderer", "contents"]) =~= seq!["expandableTabRenderer"@, "content"@, "sectionListRenderer"@, "contents"@]);
            assert(path_view(seq!["tabRenderer", "content", "sectionListRenderer", "contents"]) =~= seq!["tabRenderer"@, "content"@, "sectionListRenderer"@, "contents"@]);
        }
        let ghost a = flat_map(tabs@.take(i as int), ft);
        let sections = match array_at_exec(&tabs[i], &["expandableTabRenderer", "content", "sectionListRenderer", "contents"]) {
            Some(s) => Some(s),
            None => array_at_exec(&tabs[i], &["tabRenderer", "content", "sectionListRenderer", "contents"]),
        };
        match sections {
            Some(sections) => {
                proof {
                    lemma_flat_map_all(sections@, fs);
                    assert(a + Seq::<VideoSummaryView>::empty() =~= a);
                }
                let mut j: usize = 0;
                while j < sections.len()
                    invariant
                        j <= sections@.len(),
                        n == limit,
                        fi == search_item_fn(name@),
                        fs == search_section_fn(name@),
                        summaries_view(videos@) == take_at_most(a + flat_map(sections@.take(j as int), fs), n),
                    decreases sections.len() - j,
                {
                    proof {
                        lemma_flat_map_step(sections@, fs, j as int);
                        assert(path_view(seq!["itemSectionRenderer", "contents"]) =~= seq!["itemSectionRenderer"@, "contents"@]);
                    }
                    let ghost b = a + flat_map(sections@.take(j as int), fs);
                    match array_at_exec(&sections[j], &["itemSectionRenderer", "contents"]) {
                        Some(items) => {
                            proof {
                                lemma_flat_map_all(items@, fi);
                                assert(b + Seq::<VideoSummaryView>::empty() =~= b);
                            }
                            let mut k: usize = 0;
                            while k < items.len()
                                invariant
                                    k <= items@.len(),
                                    n == limit,
                                    fi == search_item_fn(name@),
                                    summaries_view(videos@) == take_at_most(b + flat_map(items@.take(k as int), fi), n),
                                decreases items.len() - k,
                            {
                                proof {
                                    lemma_flat_map_step(items@, fi, k as int);
                                }
                                let ghost c = b + flat_map(items@.take(k as int), fi);
                                if videos.len() >= limit {
                                    proof {
                                        lemma_take_at_most_flat_rest(b, items@, fi, k as int, n);
                                        lemma_flat_map_all(items@, fi);
                                    }
                                    k = items.len();
                                    proof {
                                        assert(items@.take(k as int) =~= items@);
                                    }
                                } else {
                                    proof {
                                        assert(b + flat_map(items@.take(k + 1), fi) =~= c + fi(items@[k as int]));
                                        lemma_take_at_most_push(c, fi(items@[k as int]), n);
                                    }
                                    match items[k].get("videoRenderer") {
                                        Some(renderer) => match parse_video_renderer(renderer, Some(name)) {
                                            Some(v) => {
                                                let ghost vv = v@;
                                                let ghost pre = videos@;
                                                videos.push(v);
                                                proof {
                                                    assert(summaries_view(videos@) =~= summaries_view(pre) + seq![vv]);
                                                }
                                            },
                                            None => {
                                                proof {
                                                    assert(c + Seq::<VideoSummaryView>::empty() =~= c);
                                                }
                                            },
                                        },
                                        None => {
                                            proof {
                                                assert(c + Seq::<VideoSummaryView>::empty() =~= c);
                                            }
                                        },
                                    }
                                    k = k + 1;
                                }
                            }
                            proof {
                                lemma_flat_map_all(items@, fi);
                                assert(a + flat_map(sections@.take(j + 1), fs) =~= b + flat_map(items@, fi));
                            }
                        },
                        None => {
                            proof {
                                assert(a + flat_map(sections@.take(j + 1), fs) =~= b);
                            }
                        },
                    }
                    j = j + 1;
                }
                proof {
                    lemma_flat_map_all(sections@, fs);
                    assert(flat_map(tabs@.take(i + 1), ft) =~= a + flat_map(sections@, fs));
                }
            },
            None => {
                proof {
                    assert(flat_map(tabs@.take(i + 1), ft) =~= a);
                }
            },
        }
        i = i + 1;
    }
    proof {
        lemma_flat_map_all(tabs@, ft);
    }
    let ghost pre = videos@;
    videos.truncate(limit);
    proof {
        assert(videos@ =~= pre);
    }
    videos
}

} // verus!
