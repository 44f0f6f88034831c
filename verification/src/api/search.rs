//! Video search: request construction and reading of the search response.
use vstd::prelude::*;
use crate::cli::{DurationFilter, SortOrder};
use crate::error::YoutubeError;
use crate::json::{JsonValue, array_at, array_at_exec, path_view, str_at, str_at_exec};
use crate::model::{SearchResult, VideoSummary, VideoSummaryView, summaries_view};
use crate::text::{push_str, string_of};
use crate::seqs::{take_at_most, lemma_take_at_most_push, lemma_take_at_most_full};
use crate::api::{web_context, is_web_context};

verus! {

/// The InnerTube search endpoint.
pub const INNERTUBE_SEARCH_URL: &'static str = "https://www.youtube.com/youtubei/v1/search";

// ---------------------------------------------------------------------------
// Reading one `videoRenderer`
// ---------------------------------------------------------------------------

/// Text of one element of a `runs` array: its `text` string, or nothing.
pub open spec fn run_text(run: JsonValue) -> Seq<char> {
    match run.field("text"@) {
        Some(t) => match t.str_value() {
            Some(s) => s,
            None => Seq::empty(),
        },
        None => Seq::empty(),
    }
}

/// The texts of a `runs` array, concatenated.
pub open spec fn runs_text(runs: Seq<JsonValue>) -> Seq<char>
    decreases runs.len(),
{
    if runs.len() == 0 {
        Seq::empty()
    } else {
        runs_text(runs.drop_last()) + run_text(runs.last())
    }
}

pub open spec fn nonempty(t: Seq<char>) -> Option<Seq<char>> {
    if t.len() > 0 {
        Some(t)
    } else {
        None
    }
}

/// Text of the first detailed metadata snippet, if there is one.
pub open spec fn snippet_description(renderer: JsonValue) -> Option<Seq<char>> {
    match renderer.field("detailedMetadataSnippets"@) {
        Some(v) => match v.array_value() {
            Some(snippets) => if snippets.len() > 0 {
                match array_at(snippets[0], seq!["snippetText"@, "runs"@]) {
                    Some(runs) => nonempty(runs_text(runs)),
                    None => None,
                }
            } else {
                None
            },
            None => None,
        },
        None => None,
    }
}

/// The description of a video renderer: the first metadata snippet, else the
/// description snippet, whichever has text.
pub open spec fn description_of(renderer: JsonValue) -> Option<Seq<char>> {
    match snippet_description(renderer) {
        Some(t) => Some(t),
        None => match array_at(renderer, seq!["descriptionSnippet"@, "runs"@]) {
            Some(runs) => nonempty(runs_text(runs)),
            None => None,
        },
    }
}

pub open spec fn or_unknown(s: Option<Seq<char>>) -> Seq<char> {
    match s {
        Some(t) => t,
        None => "Unknown"@,
    }
}

/// The summary read from a `videoRenderer`; `channel` names the channel
/// when the caller knows it, else the renderer's owner text does.
pub open spec fn video_of(renderer: JsonValue, channel: Option<Seq<char>>) -> Option<VideoSummaryView> {
    let id = match renderer.field("videoId"@) {
        Some(v) => match v.str_value() {
            Some(s) => s,
            None => Seq::empty(),
        },
        None => Seq::empty(),
    };
    if id.len() == 0 {
        None
    } else {
        Some(VideoSummaryView {
            video_id: id,
            title: or_unknown(str_at(renderer, seq!["title"@, "runs"@, "0"@, "text"@])),
            channel: match channel {
                Some(c) => c,
                None => or_unknown(str_at(renderer, seq!["ownerText"@, "runs"@, "0"@, "text"@])),
            },
            duration: str_at(renderer, seq!["lengthText"@, "simpleText"@]),
            views: str_at(renderer, seq!["viewCountText"@, "simpleText"@]),
            published: str_at(renderer, seq!["publishedTimeText"@, "simpleText"@]),
            description: description_of(renderer),
        })
    }
}

pub open spec fn opt_summary_view(o: Option<VideoSummary>) -> Option<VideoSummaryView> {
    match o {
        Some(v) => Some(v@),
        None => None,
    }
}

pub open spec fn opt_str_view(o: Option<&str>) -> Option<Seq<char>> {
    match o {
        Some(s) => Some(s@),
        None => None,
    }
}

fn runs_concat(runs: &Vec<JsonValue>) -> (r: String)
    ensures
        r@ == runs_text(runs@),
{
    let mut out = String::new();
    let mut i: usize = 0;
    while i < runs.len()
        invariant
            i <= runs@.len(),
            out@ == runs_text(runs@.take(i as int)),
        decreases runs.len() - i,
    {
        proof {
            assert(runs@.take(i + 1).drop_last() =~= runs@.take(i as int));
            assert(runs@.take(i + 1).last() == runs@[i as int]);
        }
        match runs[i].get("text") {
            Some(t) => match t.as_str() {
                Some(s) => {
                    push_str(&mut out, s);
                },
                None => {
                    proof {
                        assert(out@ + Seq::<char>::empty() =~= out@);
                    }
                },
            },
            None => {
                proof {
                    assert(out@ + Seq::<char>::empty() =~= out@);
                }
            },
        }
        i = i + 1;
    }
    proof {
        assert(runs@.take(runs@.len() as int) =~= runs@);
    }
    out
}

/// Reads the description of a video renderer.
pub fn extract_description(renderer: &JsonValue) -> (r: Option<String>)
    ensures
        crate::model::opt_view(r) == description_of(*renderer),
{
    if let Some(v) = renderer.get("detailedMetadataSnippets") {
        if let Some(snippets) = v.as_array() {
            if snippets.len() > 0 {
                if let Some(runs) = array_at_exec(&snippets[0], &["snippetText", "runs"]) {
                    proof {
                        assert(path_view(seq!["snippetText", "runs"]) =~= seq!["snippetText"@, "runs"@]);
                    }
                    let text = runs_concat(runs);
                    if !text.as_str().is_empty() {
                        return Some(text);
                    }
                } else {
                    proof {
                        assert(path_view(seq!["snippetText", "runs"]) =~= seq!["snippetText"@, "runs"@]);
                    }
                }
            }
        }
    }
    proof {
        assert(path_view(seq!["descriptionSnippet", "runs"]) =~= seq!["descriptionSnippet"@, "runs"@]);
    }
    if let Some(runs) = array_at_exec(renderer, &["descriptionSnippet", "runs"]) {
        let text = runs_concat(runs);
        if !text.as_str().is_empty() {
            return Some(text);
        }
    }
    None
}

fn owned_str_at(v: &JsonValue, tokens: &[&str]) -> (r: Option<String>)
    ensures
        crate::model::opt_view(r) == str_at(*v, path_view(tokens@)),
{
    match str_at_exec(v, tokens) {
        Some(s) => Some(string_of(s)),
        None => None,
    }
}

/// Reads a `videoRenderer` into a summary; `channel` names the channel when
/// the caller knows it. Renderers without a video ID give nothing.
pub fn parse_video_renderer(renderer: &JsonValue, channel: Option<&str>) -> (r: Option<VideoSummary>)
    ensures
        opt_summary_view(r) == video_of(*renderer, opt_str_view(channel)),
{
    let video_id = match renderer.get("videoId") {
        Some(v) => match v.as_str() {
            Some(s) => string_of(s),
            None => String::new(),
        },
        None => String::new(),
    };
    if video_id.as_str().is_empty() {
        return None;
    }
    proof {
        assert(path_view(seq!["title", "runs", "0", "text"]) =~= seq!["title"@, "runs"@, "0"@, "text"@]);
        assert(path_view(seq!["ownerText", "runs", "0", "text"]) =~= seq!["ownerText"@, "runs"@, "0"@, "text"@]);
        assert(path_view(seq!["lengthText", "simpleText"]) =~= seq!["lengthText"@, "simpleText"@]);
        assert(path_view(seq!["viewCountText", "simpleText"]) =~= seq!["viewCountText"@, "simpleText"@]);
        assert(path_view(seq!["publishedTimeText", "simpleText"]) =~= seq!["publishedTimeText"@, "simpleText"@]);
    }
    let title = match str_at_exec(renderer, &["title", "runs", "0", "text"]) {
        Some(s) => string_of(s),
        None => string_of("Unknown"),
    };
    let channel_name = match channel {
        Some(c) => string_of(c),
        None => match str_at_exec(renderer, &["ownerText", "runs", "0", "text"]) {
            Some(s) => string_of(s),
            None => string_of("Unknown"),
        },
    };
    let duration = owned_str_at(renderer, &["lengthText", "simpleText"]);
    let views = owned_str_at(renderer, &["viewCountText", "simpleText"]);
    let published = owned_str_at(renderer, &["publishedTimeText", "simpleText"]);
    let description = extract_description(renderer);
    Some(VideoSummary { video_id, title, channel: channel_name, duration, views, published, description })
}

// ---------------------------------------------------------------------------
// Reading the search response
// ---------------------------------------------------------------------------

/// The videos of one search result item (none, or one).
pub open spec fn item_video(item: JsonValue) -> Seq<VideoSummaryView> {
    match item.field("videoRenderer"@) {
        Some(r) => match video_of(r, None) {
            Some(v) => seq![v],
            None => Seq::empty(),
        },
        None => Seq::empty(),
    }
}

/// The videos of a list of search result items, in order.
pub open spec fn items_videos(items: Seq<JsonValue>) -> Seq<VideoSummaryView>
    decreases items.len(),
{
    if items.len() == 0 {
        Seq::empty()
    } else {
        items_videos(items.drop_last()) + item_video(items.last())
    }
}

pub proof fn lemma_items_videos_split(items: Seq<JsonValue>, j: int)
    requires
        0 <= j <= items.len(),
    ensures
        items_videos(items) == items_videos(items.take(j)) + items_videos(items.skip(j)),
    decreases items.len() - j,
{
    if j == items.len() {
        assert(items.take(j) =~= items);
        assert(items.skip(j) =~= Seq::<JsonValue>::empty());
        assert(items_videos(items) + Seq::<VideoSummaryView>::empty() =~= items_videos(items));
    } else {
        lemma_items_videos_split(items, j + 1);
        assert(items.take(j + 1).drop_last() =~= items.take(j));
        assert(items.take(j + 1).last() == items[j]);
        lemma_items_videos_cons(items.skip(j));
        assert(items.skip(j).drop_first() =~= items.skip(j + 1));
        assert(items.skip(j)[0] == items[j]);
        assert(items_videos(items.take(j)) + item_video(items[j]) + items_videos(items.skip(j + 1))
            =~= items_videos(items.take(j)) + (item_video(items[j]) + items_videos(items.skip(j + 1))));
    }
}

/// Unfolding `items_videos` from the front.
pub proof fn lemma_items_videos_cons(items: Seq<JsonValue>)
    requires
        items.len() > 0,
    ensures
        items_videos(items) == item_video(items[0]) + items_videos(items.drop_first()),
    decreases items.len(),
{
    if items.len() == 1 {
        assert(items.drop_last() =~= Seq::<JsonValue>::empty());
        assert(items.drop_first() =~= Seq::<JsonValue>::empty());
        assert(Seq::<VideoSummaryView>::empty() + item_video(items[0]) =~= item_video(items[0]) + Seq::<VideoSummaryView>::empty());
    } else {
        lemma_items_videos_cons(items.drop_last());
        assert(items.drop_last().drop_first() =~= items.drop_first().drop_last());
        assert(items.drop_first().last() == items.last());
        assert(items.drop_last()[0] == items[0]);
        assert(item_video(items[0]) + items_videos(items.drop_first().drop_last()) + item_video(items.last())
            =~= item_video(items[0]) + (items_videos(items.drop_first().drop_last()) + item_video(items.last())));
    }
}

/// The videos of one section of the search results.
pub open spec fn section_videos(section: JsonValue) -> Seq<VideoSummaryView> {
    match array_at(section, seq!["itemSectionRenderer"@, "contents"@]) {
        Some(items) => items_videos(items),
        None => Seq::empty(),
    }
}

pub open spec fn sections_videos(sections: Seq<JsonValue>) -> Seq<VideoSummaryView>
    decreases sections.len(),
{
    if sections.len() == 0 {
        Seq::empty()
    } else {
        sections_videos(sections.drop_last()) + section_videos(sections.last())
    }
}

pub open spec fn search_sections_path() -> Seq<Seq<char>> {
    seq![
        "contents"@,
        "twoColumnSearchResultsRenderer"@,
        "primaryContents"@,
        "sectionListRenderer"@,
        "contents"@,
    ]
}

/// The videos of a search response, at most `limit` of them; nothing when the
/// response lacks the result sections.
pub open spec fn search_videos(response: JsonValue, limit: nat) -> Option<Seq<VideoSummaryView>> {
    match array_at(response, search_sections_path()) {
        Some(sections) => Some(take_at_most(sections_videos(sections), limit)),
        None => None,
    }
}

/// Reads the first `limit` videos of a search response.
pub fn parse_search_response(response: &JsonValue, limit: usize) -> (r: Result<Vec<VideoSummary>, YoutubeError>)
    ensures
        match r {
            Ok(videos) => search_videos(*response, limit as nat) == Some(summaries_view(videos@)),
            Err(YoutubeError::ParseError(m)) => search_videos(*response, limit as nat) is None
                && m@ == "Missing search results structure"@,
            Err(_) => false,
        },
{
    proof {
        assert(path_view(seq!["contents", "twoColumnSearchResultsRenderer", "primaryContents", "sectionListRenderer", "contents"]) =~= search_sections_path());
        assert(path_view(seq!["itemSectionRenderer", "contents"]) =~= seq!["itemSectionRenderer"@, "contents"@]);
    }
    let sections = match array_at_exec(
        response,
        &["contents", "twoColumnSearchResultsRenderer", "primaryContents", "sectionListRenderer", "contents"],
    ) {
        Some(s) => s,
        None => {
            return Err(YoutubeError::ParseError(string_of("Missing search results structure")));
        },
    };
    let ghost n = limit as nat;
    let mut videos: Vec<VideoSummary> = Vec::new();
    let mut i: usize = 0;
    while i < sections.len()
        invariant
            i <= sections@.len(),
            n == limit,
            summaries_view(videos@) == take_at_most(sections_videos(sections@.take(i as int)), n),
            array_at(*response, search_sections_path()) == Some(sections@),
            path_view(seq!["itemSectionRenderer", "contents"]) == seq!["itemSectionRenderer"@, "contents"@],
        decreases sections.len() - i,
    {
        let ghost before = sections_videos(sections@.take(i as int));
        proof {
            assert(sections@.take(i + 1).drop_last() =~= sections@.take(i as int));
            assert(sections@.take(i + 1).last() == sections@[i as int]);
        }
        match array_at_exec(&sections[i], &["itemSectionRenderer", "contents"]) {
            Some(items) => {
                let mut j: usize = 0;
                while j < items.len()
                    invariant
                        j <= items@.len(),
                        n == limit,
                        summaries_view(videos@) == take_at_most(before + items_videos(items@.take(j as int)), n),
                    decreases items.len() - j,
                {
                    let ghost prev = before + items_videos(items@.take(j as int));
                    proof {
                        assert(items@.take(j + 1).drop_last() =~= items@.take(j as int));
                        assert(items@.take(j + 1).last() == items@[j as int]);
                        assert(before + items_videos(items@.take(j + 1)) =~= prev + item_video(items@[j as int]));
                        lemma_take_at_most_push(prev, item_video(items@[j as int]), n);
                    }
                    if videos.len() >= limit {
                        proof {
                            let rest = items@.skip(j as int);
                            lemma_items_videos_split(items@, j as int);
                            lemma_take_at_most_full(prev, items_videos(rest), n);
                            assert(items@.take(items@.len() as int) =~= items@);
                            assert(before + items_videos(items@) =~= prev + items_videos(rest));
                        }
                        j = items.len();
                        proof {
                            assert(items@.take(j as int) =~= items@);
                        }
                    } else {
                        match items[j].get("videoRenderer") {
                            Some(renderer) => {
                                match parse_video_renderer(renderer, None) {
                                    Some(v) => {
                                        let ghost pre = videos@;
                                        let ghost vv = v@;
                                        videos.push(v);
                                        proof {
                                            assert(summaries_view(videos@) =~= summaries_view(pre).push(vv));
                                            assert(summaries_view(pre).push(vv) =~= summaries_view(pre) + seq![vv]);
                                        }
                                    },
                                    None => {},
                                }
                            },
                            None => {},
                        }
                        j = j + 1;
                    }
                }
                proof {
                    assert(items@.take(items@.len() as int) =~= items@);
                    assert(sections_videos(sections@.take(i + 1)) == before + items_videos(items@));
                }
            },
            None => {
                proof {
                    assert(before + Seq::<VideoSummaryView>::empty() =~= before);
                }
            },
        }
        i = i + 1;
    }
    proof {
        assert(sections@.take(sections@.len() as int) =~= sections@);
    }
    Ok(videos)
}

/// Builds the `params` value that selects a sort order and duration filter.
/// A duration combined with a sort other than relevance keeps the sort only.
pub fn build_search_params(sort: SortOrder, duration: Option<DurationFilter>) -> (r: Option<String>)
    ensures
        crate::model::opt_view(r) == search_params(sort, duration),
{
    match (sort, duration) {
        (SortOrder::Relevance, None) => None,
        (SortOrder::Date, _) => Some(string_of("CAISAhAB")),
        (SortOrder::Views, _) => Some(string_of("CAMSAhAB")),
        (SortOrder::Rating, _) => Some(string_of("CAESAhAB")),
        (SortOrder::Relevance, Some(DurationFilter::Short)) => Some(string_of("EgIYAQ%3D%3D")),
        (SortOrder::Relevance, Some(DurationFilter::Medium)) => Some(string_of("EgIYAw%3D%3D")),
        (SortOrder::Relevance, Some(DurationFilter::Long)) => Some(string_of("EgIYAg%3D%3D")),
    }
}

pub open spec fn search_params(sort: SortOrder, duration: Option<DurationFilter>) -> Option<Seq<char>> {
    match sort {
        SortOrder::Date => Some("CAISAhAB"@),
        SortOrder::Views => Some("CAMSAhAB"@),
        SortOrder::Rating => Some("CAESAhAB"@),
        SortOrder::Relevance => match duration {
            None => None,
            Some(DurationFilter::Short) => Some("EgIYAQ%3D%3D"@),
            Some(DurationFilter::Medium) => Some("EgIYAw%3D%3D"@),
            Some(DurationFilter::Long) => Some("EgIYAg%3D%3D"@),
        },
    }
}

/// `v` is `{"context": <web context>, "query": query}`, with
/// `"params": p` added when there are parameters.
pub open spec fn is_search_body(v: JsonValue, query: Seq<char>, params: Option<Seq<char>>) -> bool {
    match v {
        JsonValue::Object(m) => {
            &&& m@.len() == (if params is Some { 3nat } else { 2nat })
            &&& m@[0].0@ == "context"@ && is_web_context(m@[0].1)
            &&& m@[1].0@ == "query"@ && m@[1].1.str_value() == Some(query)
            &&& params matches Some(p) ==> m@[2].0@ == "params"@ && m@[2].1.str_value() == Some(p)
        },
        _ => false,
    }
}

/// The search request for `query`, with the parameters for the sort order
/// and duration filter.
pub fn search_request_body(query: &str, sort: SortOrder, duration: Option<DurationFilter>) -> (r: JsonValue)
    ensures
        is_search_body(r, query@, search_params(sort, duration)),
{
    let mut m: Vec<(String, JsonValue)> = Vec::new();
    m.push((string_of("context"), web_context()));
    m.push((string_of("query"), JsonValue::Str(string_of(query))));
    match build_search_params(sort, duration) {
        Some(p) => {
            m.push((string_of("params"), JsonValue::Str(p)));
        },
        None => {},
    }
    JsonValue::Object(m)
}

/// The result of a search: the query and the videos read from the response.
pub fn search_result(query: &str, response: &JsonValue, limit: usize) -> (r: Result<SearchResult, YoutubeError>)
    ensures
        match r {
            Ok(res) => res.query@ == query@ && search_videos(*response, limit as nat) == Some(summaries_view(res.videos@)),
            Err(YoutubeError::ParseError(m)) => search_videos(*response, limit as nat) is None
                && m@ == "Missing search results structure"@,
            Err(_) => false,
        },
{
    let videos = parse_search_response(response, limit)?;
    Ok(SearchResult { query: string_of(query), videos })
}

} // verus!
