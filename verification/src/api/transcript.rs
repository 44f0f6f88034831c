//! Videos and transcripts: reading the watch page and the player response,
//! choosing a caption track, and cleaning caption text.
use vstd::prelude::*;
use crate::api::channel::opt_seq;
use crate::api::{client_context, is_client_context};
use crate::error::YoutubeError;
use crate::json::{JsonValue, array_at, array_at_exec, path_view, str_at, str_at_exec};
use crate::model::{CaptionLanguage, TranscriptEntry, TranscriptResult, VideoDetail, opt_view};
use crate::pattern::{first_capture, regex_capture};
use crate::seqs::{flat_map, lemma_flat_map_all, lemma_flat_map_step};
use crate::text::{
    contains, join, parse_u64, parse_u64_exec, push_str, replace_all, replace_str, starts_with,
    starts_with_exec, str_contains, str_eq, string_of, trim_end_str, trim_end_str_exec, views,
    join_strings, chars_of,
};

verus! {

/// The watch page of a video, without its ID.
pub const WATCH_URL: &'static str = "https://www.youtube.com/watch?v=";

/// The InnerTube player endpoint.
pub const INNERTUBE_PLAYER_URL: &'static str = "https://www.youtube.com/youtubei/v1/player";

/// Where the InnerTube API key appears in a watch page.
pub const API_KEY_PATTERN: &'static str = r#""INNERTUBE_API_KEY":\s*"([a-zA-Z0-9_-]+)""#;

/// A caption track offered by the player.
#[derive(Debug)]
pub struct CaptionTrack {
    pub base_url: String,
    pub language_code: String,
    pub language_name: String,
    pub is_auto_generated: bool,
}

pub ghost struct CaptionTrackView {
    pub base_url: Seq<char>,
    pub language_code: Seq<char>,
    pub language_name: Seq<char>,
    pub is_auto_generated: bool,
}

impl View for CaptionTrack {
    type V = CaptionTrackView;

    open spec fn view(&self) -> CaptionTrackView {
        CaptionTrackView {
            base_url: self.base_url@,
            language_code: self.language_code@,
            language_name: self.language_name@,
            is_auto_generated: self.is_auto_generated,
        }
    }
}

pub open spec fn tracks_view(t: Seq<CaptionTrack>) -> Seq<CaptionTrackView> {
    t.map_values(|c: CaptionTrack| c@)
}

/// What the player response says about a video.
#[derive(Debug)]
pub struct PlayerData {
    pub video_id: String,
    pub title: String,
    pub channel: String,
    pub channel_id: String,
    pub view_count: Option<String>,
    pub length_seconds: Option<u64>,
    pub description: Option<String>,
    pub keywords: Vec<String>,
    pub is_live: bool,
    pub caption_tracks: Vec<CaptionTrack>,
}

pub ghost struct PlayerDataView {
    pub video_id: Seq<char>,
    pub title: Seq<char>,
    pub channel: Seq<char>,
    pub channel_id: Seq<char>,
    pub view_count: Option<Seq<char>>,
    pub length_seconds: Option<u64>,
    pub description: Option<Seq<char>>,
    pub keywords: Seq<Seq<char>>,
    pub is_live: bool,
    pub caption_tracks: Seq<CaptionTrackView>,
}

impl View for PlayerData {
    type V = PlayerDataView;

    open spec fn view(&self) -> PlayerDataView {
        PlayerDataView {
            video_id: self.video_id@,
            title: self.title@,
            channel: self.channel@,
            channel_id: self.channel_id@,
            view_count: opt_view(self.view_count),
            length_seconds: self.length_seconds,
            description: opt_view(self.description),
            keywords: views(self.keywords@),
            is_live: self.is_live,
            caption_tracks: tracks_view(self.caption_tracks@),
        }
    }
}

// ---------------------------------------------------------------------------
// The watch page
// ---------------------------------------------------------------------------

/// The watch page of `video_id`.
pub fn watch_page_url(video_id: &str) -> (r: String)
    ensures
        r@ == WATCH_URL@ + video_id@,
{
    let mut u = string_of(WATCH_URL);
    push_str(&mut u, video_id);
    u
}

/// The API key given what the key pattern captures in a watch page, or the
/// error: a reCAPTCHA page means the address is blocked, anything else is
/// unreadable.
pub open spec fn api_key_from(capture: Option<Seq<char>>, html: Seq<char>, video_id: Seq<char>) -> Result<Seq<char>, (nat, Seq<char>)> {
    match capture {
        Some(k) => Ok(k),
        None => if contains(html, "class=\"g-recaptcha\""@) {
            Err((0, "IP blocked by YouTube (reCAPTCHA). Try again later."@))
        } else {
            Err((1, "Could not extract INNERTUBE_API_KEY for video "@ + video_id))
        },
    }
}

/// The API key read from a watch page, or the error.
pub open spec fn api_key_of(html: Seq<char>, video_id: Seq<char>) -> Result<Seq<char>, (nat, Seq<char>)> {
    api_key_from(regex_capture(API_KEY_PATTERN@, html), html, video_id)
}

/// The API key of a watch page given what the key pattern captures in it.
pub fn api_key_from_capture(capture: Option<String>, html: &str, video_id: &str) -> (r: Result<String, YoutubeError>)
    ensures
        match r {
            Ok(k) => api_key_from(opt_view(capture), html@, video_id@) == Ok::<Seq<char>, (nat, Seq<char>)>(k@),
            Err(YoutubeError::Api(m)) => api_key_from(opt_view(capture), html@, video_id@) == Err::<Seq<char>, (nat, Seq<char>)>((0, m@)),
            Err(YoutubeError::ParseError(m)) => api_key_from(opt_view(capture), html@, video_id@) == Err::<Seq<char>, (nat, Seq<char>)>((1, m@)),
            Err(_) => false,
        },
{
    match capture {
        Some(k) => Ok(k),
        None => {
            if str_contains(html, "class=\"g-recaptcha\"") {
                Err(YoutubeError::Api(string_of("IP blocked by YouTube (reCAPTCHA). Try again later.")))
            } else {
                let mut m = string_of("Could not extract INNERTUBE_API_KEY for video ");
                push_str(&mut m, video_id);
                Err(YoutubeError::ParseError(m))
            }
        },
    }
}

/// Reads the InnerTube API key from a watch page.
pub fn extract_innertube_api_key(html: &str, video_id: &str) -> (r: Result<String, YoutubeError>)
    ensures
        match r {
            Ok(k) => api_key_of(html@, video_id@) == Ok::<Seq<char>, (nat, Seq<char>)>(k@),
            Err(YoutubeError::Api(m)) => api_key_of(html@, video_id@) == Err::<Seq<char>, (nat, Seq<char>)>((0, m@)),
            Err(YoutubeError::ParseError(m)) => api_key_of(html@, video_id@) == Err::<Seq<char>, (nat, Seq<char>)>((1, m@)),
            Err(_) => false,
        },
{
    api_key_from_capture(first_capture(API_KEY_PATTERN, html), html, video_id)
}

/// Reads a watch page: a page whose playability status is an error means the
/// video is unavailable; else its API key is read.
pub fn read_watch_page(html: &str, video_id: &str) -> (r: Result<String, YoutubeError>)
    ensures
        contains(html@, "\"playabilityStatus\":{\"status\":\"ERROR\""@) ==> (r matches Err(YoutubeError::VideoUnavailable(m)) && m@ == video_id@),
        !contains(html@, "\"playabilityStatus\":{\"status\":\"ERROR\""@) ==> match r {
            Ok(k) => api_key_of(html@, video_id@) == Ok::<Seq<char>, (nat, Seq<char>)>(k@),
            Err(YoutubeError::Api(m)) => api_key_of(html@, video_id@) == Err::<Seq<char>, (nat, Seq<char>)>((0, m@)),
            Err(YoutubeError::ParseError(m)) => api_key_of(html@, video_id@) == Err::<Seq<char>, (nat, Seq<char>)>((1, m@)),
            Err(_) => false,
        },
{
    if str_contains(html, "\"playabilityStatus\":{\"status\":\"ERROR\"") {
        return Err(YoutubeError::VideoUnavailable(string_of(video_id)));
    }
    extract_innertube_api_key(html, video_id)
}

/// The player endpoint, called with `api_key`.
pub fn player_url(api_key: &str) -> (r: String)
    ensures
        r@ == INNERTUBE_PLAYER_URL@ + "?key="@ + api_key@,
{
    let mut u = string_of(INNERTUBE_PLAYER_URL);
    push_str(&mut u, "?key=");
    push_str(&mut u, api_key);
    u
}

/// `v` is `{"context": <Android client>, "videoId": video_id}`.
pub open spec fn is_player_body(v: JsonValue, video_id: Seq<char>) -> bool {
    match v {
        JsonValue::Object(m) => {
            &&& m@.len() == 2
            &&& m@[0].0@ == "context"@ && is_client_context(m@[0].1, "ANDROID"@, "20.10.38"@)
            &&& m@[1].0@ == "videoId"@ && m@[1].1.str_value() == Some(video_id)
        },
        _ => false,
    }
}

/// The player request for `video_id`, made as the Android client.
pub fn player_request_body(video_id: &str) -> (r: JsonValue)
    ensures
        is_player_body(r, video_id@),
{
    let mut m: Vec<(String, JsonValue)> = Vec::new();
    m.push((string_of("context"), client_context("ANDROID", "20.10.38")));
    m.push((string_of("videoId"), JsonValue::Str(string_of(video_id))));
    JsonValue::Object(m)
}

// ---------------------------------------------------------------------------
// The player response
// ---------------------------------------------------------------------------

pub open spec fn field_str(v: Option<JsonValue>, key: Seq<char>) -> Option<Seq<char>> {
    match v {
        Some(x) => match x.field(key) {
            Some(f) => f.str_value(),
            None => None,
        },
        None => None,
    }
}

pub open spec fn or_default(s: Option<Seq<char>>, d: Seq<char>) -> Seq<char> {
    match s {
        Some(t) => t,
        None => d,
    }
}

/// The caption track described by one entry of `captionTracks`: it needs a
/// base URL (with any `&fmt=srv3` removed) and a language code; its name is
/// the first run or the simple text of `name` (else the code), without an
/// " (auto-generated)" suffix; kind `asr` marks it auto-generated.
pub open spec fn track_of(track: JsonValue) -> Option<CaptionTrackView> {
    match (field_str(Some(track), "baseUrl"@), field_str(Some(track), "languageCode"@)) {
        (Some(base), Some(code)) => {
            let name_value = match track.at_path(seq!["name"@, "runs"@, "0"@, "text"@]) {
                Some(v) => Some(v),
                None => track.at_path(seq!["name"@, "simpleText"@]),
            };
            let raw_name = match name_value {
                Some(v) => or_default(v.str_value(), code),
                None => code,
            };
            Some(CaptionTrackView {
                base_url: replace_all(base, "&fmt=srv3"@, Seq::empty()),
                language_code: code,
                language_name: trim_end_str(raw_name, " (auto-generated)"@),
                is_auto_generated: field_str(Some(track), "kind"@) == Some("asr"@),
            })
        },
        _ => None,
    }
}

pub open spec fn track_fn() -> spec_fn(JsonValue) -> Seq<CaptionTrackView> {
    |t: JsonValue| opt_seq(track_of(t))
}

pub open spec fn keyword_fn() -> spec_fn(JsonValue) -> Seq<Seq<char>> {
    |k: JsonValue| match k.str_value() {
        Some(s) => seq![s],
        None => Seq::empty(),
    }
}

/// The data of a playable video, read from the player response.
pub open spec fn player_data_of(video_id: Seq<char>, response: JsonValue) -> PlayerDataView {
    let details = response.field("videoDetails"@);
    PlayerDataView {
        video_id,
        title: or_default(field_str(details, "title"@), "Unknown"@),
        channel: or_default(field_str(details, "author"@), "Unknown"@),
        channel_id: or_default(field_str(details, "channelId"@), Seq::empty()),
        view_count: field_str(details, "viewCount"@),
        length_seconds: match field_str(details, "lengthSeconds"@) {
            Some(s) => parse_u64(s),
            None => None,
        },
        description: field_str(details, "shortDescription"@),
        keywords: match details {
            Some(d) => match d.field("keywords"@) {
                Some(k) => match k.array_value() {
                    Some(a) => flat_map(a, keyword_fn()),
                    None => Seq::empty(),
                },
                None => Seq::empty(),
            },
            None => Seq::empty(),
        },
        is_live: match details {
            Some(d) => match d.field("isLiveContent"@) {
                Some(b) => b.bool_value() == Some(true),
                None => false,
            },
            None => false,
        },
        caption_tracks: match array_at(response, seq!["captions"@, "playerCaptionsTracklistRenderer"@, "captionTracks"@]) {
            Some(tracks) => flat_map(tracks, track_fn()),
            None => Seq::empty(),
        },
    }
}

pub open spec fn playability_status(response: JsonValue) -> Seq<char> {
    or_default(str_at(response, seq!["playabilityStatus"@, "status"@]), "UNKNOWN"@)
}

pub open spec fn playability_reason(response: JsonValue, default: Seq<char>) -> Seq<char> {
    or_default(str_at(response, seq!["playabilityStatus"@, "reason"@]), default)
}

/// How the player response is answered: an `ERROR` status means the video is
/// unavailable (with the reason), `LOGIN_REQUIRED` is an API error (bot
/// detection when the reason mentions it), anything else gives the data.
pub open spec fn player_result_ok(video_id: Seq<char>, response: JsonValue, r: Result<PlayerData, YoutubeError>) -> bool {
    let status = playability_status(response);
    if status == "ERROR"@ {
        r matches Err(YoutubeError::VideoUnavailable(m)) && m@ == video_id + ": "@ + playability_reason(response, "Unknown error"@)
    } else if status == "LOGIN_REQUIRED"@ {
        let reason = playability_reason(response, "Login required"@);
        if contains(reason, "bot"@) || contains(reason, "Bot"@) {
            r matches Err(YoutubeError::Api(m)) && m@ == "Request blocked by YouTube (bot detection). Try again later."@
        } else {
            r matches Err(YoutubeError::Api(m)) && m@ == "Video requires login: "@ + reason
        }
    } else {
        r matches Ok(d) && d@ == player_data_of(video_id, response)
    }
}

fn field_str_exec(v: Option<&JsonValue>, key: &str) -> (r: Option<String>)
    ensures
        opt_view(r) == field_str(match v { Some(x) => Some(*x), None => None }, key@),
{
    match v {
        Some(x) => match x.get(key) {
            Some(f) => match f.as_str() {
                Some(s) => Some(string_of(s)),
                None => None,
            },
            None => None,
        },
        None => None,
    }
}

fn or_default_exec(s: Option<String>, d: &str) -> (r: String)
    ensures
        r@ == or_default(opt_view(s), d@),
{
    match s {
        Some(t) => t,
        None => string_of(d),
    }
}

fn read_track(track: &JsonValue) -> (r: Option<CaptionTrack>)
    ensures
        match r {
            Some(t) => track_of(*track) == Some(t@),
            None => track_of(*track) is None,
        },
{
    let base = match field_str_exec(Some(track), "baseUrl") {
        Some(b) => b,
        None => return None,
    };
    let code = match field_str_exec(Some(track), "languageCode") {
        Some(c) => c,
        None => return None,
    };
    proof {
        assert(path_view(seq!["name", "runs", "0", "text"]) =~= seq!["name"@, "runs"@, "0"@, "text"@]);
        assert(path_view(seq!["name", "simpleText"]) =~= seq!["name"@, "simpleText"@]);
    }
    let name_value = match track.pointer(&["name", "runs", "0", "text"]) {
        Some(v) => Some(v),
        None => track.pointer(&["name", "simpleText"]),
    };
    let raw_name = match name_value {
        Some(v) => match v.as_str() {
            Some(s) => string_of(s),
            None => string_of(code.as_str()),
        },
        None => string_of(code.as_str()),
    };
    proof {
        reveal_strlit("&fmt=srv3");
        reveal_strlit(" (auto-generated)");
        reveal_strlit("");
    }
    let base_url = replace_str(base.as_str(), "&fmt=srv3", "");
    let language_name = trim_end_str_exec(raw_name.as_str(), " (auto-generated)");
    let is_auto_generated = match field_str_exec(Some(track), "kind") {
        Some(k) => str_eq(k.as_str(), "asr"),
        None => false,
    };
    proof {
        assert(""@ =~= Seq::<char>::empty());
    }
    Some(CaptionTrack { base_url, language_code: code, language_name, is_auto_generated })
}

/// Reads the player response for `video_id`.
pub fn parse_player_response(video_id: &str, response: &JsonValue) -> (r: Result<PlayerData, YoutubeError>)
    ensures
        player_result_ok(video_id@, *response, r),
{
    proof {
        assert(path_view(seq!["playabilityStatus", "status"]) =~= seq!["playabilityStatus"@, "status"@]);
        assert(path_view(seq!["playabilityStatus", "reason"]) =~= seq!["playabilityStatus"@, "reason"@]);
        assert(path_view(seq!["captions", "playerCaptionsTracklistRenderer", "captionTracks"]) =~= seq!["captions"@, "playerCaptionsTracklistRenderer"@, "captionTracks"@]);
    }
    let status = match str_at_exec(response, &["playabilityStatus", "status"]) {
        Some(s) => s,
        None => "UNKNOWN",
    };
    if str_eq(status, "ERROR") {
        let reason = match str_at_exec(response, &["playabilityStatus", "reason"]) {
            Some(s) => s,
            None => "Unknown error",
        };
        let mut m = string_of(video_id);
        push_str(&mut m, ": ");
        push_str(&mut m, reason);
        return Err(YoutubeError::VideoUnavailable(m));
    }
    if str_eq(status, "LOGIN_REQUIRED") {
        let reason = match str_at_exec(response, &["playabilityStatus", "reason"]) {
            Some(s) => s,
            None => "Login required",
        };
        if str_contains(reason, "bot") || str_contains(reason, "Bot") {
            return Err(YoutubeError::Api(string_of("Request blocked by YouTube (bot detection). Try again later.")));
        }
        let mut m = string_of("Video requires login: ");
        push_str(&mut m, reason);
        return Err(YoutubeError::Api(m));
    }
    let details = response.get("videoDetails");
    let title = or_default_exec(field_str_exec(details, "title"), "Unknown");
    let channel = or_default_exec(field_str_exec(details, "author"), "Unknown");
    let channel_id = or_default_exec(field_str_exec(details, "channelId"), "");
    let view_count = field_str_exec(details, "viewCount");
    let length_seconds = match field_str_exec(details, "lengthSeconds") {
        Some(s) => parse_u64_exec(s.as_str()),
        None => None,
    };
    let description = field_str_exec(details, "shortDescription");
    let mut keywords: Vec<String> = Vec::new();
    let kw = match details {
        Some(d) => match d.get("keywords") {
            Some(k) => k.as_array(),
            None => None,
        },
        None => None,
    };
    if let Some(arr) = kw {
        proof {
            lemma_flat_map_all(arr@, keyword_fn());
            assert(views(keywords@) =~= Seq::<Seq<char>>::empty());
        }
        let mut i: usize = 0;
        while i < arr.len()
            invariant
                i <= arr@.len(),
                views(keywords@) == flat_map(arr@.take(i as int), keyword_fn()),
            decreases arr.len() - i,
        {
            proof {
                lemma_flat_map_step(arr@, keyword_fn(), i as int);
            }
            let ghost pre = keywords@;
            match arr[i].as_str() {
                Some(s) => {
                    keywords.push(string_of(s));
                    proof {
                        assert(views(keywords@) =~= views(pre) + seq![s@]);
                    }
                },
                None => {
                    proof {
                        assert(views(keywords@) + Seq::<Seq<char>>::empty() =~= views(keywords@));
                    }
                },
            }
            i = i + 1;
        }
        proof {
            lemma_flat_map_all(arr@, keyword_fn());
        }
    } else {
        proof {
            assert(views(keywords@) =~= Seq::<Seq<char>>::empty());
        }
    }
    let is_live = match details {
        Some(d) => match d.get("isLiveContent") {
            Some(b) => match b.as_bool() {
                Some(x) => x,
                None => false,
            },
            None => false,
        },
        None => false,
    };
    let mut caption_tracks: Vec<CaptionTrack> = Vec::new();
    match array_at_exec(response, &["captions", "playerCaptionsTracklistRenderer", "captionTracks"]) {
        Some(tracks) => {
            proof {
                lemma_flat_map_all(tracks@, track_fn());
                assert(tracks_view(caption_tracks@) =~= Seq::<CaptionTrackView>::empty());
            }
            let mut i: usize = 0;
            while i < tracks.len()
                invariant
                    i <= tracks@.len(),
                    tracks_view(caption_tracks@) == flat_map(tracks@.take(i as int), track_fn()),
                decreases tracks.len() - i,
            {
                proof {
                    lemma_flat_map_step(tracks@, track_fn(), i as int);
                }
                let ghost pre = caption_tracks@;
                match read_track(&tracks[i]) {
                    Some(t) => {
                        let ghost tv = t@;
                        caption_tracks.push(t);
                        proof {
                            assert(tracks_view(caption_tracks@) =~= tracks_view(pre) + seq![tv]);
                        }
                    },
                    None => {
                        proof {
                            assert(tracks_view(caption_tracks@) + Seq::<CaptionTrackView>::empty() =~= tracks_view(caption_tracks@));
                        }
                    },
                }
                i = i + 1;
            }
            proof {
                lemma_flat_map_all(tracks@, track_fn());
            }
        },
        None => {
            proof {
                assert(tracks_view(caption_tracks@) =~= Seq::<CaptionTrackView>::empty());
            }
        },
    }
    proof {
        reveal_strlit("");
        assert(""@ =~= Seq::<char>::empty());
    }
    Ok(PlayerData {
        video_id: string_of(video_id),
        title,
        channel,
        channel_id,
        view_count,
        length_seconds,
        description,
        keywords,
        is_live,
        caption_tracks,
    })
}

// ---------------------------------------------------------------------------
// Video details
// ---------------------------------------------------------------------------

/// The details of a video, from its player data.
pub fn video_detail_from_player(player: PlayerData) -> (r: VideoDetail)
    ensures
        r.video_id@ == player.video_id@,
        r.title@ == player.title@,
        r.channel@ == player.channel@,
        r.channel_id@ == player.channel_id@,
        opt_view(r.view_count) == opt_view(player.view_count),
        r.length_seconds == player.length_seconds,
        opt_view(r.description) == opt_view(player.description),
        views(r.keywords@) == views(player.keywords@),
        r.is_live == player.is_live,
        r.caption_languages@.len() == player.caption_tracks@.len(),
        forall|i: int| 0 <= i < r.caption_languages@.len() ==> {
            let c = #[trigger] r.caption_languages@[i];
            let t = player.caption_tracks@[i];
            &&& c.language_code@ == t.language_code@
            &&& c.language_name@ == t.language_name@
            &&& c.is_auto_generated == t.is_auto_generated
        },
{
    let mut caption_languages: Vec<CaptionLanguage> = Vec::new();
    let mut i: usize = 0;
    while i < player.caption_tracks.len()
        invariant
            i <= player.caption_tracks@.len(),
            caption_languages@.len() == i,
            forall|j: int| 0 <= j < i ==> {
                let c = #[trigger] caption_languages@[j];
                let t = player.caption_tracks@[j];
                &&& c.language_code@ == t.language_code@
                &&& c.language_name@ == t.language_name@
                &&& c.is_auto_generated == t.is_auto_generated
            },
        decreases player.caption_tracks.len() - i,
    {
        let t = &player.caption_tracks[i];
        caption_languages.push(CaptionLanguage {
            language_code: string_of(t.language_code.as_str()),
            language_name: string_of(t.language_name.as_str()),
            is_auto_generated: t.is_auto_generated,
        });
        i = i + 1;
    }
    let PlayerData { video_id, title, channel, channel_id, view_count, length_seconds, description, keywords, is_live, caption_tracks: _ } = player;
    VideoDetail {
        video_id,
        title,
        channel,
        channel_id,
        view_count,
        length_seconds,
        description,
        keywords,
        is_live,
        caption_languages,
    }
}

// ---------------------------------------------------------------------------
// Choosing a caption track
// ---------------------------------------------------------------------------

/// Index of the first track satisfying `p`.
pub open spec fn first_index(tracks: Seq<CaptionTrackView>, p: spec_fn(CaptionTrackView) -> bool) -> Option<int> {
    if exists|i: int| 0 <= i < tracks.len() && p(#[trigger] tracks[i]) {
        Some(choose|i: int| 0 <= i < tracks.len() && p(tracks[i]) && forall|j: int| 0 <= j < i ==> !p(#[trigger] tracks[j]))
    } else {
        None
    }
}

pub open spec fn manual_match(lang: Seq<char>) -> spec_fn(CaptionTrackView) -> bool {
    |t: CaptionTrackView| t.language_code == lang && !t.is_auto_generated
}

pub open spec fn exact_match(lang: Seq<char>) -> spec_fn(CaptionTrackView) -> bool {
    |t: CaptionTrackView| t.language_code == lang
}

pub open spec fn prefix_match(lang: Seq<char>) -> spec_fn(CaptionTrackView) -> bool {
    |t: CaptionTrackView| starts_with(t.language_code, lang) || starts_with(lang, t.language_code)
}

/// The track chosen for `lang`: a manual track in that language, else any
/// track in it, else one whose code is a prefix of `lang` or has `lang` as a
/// prefix (such as "en" and "en-US").
pub open spec fn chosen_track(tracks: Seq<CaptionTrackView>, lang: Seq<char>) -> Option<int> {
    match first_index(tracks, manual_match(lang)) {
        Some(i) => Some(i),
        None => match first_index(tracks, exact_match(lang)) {
            Some(i) => Some(i),
            None => first_index(tracks, prefix_match(lang)),
        },
    }
}

/// How an available track is listed: code, then name, marked when auto-generated.
pub open spec fn track_label(t: CaptionTrackView) -> Seq<char> {
    t.language_code + " ("@ + t.language_name + (if t.is_auto_generated { ", auto-generated"@ } else { Seq::empty() }) + ")"@
}

pub open spec fn track_labels(tracks: Seq<CaptionTrackView>) -> Seq<Seq<char>> {
    tracks.map_values(|t: CaptionTrackView| track_label(t))
}

/// The message of the error when no track matches `lang`.
pub open spec fn no_language_message(tracks: Seq<CaptionTrackView>, lang: Seq<char>) -> Seq<char> {
    "language '"@ + lang + "' not found. Available: "@ + join(track_labels(tracks), ", "@)
}

proof fn lemma_first_index_found(tracks: Seq<CaptionTrackView>, p: spec_fn(CaptionTrackView) -> bool, i: int)
    requires
        0 <= i < tracks.len(),
        p(tracks[i]),
        forall|j: int| 0 <= j < i ==> !p(#[trigger] tracks[j]),
    ensures
        first_index(tracks, p) == Some(i),
{
    let k = choose|k: int| 0 <= k < tracks.len() && p(tracks[k]) && forall|j: int| 0 <= j < k ==> !p(#[trigger] tracks[j]);
    assert(0 <= k < tracks.len() && p(tracks[k]) && forall|j: int| 0 <= j < k ==> !p(#[trigger] tracks[j]));
    if k < i {
        assert(!p(tracks[k]));
    } else if i < k {
        assert(!p(tracks[i]));
    }
}

fn find_first(tracks: &Vec<CaptionTrack>, lang: &Vec<char>, kind: u8) -> (r: Option<usize>)
    requires
        kind < 3,
    ensures
        ({
            let p = if kind == 0 { manual_match(lang@) } else if kind == 1 { exact_match(lang@) } else { prefix_match(lang@) };
            match r {
                Some(i) => i < tracks@.len() && first_index(tracks_view(tracks@), p) == Some(i as int),
                None => first_index(tracks_view(tracks@), p) is None,
            }
        }),
{
    let ghost p = if kind == 0 { manual_match(lang@) } else if kind == 1 { exact_match(lang@) } else { prefix_match(lang@) };
    let ghost tv = tracks_view(tracks@);
    let mut i: usize = 0;
    while i < tracks.len()
        invariant
            i <= tracks@.len(),
            tv == tracks_view(tracks@),
            p == (if kind == 0 { manual_match(lang@) } else if kind == 1 { exact_match(lang@) } else { prefix_match(lang@) }),
            forall|j: int| 0 <= j < i ==> !p(#[trigger] tv[j]),
        decreases tracks.len() - i,
    {
        let code = chars_of(tracks[i].language_code.as_str());
        let hit = if kind == 0 {
            crate::text::chars_eq(&code, lang) && !tracks[i].is_auto_generated
        } else if kind == 1 {
            crate::text::chars_eq(&code, lang)
        } else {
            starts_with_exec(&code, lang) || starts_with_exec(lang, &code)
        };
        proof {
            assert(tv[i as int] == tracks@[i as int]@);
        }
        if hit {
            proof {
                lemma_first_index_found(tv, p, i as int);
            }
            return Some(i);
        }
        i = i + 1;
    }
    None
}

/// Chooses the caption track for `lang` (see `chosen_track`), or fails
/// listing the languages that are available.
pub fn find_caption_track<'a>(tracks: &'a Vec<CaptionTrack>, lang: &str, video_id: &str) -> (r: Result<&'a CaptionTrack, YoutubeError>)
    ensures
        match chosen_track(tracks_view(tracks@), lang@) {
            Some(i) => r matches Ok(t) && *t == tracks@[i],
            None => r matches Err(YoutubeError::LanguageNotAvailable(v, m)) && v@ == video_id@
                && m@ == no_language_message(tracks_view(tracks@), lang@),
        },
{
    let lv = chars_of(lang);
    if let Some(i) = find_first(tracks, &lv, 0) {
        return Ok(&tracks[i]);
    }
    if let Some(i) = find_first(tracks, &lv, 1) {
        return Ok(&tracks[i]);
    }
    if let Some(i) = find_first(tracks, &lv, 2) {
        return Ok(&tracks[i]);
    }
    let mut labels: Vec<String> = Vec::new();
    let mut i: usize = 0;
    while i < tracks.len()
        invariant
            i <= tracks@.len(),
            views(labels@) == track_labels(tracks_view(tracks@)).take(i as int),
        decreases tracks.len() - i,
    {
        let t = &tracks[i];
        let mut label = string_of(t.language_code.as_str());
        push_str(&mut label, " (");
        push_str(&mut label, t.language_name.as_str());
        if t.is_auto_generated {
            push_str(&mut label, ", auto-generated");
        } else {
            proof {
                assert(label@ + Seq::<char>::empty() =~= label@);
            }
        }
        push_str(&mut label, ")");
        proof {
            let tv = tracks_view(tracks@)[i as int];
            assert(tv == tracks@[i as int]@);
            assert(label@ =~= track_label(tv));
        }
        let ghost pre = labels@;
        let ghost lv = label@;
        labels.push(label);
        proof {
            assert(views(labels@) =~= views(pre).push(lv));
            assert(views(labels@) =~= track_labels(tracks_view(tracks@)).take(i + 1));
        }
        i = i + 1;
    }
    proof {
        assert(track_labels(tracks_view(tracks@)).take(tracks@.len() as int) =~= track_labels(tracks_view(tracks@)));
    }
    let mut m = string_of("language '");
    push_str(&mut m, lang);
    push_str(&mut m, "' not found. Available: ");
    let joined = join_strings(&labels, ", ");
    push_str(&mut m, joined.as_str());
    Err(YoutubeError::LanguageNotAvailable(string_of(video_id), m))
}

/// Chooses the caption track of a transcript: a video without tracks has no
/// transcript; else the track for `lang`.
pub fn select_caption_track<'a>(player: &'a PlayerData, lang: &str, video_id: &str) -> (r: Result<&'a CaptionTrack, YoutubeError>)
    ensures
        player.caption_tracks@.len() == 0 ==> (r matches Err(YoutubeError::NoTranscript(v)) && v@ == video_id@),
        player.caption_tracks@.len() > 0 ==> match chosen_track(tracks_view(player.caption_tracks@), lang@) {
            Some(i) => r matches Ok(t) && *t == player.caption_tracks@[i],
            None => r matches Err(YoutubeError::LanguageNotAvailable(v, m)) && v@ == video_id@
                && m@ == no_language_message(tracks_view(player.caption_tracks@), lang@),
        },
{
    if player.caption_tracks.len() == 0 {
        return Err(YoutubeError::NoTranscript(string_of(video_id)));
    }
    find_caption_track(&player.caption_tracks, lang, video_id)
}

/// A caption document must not be empty.
pub fn require_transcript_xml(xml: &str, video_id: &str) -> (r: Result<(), YoutubeError>)
    ensures
        xml@.len() == 0 ==> (r matches Err(YoutubeError::NoTranscript(v)) && v@ == video_id@),
        xml@.len() > 0 ==> r is Ok,
{
    if xml.is_empty() {
        Err(YoutubeError::NoTranscript(string_of(video_id)))
    } else {
        Ok(())
    }
}

/// A transcript: the video and track it comes from, and its entries.
pub fn transcript_result(player: &PlayerData, track: &CaptionTrack, entries: Vec<TranscriptEntry>) -> (r: TranscriptResult)
    ensures
        r.video_id@ == player.video_id@,
        r.title@ == player.title@,
        r.channel@ == player.channel@,
        r.language@ == track.language_name@,
        r.language_code@ == track.language_code@,
        r.is_auto_generated == track.is_auto_generated,
        r.entries == entries,
{
    TranscriptResult {
        video_id: string_of(player.video_id.as_str()),
        title: string_of(player.title.as_str()),
        channel: string_of(player.channel.as_str()),
        language: string_of(track.language_name.as_str()),
        language_code: string_of(track.language_code.as_str()),
        is_auto_generated: track.is_auto_generated,
        entries,
    }
}

// ---------------------------------------------------------------------------
// Caption text
// ---------------------------------------------------------------------------

/// Caption text with the HTML entities `&amp;`, `&lt;`, `&gt;`, `&quot;`,
/// `&#39;` and `&apos;` decoded, one after the other in that order.
pub open spec fn decoded_entities(text: Seq<char>) -> Seq<char> {
    let a = replace_all(text, "&amp;"@, "&"@);
    let b = replace_all(a, "&lt;"@, "<"@);
    let c = replace_all(b, "&gt;"@, ">"@);
    let d = replace_all(c, "&quot;"@, "\""@);
    let e = replace_all(d, "&#39;"@, "'"@);
    replace_all(e, "&apos;"@, "'"@)
}

/// Decodes the HTML entities that remain in caption text.
pub fn decode_html_entities(text: &str) -> (r: String)
    ensures
        r@ == decoded_entities(text@),
{
    proof {
        reveal_strlit("&amp;");
        reveal_strlit("&lt;");
        reveal_strlit("&gt;");
        reveal_strlit("&quot;");
        reveal_strlit("&#39;");
        reveal_strlit("&apos;");
    }
    let a = replace_str(text, "&amp;", "&");
    let b = replace_str(a.as_str(), "&lt;", "<");
    let c = replace_str(b.as_str(), "&gt;", ">");
    let d = replace_str(c.as_str(), "&quot;", "\"");
    let e = replace_str(d.as_str(), "&#39;", "'");
    replace_str(e.as_str(), "&apos;", "'")
}

} // verus!
