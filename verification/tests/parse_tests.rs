use youtube_cli::api::channel::{
    channel_from_captures, extract_channel_info, extract_initial_data, handle_fetch_error, handle_page_url,
    parse_browse_continuation, parse_browse_initial, parse_channel_page,
    parse_channel_search_page, parse_first_page, ChannelListing,
};
use youtube_cli::api::search::{extract_description, parse_search_response, parse_video_renderer, search_result};
use youtube_cli::api::transcript::{
    api_key_from_capture, decode_html_entities, extract_innertube_api_key, find_caption_track, parse_player_response,
    read_watch_page, require_transcript_xml, select_caption_track, transcript_result,
    video_detail_from_player, CaptionTrack,
};
use youtube_cli::cli::ChannelSort;
use youtube_cli::error::YoutubeError;
use youtube_cli::json::JsonValue;
use youtube_cli::model::{ChannelInfo, TranscriptEntry, VideoSummary};

fn s(t: &str) -> JsonValue {
    JsonValue::Str(t.to_string())
}

fn arr(items: Vec<JsonValue>) -> JsonValue {
    JsonValue::Array(items)
}

fn obj(members: Vec<(&str, JsonValue)>) -> JsonValue {
    JsonValue::Object(members.into_iter().map(|(k, v)| (k.to_string(), v)).collect())
}

fn runs(texts: &[&str]) -> JsonValue {
    obj(vec![("runs", arr(texts.iter().map(|t| obj(vec![("text", s(t))])).collect()))])
}

fn simple(t: &str) -> JsonValue {
    obj(vec![("simpleText", s(t))])
}

fn renderer(id: &str, title: &str) -> JsonValue {
    obj(vec![
        ("videoId", s(id)),
        ("title", runs(&[title])),
        ("ownerText", runs(&["Owner"])),
        ("lengthText", simple("4:13")),
        ("viewCountText", simple("1,000 views")),
        ("publishedTimeText", simple("2 days ago")),
    ])
}

fn search_response(items: Vec<JsonValue>) -> JsonValue {
    let section = obj(vec![("itemSectionRenderer", obj(vec![("contents", arr(items))]))]);
    obj(vec![(
        "contents",
        obj(vec![(
            "twoColumnSearchResultsRenderer",
            obj(vec![(
                "primaryContents",
                obj(vec![("sectionListRenderer", obj(vec![("contents", arr(vec![section]))]))]),
            )]),
        )]),
    )])
}

fn grid_item(id: &str) -> JsonValue {
    obj(vec![(
        "richItemRenderer",
        obj(vec![("content", obj(vec![("videoRenderer", renderer(id, "Grid video"))]))]),
    )])
}

fn continuation_item(token: &str) -> JsonValue {
    obj(vec![(
        "continuationItemRenderer",
        obj(vec![(
            "continuationEndpoint",
            obj(vec![("continuationCommand", obj(vec![("token", s(token))]))]),
        )]),
    )])
}

fn browse_response(items: Vec<JsonValue>) -> JsonValue {
    let videos_tab = obj(vec![(
        "tabRenderer",
        obj(vec![("content", obj(vec![("richGridRenderer", obj(vec![("contents", arr(items))]))]))]),
    )]);
    let home_tab = obj(vec![("tabRenderer", obj(vec![("title", s("Home"))]))]);
    obj(vec![(
        "contents",
        obj(vec![("twoColumnBrowseResultsRenderer", obj(vec![("tabs", arr(vec![home_tab, videos_tab]))]))]),
    )])
}

fn continuation_response(kind: &str, items: Vec<JsonValue>) -> JsonValue {
    obj(vec![(
        "onResponseReceivedActions",
        arr(vec![obj(vec![(kind, obj(vec![("continuationItems", arr(items))]))])]),
    )])
}

fn ids(videos: &[VideoSummary]) -> Vec<String> {
    videos.iter().map(|v| v.video_id.clone()).collect()
}

fn track(code: &str, name: &str, auto: bool) -> CaptionTrack {
    CaptionTrack {
        base_url: format!("https://example.test/{}", code),
        language_code: code.to_string(),
        language_name: name.to_string(),
        is_auto_generated: auto,
    }
}

#[test]
fn search_response_is_read() {
    let ad = obj(vec![("adSlotRenderer", obj(vec![]))]);
    let no_id = obj(vec![("videoRenderer", obj(vec![("title", runs(&["x"]))]))]);
    let response = search_response(vec![
        obj(vec![("videoRenderer", renderer("aaaaaaaaaaa", "First"))]),
        ad,
        no_id,
        obj(vec![("videoRenderer", renderer("bbbbbbbbbbb", "Second"))]),
        obj(vec![("videoRenderer", renderer("ccccccccccc", "Third"))]),
    ]);
    let videos = parse_search_response(&response, 2).unwrap();
    assert_eq!(ids(&videos), vec!["aaaaaaaaaaa", "bbbbbbbbbbb"]);
    assert_eq!(videos[0].title, "First");
    assert_eq!(videos[0].channel, "Owner");
    assert_eq!(videos[0].duration.as_deref(), Some("4:13"));
    assert_eq!(videos[0].views.as_deref(), Some("1,000 views"));
    assert_eq!(videos[0].published.as_deref(), Some("2 days ago"));
    assert_eq!(videos[0].description, None);
    let all = parse_search_response(&response, 50).unwrap();
    assert_eq!(all.len(), 3);
    let result = search_result("rust", &response, 10).unwrap();
    assert_eq!(result.query, "rust");
    assert_eq!(result.videos.len(), 3);
}

#[test]
fn search_response_without_structure() {
    let err = parse_search_response(&obj(vec![("contents", obj(vec![]))]), 5).unwrap_err();
    assert!(matches!(err, YoutubeError::ParseError(ref m) if m == "Missing search results structure"));
}

#[test]
fn renderer_defaults_and_channel_override() {
    let bare = obj(vec![("videoId", s("zzzzzzzzzzz"))]);
    let v = parse_video_renderer(&bare, None).unwrap();
    assert_eq!(v.title, "Unknown");
    assert_eq!(v.channel, "Unknown");
    assert_eq!(v.duration, None);
    let named = parse_video_renderer(&renderer("yyyyyyyyyyy", "T"), Some("Known")).unwrap();
    assert_eq!(named.channel, "Known");
    assert!(parse_video_renderer(&obj(vec![("videoId", s(""))]), None).is_none());
}

#[test]
fn descriptions_prefer_metadata_snippets() {
    let with_snippet = obj(vec![
        (
            "detailedMetadataSnippets",
            arr(vec![obj(vec![("snippetText", runs(&["Learn ", "Rust", " fast"]))])]),
        ),
        ("descriptionSnippet", runs(&["other"])),
    ]);
    assert_eq!(extract_description(&with_snippet).as_deref(), Some("Learn Rust fast"));
    let fallback = obj(vec![
        ("detailedMetadataSnippets", arr(vec![obj(vec![("snippetText", runs(&[""]))])])),
        ("descriptionSnippet", runs(&["from ", "snippet"])),
    ]);
    assert_eq!(extract_description(&fallback).as_deref(), Some("from snippet"));
    assert_eq!(extract_description(&obj(vec![])), None);
}

#[test]
fn channel_info_from_headers() {
    let tabbed = obj(vec![(
        "header",
        obj(vec![(
            "c4TabbedHeaderRenderer",
            obj(vec![
                ("title", s("Rustaceans")),
                ("channelHandleText", runs(&["@rust"])),
                ("subscriberCountText", simple("1.2M subscribers")),
                ("videosCountText", runs(&["345"])),
            ]),
        )]),
    )]);
    let info = extract_channel_info(&tabbed, "UCabc");
    assert_eq!(info.channel_id, "UCabc");
    assert_eq!(info.name, "Rustaceans");
    assert_eq!(info.handle.as_deref(), Some("@rust"));
    assert_eq!(info.subscriber_count.as_deref(), Some("1.2M subscribers"));
    assert_eq!(info.video_count.as_deref(), Some("345"));

    let page = obj(vec![("header", obj(vec![("pageHeaderRenderer", obj(vec![("pageTitle", s("Paged"))]))]))]);
    let info = extract_channel_info(&page, "UCdef");
    assert_eq!(info.name, "Paged");
    assert_eq!(info.handle, None);

    let meta = obj(vec![(
        "metadata",
        obj(vec![("channelMetadataRenderer", obj(vec![("title", s("Meta"))]))]),
    )]);
    assert_eq!(extract_channel_info(&meta, "UC").name, "Meta");
    assert_eq!(extract_channel_info(&obj(vec![]), "UC").name, "Unknown");
}

#[test]
fn browse_initial_page() {
    let response = browse_response(vec![grid_item("v1"), grid_item("v2"), continuation_item("NEXT")]);
    let (videos, token) = parse_browse_initial(&response, "Chan").unwrap();
    assert_eq!(ids(&videos), vec!["v1", "v2"]);
    assert_eq!(videos[0].channel, "Chan");
    assert_eq!(token.as_deref(), Some("NEXT"));
    let (first, _) = parse_first_page(ChannelSort::Newest, &response, "Chan").unwrap();
    assert_eq!(first.len(), 2);
}

#[test]
fn browse_initial_errors() {
    let err = parse_browse_initial(&obj(vec![]), "c").unwrap_err();
    assert!(matches!(err, YoutubeError::ParseError(ref m) if m == "Missing tabs in browse response"));
    let no_grid = obj(vec![(
        "contents",
        obj(vec![("twoColumnBrowseResultsRenderer", obj(vec![("tabs", arr(vec![obj(vec![])]))]))]),
    )]);
    let err = parse_browse_initial(&no_grid, "c").unwrap_err();
    assert!(matches!(err, YoutubeError::ParseError(ref m) if m == "No video grid found in browse response"));
}

#[test]
fn browse_continuations() {
    let append = continuation_response(
        "appendContinuationItemsAction",
        vec![grid_item("p1"), continuation_item("T2")],
    );
    let (videos, token) = parse_browse_continuation(&append, "C");
    assert_eq!(ids(&videos), vec!["p1"]);
    assert_eq!(token.as_deref(), Some("T2"));
    let reload = continuation_response("reloadContinuationItemsCommand", vec![grid_item("r1")]);
    let (videos, token) = parse_browse_continuation(&reload, "C");
    assert_eq!(ids(&videos), vec!["r1"]);
    assert_eq!(token, None);
    let (videos, token) = parse_browse_continuation(&obj(vec![]), "C");
    assert!(videos.is_empty());
    assert_eq!(token, None);
    let (sorted, _) = parse_first_page(ChannelSort::Popular, &reload, "C").unwrap();
    assert_eq!(ids(&sorted), vec!["r1"]);
}

fn info(name: &str) -> ChannelInfo {
    ChannelInfo {
        channel_id: "UCx".to_string(),
        name: name.to_string(),
        handle: None,
        subscriber_count: None,
        video_count: None,
    }
}

fn summaries(prefix: &str, n: usize) -> Vec<VideoSummary> {
    (0..n)
        .map(|i| VideoSummary {
            video_id: format!("{}{}", prefix, i),
            title: String::new(),
            channel: String::new(),
            duration: None,
            views: None,
            published: None,
            description: None,
        })
        .collect()
}

#[test]
fn listing_pages_until_limit() {
    let mut listing = ChannelListing::new(info("C"), (summaries("a", 2), Some("t1".to_string())), 3);
    assert_eq!(listing.next_token().as_deref(), Some("t1"));
    listing.add_page((summaries("b", 2), Some("t2".to_string())));
    assert_eq!(listing.next_token(), None);
    let result = listing.finish();
    assert_eq!(ids(&result.videos), vec!["a0", "a1", "b0"]);
    assert_eq!(result.query, None);
    assert_eq!(result.channel.name, "C");
}

#[test]
fn listing_stops_on_empty_page_or_missing_token() {
    let mut listing = ChannelListing::new(info("C"), (summaries("a", 1), Some("t1".to_string())), 10);
    assert_eq!(listing.next_token().as_deref(), Some("t1"));
    listing.add_page((Vec::new(), Some("t2".to_string())));
    assert_eq!(listing.next_token(), None);
    assert_eq!(listing.finish().videos.len(), 1);

    let mut listing = ChannelListing::new(info("C"), (summaries("a", 1), None), 10);
    assert_eq!(listing.next_token(), None);
    assert!(listing.exhausted);
}

#[test]
fn channel_search_page() {
    let section = obj(vec![(
        "itemSectionRenderer",
        obj(vec![(
            "contents",
            arr(vec![
                obj(vec![("videoRenderer", renderer("s1", "One"))]),
                obj(vec![("shelfRenderer", obj(vec![]))]),
                obj(vec![("videoRenderer", renderer("s2", "Two"))]),
                obj(vec![("videoRenderer", renderer("s3", "Three"))]),
            ]),
        )]),
    )]);
    let tab = obj(vec![(
        "expandableTabRenderer",
        obj(vec![("content", obj(vec![("sectionListRenderer", obj(vec![("contents", arr(vec![section]))]))]))]),
    )]);
    let data = obj(vec![(
        "contents",
        obj(vec![("twoColumnBrowseResultsRenderer", obj(vec![("tabs", arr(vec![tab]))]))]),
    )]);
    let result = parse_channel_search_page(Some(&data), "UCq", "Given", "rust", 2).unwrap();
    assert_eq!(ids(&result.videos), vec!["s1", "s2"]);
    assert_eq!(result.channel.name, "Given");
    assert_eq!(result.channel.channel_id, "UCq");
    assert_eq!(result.videos[0].channel, "Given");
    assert_eq!(result.query.as_deref(), Some("rust"));
    let err = parse_channel_search_page(None, "UCq", "Given", "rust", 2).unwrap_err();
    assert!(matches!(err, YoutubeError::ParseError(ref m) if m == "Could not extract search results from channel page"));
}

#[test]
fn initial_data_is_found_in_html() {
    let html = "<script>var ytInitialData = {\"a\":1};</script><p>";
    assert_eq!(extract_initial_data(html).as_deref(), Some("{\"a\":1}"));
    assert_eq!(extract_initial_data("<html></html>"), None);
}

#[test]
fn channel_page_is_read() {
    let html = r#"{"browseId":"UCabcdefghijklmnopqrstuv","title":"Some Channel"}"#;
    let (id, name) = parse_channel_page(html, "@some").unwrap();
    assert_eq!(id, "UCabcdefghijklmnopqrstuv");
    assert_eq!(name, "Some Channel");
    let meta = r#"<meta itemprop="channelId" content="UC0123456789012345678901">"#;
    let (id, name) = parse_channel_page(meta, "@other").unwrap();
    assert_eq!(id, "UC0123456789012345678901");
    assert_eq!(name, "@other");
    let err = parse_channel_page("<html>", "@nobody").unwrap_err();
    assert!(matches!(err, YoutubeError::ChannelNotFound(ref m) if m == "Could not find channel ID for @nobody"));
}

#[test]
fn handle_pages_and_missing_channels() {
    assert_eq!(handle_page_url("@rust"), "https://www.youtube.com/@rust");
    assert_eq!(handle_page_url("rust"), "https://www.youtube.com/@rust");
    let e = handle_fetch_error(YoutubeError::Api("YouTube returned status 404 Not Found".to_string()), "@gone");
    assert!(matches!(e, YoutubeError::ChannelNotFound(ref m) if m == "Channel @gone not found"));
    let e = handle_fetch_error(YoutubeError::Api("YouTube returned status 403 Forbidden".to_string()), "@x");
    assert!(matches!(e, YoutubeError::Api(ref m) if m == "YouTube returned status 403 Forbidden"));
    let e = handle_fetch_error(YoutubeError::RateLimited, "@x");
    assert!(matches!(e, YoutubeError::RateLimited));
}

#[test]
fn watch_page_key() {
    let html = r#"ytcfg.set({"INNERTUBE_API_KEY": "AIzaKey_123-x"});"#;
    assert_eq!(extract_innertube_api_key(html, "vid").unwrap(), "AIzaKey_123-x");
    let blocked = extract_innertube_api_key("<div class=\"g-recaptcha\"></div>", "vid").unwrap_err();
    assert!(matches!(blocked, YoutubeError::Api(ref m) if m == "IP blocked by YouTube (reCAPTCHA). Try again later."));
    let missing = extract_innertube_api_key("<html>", "vid").unwrap_err();
    assert!(matches!(missing, YoutubeError::ParseError(ref m) if m == "Could not extract INNERTUBE_API_KEY for video vid"));
    let gone = read_watch_page("x\"playabilityStatus\":{\"status\":\"ERROR\"y", "vid").unwrap_err();
    assert!(matches!(gone, YoutubeError::VideoUnavailable(ref m) if m == "vid"));
    assert_eq!(read_watch_page(html, "vid").unwrap(), "AIzaKey_123-x");
}

fn playability(status: &str, reason: Option<&str>) -> JsonValue {
    let mut members = vec![("status", s(status))];
    if let Some(r) = reason {
        members.push(("reason", s(r)));
    }
    obj(vec![("playabilityStatus", obj(members))])
}

#[test]
fn player_refusals() {
    let e = parse_player_response("vid", &playability("ERROR", Some("Video unavailable"))).unwrap_err();
    assert!(matches!(e, YoutubeError::VideoUnavailable(ref m) if m == "vid: Video unavailable"));
    let e = parse_player_response("vid", &playability("ERROR", None)).unwrap_err();
    assert!(matches!(e, YoutubeError::VideoUnavailable(ref m) if m == "vid: Unknown error"));
    let e = parse_player_response("vid", &playability("LOGIN_REQUIRED", Some("Sign in to confirm you're not a bot"))).unwrap_err();
    assert!(matches!(e, YoutubeError::Api(ref m) if m == "Request blocked by YouTube (bot detection). Try again later."));
    let e = parse_player_response("vid", &playability("LOGIN_REQUIRED", Some("Private video"))).unwrap_err();
    assert!(matches!(e, YoutubeError::Api(ref m) if m == "Video requires login: Private video"));
    let e = parse_player_response("vid", &playability("LOGIN_REQUIRED", None)).unwrap_err();
    assert!(matches!(e, YoutubeError::Api(ref m) if m == "Video requires login: Login required"));
}

fn player_response() -> JsonValue {
    let manual = obj(vec![
        ("baseUrl", s("https://t.test/a?x=1&fmt=srv3")),
        ("languageCode", s("de")),
        ("name", runs(&["German"])),
    ]);
    let auto = obj(vec![
        ("baseUrl", s("https://t.test/b")),
        ("languageCode", s("en")),
        ("name", simple("English (auto-generated)")),
        ("kind", s("asr")),
    ]);
    let no_url = obj(vec![("languageCode", s("fr"))]);
    let unnamed = obj(vec![("baseUrl", s("https://t.test/c")), ("languageCode", s("es"))]);
    obj(vec![
        ("playabilityStatus", obj(vec![("status", s("OK"))])),
        (
            "videoDetails",
            obj(vec![
                ("title", s("A Talk")),
                ("author", s("Speaker")),
                ("channelId", s("UCspeaker")),
                ("viewCount", s("2368790")),
                ("lengthSeconds", s("3725")),
                ("shortDescription", s("About things")),
                ("keywords", arr(vec![s("rust"), JsonValue::Number("1".to_string()), s("talk")])),
                ("isLiveContent", JsonValue::Bool(true)),
            ]),
        ),
        (
            "captions",
            obj(vec![(
                "playerCaptionsTracklistRenderer",
                obj(vec![("captionTracks", arr(vec![manual, auto, no_url, unnamed]))]),
            )]),
        ),
    ])
}

#[test]
fn player_data_is_read() {
    let player = parse_player_response("vid", &player_response()).unwrap();
    assert_eq!(player.video_id, "vid");
    assert_eq!(player.title, "A Talk");
    assert_eq!(player.channel, "Speaker");
    assert_eq!(player.channel_id, "UCspeaker");
    assert_eq!(player.view_count.as_deref(), Some("2368790"));
    assert_eq!(player.length_seconds, Some(3725));
    assert_eq!(player.description.as_deref(), Some("About things"));
    assert_eq!(player.keywords, vec!["rust", "talk"]);
    assert!(player.is_live);
    assert_eq!(player.caption_tracks.len(), 3);
    assert_eq!(player.caption_tracks[0].base_url, "https://t.test/a?x=1");
    assert_eq!(player.caption_tracks[0].language_name, "German");
    assert!(!player.caption_tracks[0].is_auto_generated);
    assert_eq!(player.caption_tracks[1].language_name, "English");
    assert!(player.caption_tracks[1].is_auto_generated);
    assert_eq!(player.caption_tracks[2].language_name, "es");

    let detail = video_detail_from_player(player);
    assert_eq!(detail.caption_languages.len(), 3);
    assert_eq!(detail.caption_languages[1].language_code, "en");
    assert!(detail.caption_languages[1].is_auto_generated);
    assert_eq!(detail.length_seconds, Some(3725));
}

#[test]
fn player_defaults() {
    let bare = obj(vec![(
        "videoDetails",
        obj(vec![("lengthSeconds", s("12x"))]),
    )]);
    let player = parse_player_response("vid", &bare).unwrap();
    assert_eq!(player.title, "Unknown");
    assert_eq!(player.channel, "Unknown");
    assert_eq!(player.channel_id, "");
    assert_eq!(player.length_seconds, None);
    assert!(player.keywords.is_empty());
    assert!(!player.is_live);
    assert!(player.caption_tracks.is_empty());
}

#[test]
fn caption_track_priorities() {
    let tracks = vec![
        track("en", "English", true),
        track("en", "English", false),
        track("en-US", "English (US)", false),
        track("pt-BR", "Portuguese", false),
    ];
    let t = find_caption_track(&tracks, "en", "vid").unwrap();
    assert!(!t.is_auto_generated);
    assert_eq!(t.language_code, "en");
    let auto_only = vec![track("de", "German", false), track("en", "English", true)];
    let t = find_caption_track(&auto_only, "en", "vid").unwrap();
    assert!(t.is_auto_generated);
    let t = find_caption_track(&tracks, "en-GB", "vid").unwrap();
    assert_eq!(t.language_code, "en");
    let t = find_caption_track(&tracks, "pt", "vid").unwrap();
    assert_eq!(t.language_code, "pt-BR");
}

#[test]
fn caption_track_missing_language() {
    let tracks = vec![track("de", "German", false), track("en", "English", true)];
    let e = find_caption_track(&tracks, "ja", "vid").unwrap_err();
    match e {
        YoutubeError::LanguageNotAvailable(v, m) => {
            assert_eq!(v, "vid");
            assert_eq!(
                m,
                "language 'ja' not found. Available: de (German), en (English, auto-generated)"
            );
        }
        other => panic!("unexpected error {:?}", other),
    }
}

#[test]
fn transcript_pieces() {
    let player = parse_player_response("vid", &player_response()).unwrap();
    let t = select_caption_track(&player, "de", "vid").unwrap();
    assert_eq!(t.language_code, "de");
    let entries = vec![TranscriptEntry { text: "hi".to_string(), start_secs: 1 }];
    let result = transcript_result(&player, t, entries);
    assert_eq!(result.video_id, "vid");
    assert_eq!(result.title, "A Talk");
    assert_eq!(result.language, "German");
    assert_eq!(result.language_code, "de");
    assert!(!result.is_auto_generated);
    assert_eq!(result.entries.len(), 1);

    let bare = parse_player_response("vid", &obj(vec![])).unwrap();
    let e = select_caption_track(&bare, "en", "vid").unwrap_err();
    assert!(matches!(e, YoutubeError::NoTranscript(ref m) if m == "vid"));
    assert!(matches!(require_transcript_xml("", "vid"), Err(YoutubeError::NoTranscript(ref m)) if m == "vid"));
    assert!(require_transcript_xml("<transcript/>", "vid").is_ok());
}

#[test]
fn html_entities() {
    assert_eq!(decode_html_entities("a &amp; b"), "a & b");
    assert_eq!(decode_html_entities("&lt;b&gt; &quot;q&quot; it&#39;s &apos;"), "<b> \"q\" it's '");
    assert_eq!(decode_html_entities("&amp;lt;"), "<");
    assert_eq!(decode_html_entities("plain text"), "plain text");
}

fn some(t: &str) -> Option<String> {
    Some(t.to_string())
}

#[test]
fn channel_from_given_captures() {
    let (id, name) = channel_from_captures(some("UCid"), some("UCmeta"), some("Title"), "@h").unwrap();
    assert_eq!((id.as_str(), name.as_str()), ("UCid", "Title"));
    let (id, name) = channel_from_captures(None, some("UCmeta"), None, "@h").unwrap();
    assert_eq!((id.as_str(), name.as_str()), ("UCmeta", "@h"));
    let e = channel_from_captures(None, None, some("Title"), "@@h").unwrap_err();
    assert!(matches!(e, YoutubeError::ChannelNotFound(ref m) if m == "Could not find channel ID for @h"));
}

#[test]
fn api_key_from_given_capture() {
    assert_eq!(api_key_from_capture(some("K1"), "<html>", "vid").unwrap(), "K1");
    let e = api_key_from_capture(None, "<p class=\"g-recaptcha\">", "vid").unwrap_err();
    assert!(matches!(e, YoutubeError::Api(ref m) if m == "IP blocked by YouTube (reCAPTCHA). Try again later."));
    let e = api_key_from_capture(None, "<html>", "vid").unwrap_err();
    assert!(matches!(e, YoutubeError::ParseError(ref m) if m == "Could not extract INNERTUBE_API_KEY for video vid"));
}
