use youtube_cli::model::{
    CaptionLanguage, ChannelInfo, ChannelVideosResult, SearchResult, TranscriptEntry,
    TranscriptResult, VideoDetail, VideoSummary,
};
use youtube_cli::output::{
    description_cuts_cleanly, format_cached_at, format_channel_videos, format_duration,
    format_number, format_search_results, format_transcript, format_video_detail,
};

fn video(id: &str, title: &str, channel: &str) -> VideoSummary {
    VideoSummary {
        video_id: id.to_string(),
        title: title.to_string(),
        channel: channel.to_string(),
        duration: None,
        views: None,
        published: None,
        description: None,
    }
}

#[test]
fn duration_under_an_hour() {
    assert_eq!(format_duration(0), "0:00");
    assert_eq!(format_duration(59), "0:59");
    assert_eq!(format_duration(149), "2:29");
    assert_eq!(format_duration(600), "10:00");
}

#[test]
fn duration_with_hours() {
    assert_eq!(format_duration(3600), "1:00:00");
    assert_eq!(format_duration(3725), "1:02:05");
    assert_eq!(format_duration(11104), "3:05:04");
    assert_eq!(format_duration(50350), "13:59:10");
}

#[test]
fn number_grouping() {
    assert_eq!(format_number("2368790"), "2,368,790");
    assert_eq!(format_number("123"), "123");
    assert_eq!(format_number("1234"), "1,234");
    assert_eq!(format_number("115266"), "115,266");
    assert_eq!(format_number("12a34"), "1,234");
}

#[test]
fn number_without_digits_unchanged() {
    assert_eq!(format_number("abc"), "abc");
    assert_eq!(format_number(""), "");
}

#[test]
fn dates_from_epoch_seconds() {
    assert_eq!(format_cached_at(0), "1970-01-01");
    assert_eq!(format_cached_at(951782400), "2000-02-29");
    assert_eq!(format_cached_at(1709164800), "2024-02-29");
    assert_eq!(format_cached_at(1735689599), "2024-12-31");
    assert_eq!(format_cached_at(1725029869), "2024-08-30");
    assert_eq!(format_cached_at(4102444800), "2100-01-01");
}

#[test]
fn search_results_markdown() {
    let mut v1 = video("5C_HPTJg5ek", "Rust in 100 Seconds", "Fireship");
    v1.duration = Some("2:29".to_string());
    v1.views = Some("2,368,790 views".to_string());
    v1.published = Some("4 years ago".to_string());
    let mut v2 = video("abc", "Second", "Chan");
    v2.description = Some("A short description".to_string());
    let result = SearchResult { query: "rust".to_string(), videos: vec![v1, v2] };
    let expected = "## YouTube: \"rust\" (showing 2)\n\n\
1. **Rust in 100 Seconds**\n   Fireship — 2:29 — 2,368,790 views — 4 years ago \n   https://youtube.com/watch?v=5C_HPTJg5ek\n\n\
2. **Second**\n   Chan \n   https://youtube.com/watch?v=abc\n   A short description\n\n";
    assert_eq!(format_search_results(&result), expected);
}

#[test]
fn long_description_is_cut() {
    let long = "x".repeat(200);
    let mut v = video("id", "T", "C");
    v.description = Some(long);
    let result = SearchResult { query: "q".to_string(), videos: vec![v] };
    let out = format_search_results(&result);
    let expected_desc = format!("   {}...\n", "x".repeat(150));
    assert!(out.contains(&expected_desc));
}

#[test]
fn description_boundary_check() {
    assert!(description_cuts_cleanly(&"a".repeat(200)));
    assert!(description_cuts_cleanly("short"));
    let tricky = format!("{}é{}", "a".repeat(149), "b".repeat(10));
    assert!(!description_cuts_cleanly(&tricky));
}

#[test]
fn video_detail_markdown() {
    let detail = VideoDetail {
        video_id: "5C_HPTJg5ek".to_string(),
        title: "Rust in 100 Seconds".to_string(),
        channel: "Fireship".to_string(),
        channel_id: "UCsBjURrPoezykLs9EqgamOA".to_string(),
        view_count: Some("2368794".to_string()),
        length_seconds: Some(149),
        description: Some("Rust is a memory-safe language".to_string()),
        keywords: vec!["rust".to_string(), "programming".to_string()],
        is_live: false,
        caption_languages: vec![CaptionLanguage {
            language_code: "en".to_string(),
            language_name: "English".to_string(),
            is_auto_generated: true,
        }],
    };
    let expected = "# Rust in 100 Seconds\n\n## Overview\n\n- **Channel**: Fireship\n- **Views**: 2,368,794\n- **Duration**: 2:29\n- **URL**: https://youtube.com/watch?v=5C_HPTJg5ek\n\n## Available Captions\n\n- English (en) [auto-generated]\n\n## Description\n\nRust is a memory-safe language\n\n## Keywords\n\nrust, programming\n";
    assert_eq!(format_video_detail(&detail), expected);
}

#[test]
fn video_detail_without_captions() {
    let detail = VideoDetail {
        video_id: "v".to_string(),
        title: "T".to_string(),
        channel: "C".to_string(),
        channel_id: String::new(),
        view_count: None,
        length_seconds: None,
        description: Some(String::new()),
        keywords: vec![],
        is_live: true,
        caption_languages: vec![],
    };
    let expected = "# T\n\n## Overview\n\n- **Channel**: C\n- **Live**: Yes\n- **URL**: https://youtube.com/watch?v=v\n\n*No captions available*\n";
    assert_eq!(format_video_detail(&detail), expected);
}

fn transcript(entries: Vec<(&str, u64)>) -> TranscriptResult {
    TranscriptResult {
        video_id: "bKCcvfIHfZA".to_string(),
        title: "Episode".to_string(),
        channel: "BetterHealthGuy".to_string(),
        language: "English".to_string(),
        language_code: "en".to_string(),
        is_auto_generated: true,
        entries: entries
            .into_iter()
            .map(|(t, s)| TranscriptEntry { text: t.to_string(), start_secs: s })
            .collect(),
    }
}

#[test]
fn transcript_with_timestamps() {
    let t = transcript(vec![("[Music]", 0), ("welcome", 1), ("later", 3725)]);
    let expected = "## Transcript: Episode\nChannel: BetterHealthGuy — Language: English (auto-generated)  \nhttps://youtube.com/watch?v=bKCcvfIHfZA\n\n[0:00] [Music]\n[0:01] welcome\n[1:02:05] later\n";
    assert_eq!(format_transcript(&t, true), expected);
}

#[test]
fn transcript_running_text_wraps() {
    let long = "y".repeat(79);
    let t = transcript(vec![("a", 0), (long.as_str(), 1), ("tail", 2)]);
    let out = format_transcript(&t, false);
    let expected = format!(
        "## Transcript: Episode\nChannel: BetterHealthGuy — Language: English (auto-generated)  \nhttps://youtube.com/watch?v=bKCcvfIHfZA\n\na {}\ntail\n",
        long
    );
    assert_eq!(out, expected);
}

#[test]
fn channel_listing_markdown() {
    let mut v = video("hlOA8ObQJXo", "Science-Based Meditation Tools", "Andrew Huberman");
    v.duration = Some("2:43:45".to_string());
    v.views = Some("115,266 views".to_string());
    v.published = Some("2 days ago".to_string());
    let plain = video("x1", "No meta", "Andrew Huberman");
    let result = ChannelVideosResult {
        channel: ChannelInfo {
            channel_id: "UC2D2CMWXMOVWx7giW1n3LIg".to_string(),
            name: "Andrew Huberman".to_string(),
            handle: None,
            subscriber_count: None,
            video_count: None,
        },
        query: None,
        videos: vec![v, plain],
    };
    let expected = "## Channel: Andrew Huberman\nhttps://youtube.com/channel/UC2D2CMWXMOVWx7giW1n3LIg\n\n### Videos (showing 2)\n\n1. **Science-Based Meditation Tools**\n   2:43:45 — 115,266 views — 2 days ago\n   https://youtube.com/watch?v=hlOA8ObQJXo\n\n2. **No meta**\n   https://youtube.com/watch?v=x1\n\n";
    assert_eq!(format_channel_videos(&result), expected);
}

#[test]
fn channel_search_markdown_header() {
    let result = ChannelVideosResult {
        channel: ChannelInfo {
            channel_id: "UCx".to_string(),
            name: "N".to_string(),
            handle: None,
            subscriber_count: None,
            video_count: None,
        },
        query: Some("sleep".to_string()),
        videos: vec![],
    };
    assert_eq!(
        format_channel_videos(&result),
        "## Channel: N\nhttps://youtube.com/channel/UCx\n\n### Search: \"sleep\" (showing 0)\n\n"
    );
}
