use youtube_cli::api::protobuf::{
    build_channel_videos_ctoken, pb_field_bytes, pb_field_message, pb_field_string,
    pb_field_varint, pb_varint,
};
use youtube_cli::api::search::build_search_params;
use youtube_cli::api::{rate_limit_step, RetryAction, RetryState};
use youtube_cli::cache::{is_expired, Cache};
use youtube_cli::cli::{ChannelSort, DurationFilter, SortOrder};
use youtube_cli::commands::{channel_cache_key_for, search_cache_key_for};
use youtube_cli::config::{cache_dir_in, AppConfig};
use youtube_cli::error::YoutubeError;

#[test]
fn varints() {
    assert_eq!(pb_varint(0), vec![0x00]);
    assert_eq!(pb_varint(1), vec![0x01]);
    assert_eq!(pb_varint(127), vec![0x7f]);
    assert_eq!(pb_varint(300), vec![0xac, 0x02]);
    assert_eq!(
        pb_varint(u64::MAX),
        vec![0xff, 0xff, 0xff, 0xff, 0xff, 0xff, 0xff, 0xff, 0xff, 0x01]
    );
}

#[test]
fn protobuf_fields() {
    assert_eq!(pb_field_varint(3, 5), vec![0x18, 0x05]);
    assert_eq!(pb_field_string(1, "ab"), vec![0x0a, 0x02, b'a', b'b']);
    assert_eq!(pb_field_bytes(2, &[7, 8]), vec![0x12, 0x02, 7, 8]);
    assert_eq!(pb_field_message(15, &[1]), vec![0x7a, 0x01, 1]);
}

#[test]
fn continuation_tokens() {
    assert_eq!(
        build_channel_videos_ctoken("UC2D2CMWXMOVWx7giW1n3LIg", ChannelSort::Popular),
        "4qmFsgKYARIYVUMyRDJDTVdYTU9WV3g3Z2lXMW4zTElnGnw4Z1pZR2xaNlZCSW1DaVF3TURBd01EQXdNQzB3TURBd0xUQXdNREF0TURBd01DMHdNREF3TURBd01EQXdNREFnQWtJb0NpUXdNREF3TURBd01DMHdNREF3TFRBd01EQXRNREF3TUMwd01EQXdNREF3TURBd01EQVlBZz09"
    );
    assert_eq!(
        build_channel_videos_ctoken("UC2D2CMWXMOVWx7giW1n3LIg", ChannelSort::Oldest),
        "4qmFsgKYARIYVUMyRDJDTVdYTU9WV3g3Z2lXMW4zTElnGnw4Z1pZR2xaNlZCSW1DaVF3TURBd01EQXdNQzB3TURBd0xUQXdNREF0TURBd01DMHdNREF3TURBd01EQXdNREFnQlVJb0NpUXdNREF3TURBd01DMHdNREF3TFRBd01EQXRNREF3TUMwd01EQXdNREF3TURBd01EQVlCUT09"
    );
}

#[test]
fn search_params() {
    assert_eq!(build_search_params(SortOrder::Relevance, None), None);
    assert_eq!(build_search_params(SortOrder::Date, None).unwrap(), "CAISAhAB");
    assert_eq!(build_search_params(SortOrder::Views, None).unwrap(), "CAMSAhAB");
    assert_eq!(build_search_params(SortOrder::Rating, None).unwrap(), "CAESAhAB");
    assert_eq!(build_search_params(SortOrder::Relevance, Some(DurationFilter::Short)).unwrap(), "EgIYAQ%3D%3D");
    assert_eq!(build_search_params(SortOrder::Relevance, Some(DurationFilter::Medium)).unwrap(), "EgIYAw%3D%3D");
    assert_eq!(build_search_params(SortOrder::Relevance, Some(DurationFilter::Long)).unwrap(), "EgIYAg%3D%3D");
    assert_eq!(build_search_params(SortOrder::Views, Some(DurationFilter::Long)).unwrap(), "CAMSAhAB");
}

#[test]
fn rate_limit_retries() {
    let mut st = RetryState::new();
    for _ in 0..3 {
        assert!(matches!(st.on_status(429, "429 Too Many Requests"), RetryAction::RetryAfter(2)));
    }
    assert!(matches!(st.on_status(429, "429 Too Many Requests"), RetryAction::Fail(YoutubeError::RateLimited)));
}

#[test]
fn server_error_retried_once() {
    let mut st = RetryState::new();
    assert!(matches!(st.on_status(503, "503 Service Unavailable"), RetryAction::RetryAfter(2)));
    match st.on_status(500, "500 Internal Server Error") {
        RetryAction::Fail(YoutubeError::Api(m)) => {
            assert_eq!(m, "YouTube returned status 500 Internal Server Error")
        }
        _ => panic!("expected failure"),
    }
    assert!(matches!(st.on_status(200, "200 OK"), RetryAction::Success));
}

#[test]
fn client_error_fails_at_once() {
    let mut st = RetryState::new();
    match st.on_status(404, "404 Not Found") {
        RetryAction::Fail(YoutubeError::Api(m)) => assert_eq!(m, "YouTube returned status 404 Not Found"),
        _ => panic!("expected failure"),
    }
}

#[test]
fn request_spacing() {
    assert_eq!(rate_limit_step(None, 5), (5, None));
    assert_eq!(rate_limit_step(Some(0), 300_000_000), (1_000_000_000, Some(700_000_000)));
    assert_eq!(rate_limit_step(Some(0), 2_000_000_000), (2_000_000_000, None));
    assert_eq!(rate_limit_step(Some(10), 5), (1_000_000_010, Some(1_000_000_005)));
}

#[test]
fn overlapping_calls_stay_one_second_apart() {
    // A request went out at 0 s; calls at 0.1 s and 0.2 s book 1 s and 2 s.
    let (slot1, wait1) = rate_limit_step(Some(0), 100_000_000);
    assert_eq!((slot1, wait1), (1_000_000_000, Some(900_000_000)));
    let (slot2, wait2) = rate_limit_step(Some(slot1), 200_000_000);
    assert_eq!((slot2, wait2), (2_000_000_000, Some(1_800_000_000)));
    assert_eq!(200_000_000 + wait2.unwrap(), slot2);
    assert_eq!(rate_limit_step(Some(u64::MAX - 5), 7), (u64::MAX, Some(u64::MAX - 7)));
}

#[test]
fn cache_keys() {
    assert_eq!(Cache::search_cache_key("rust", "Relevance", ""), "35d7e5be8a54e94a");
    assert_eq!(search_cache_key_for("rust", SortOrder::Relevance, None), "35d7e5be8a54e94a");
    assert_eq!(
        channel_cache_key_for("UC2D2CMWXMOVWx7giW1n3LIg", ChannelSort::Newest, None),
        "ad2815e1bf80f70f"
    );
    assert_eq!(channel_cache_key_for("UCx", ChannelSort::Oldest, Some("sleep")), "e8cf75a6fd2de852");
}

#[test]
fn cache_files_and_bypass() {
    let dir = std::path::PathBuf::from("/tmp/c");
    let cache = Cache::new(dir.clone(), false);
    let slot = cache.get_search("k").unwrap();
    assert_eq!(slot.file_name, "search_k.json");
    assert_eq!(slot.ttl_secs, 7 * 24 * 60 * 60);
    assert_eq!(cache.get_transcript("vid", "en").unwrap().file_name, "transcript_vid_en.json");
    assert_eq!(cache.get_transcript("vid", "en").unwrap().ttl_secs, 30 * 24 * 60 * 60);
    assert_eq!(cache.get_video("vid").unwrap().file_name, "video_vid.json");
    assert_eq!(cache.get_channel("k").unwrap().ttl_secs, 24 * 60 * 60);
    assert_eq!(cache.get_channel_id("@MKBHD").unwrap().file_name, "channel_id_mkbhd.json");
    assert_eq!(cache.set_channel_id("MKBHD"), "channel_id_mkbhd.json");
    assert_eq!(cache.dir(), &dir);
    let bypass = Cache::new(dir, true);
    assert!(bypass.get_search("k").is_none());
    assert!(bypass.get_video("v").is_none());
    assert_eq!(bypass.set_search("k"), "search_k.json");
}

#[test]
fn expiry() {
    assert!(!is_expired(10, 0, 10));
    assert!(is_expired(10, 1, 10));
    assert!(is_expired(11, 0, 10));
    assert!(!is_expired(9, 999_999_999, 10));
}

#[test]
fn error_messages() {
    assert_eq!(YoutubeError::RateLimited.message(), "Rate limited by YouTube (429). Retries exhausted.");
    assert_eq!(
        YoutubeError::LanguageNotAvailable("v".to_string(), "m".to_string()).message(),
        "Transcript language not available for video v: m"
    );
    assert_eq!(YoutubeError::NoTranscript("v".to_string()).message(), "No transcripts available for video v");
}

#[test]
fn config_flags_and_cache_dir() {
    let c = AppConfig::load(true, false);
    assert!(c.no_cache);
    assert!(!c.json_output);
    assert!(c.cache_dir.ends_with("youtube-cli"));
    let c = AppConfig::load(false, true);
    assert!(!c.no_cache);
    assert!(c.json_output);
}

#[test]
fn cache_dir_inside_platform_dir_or_dot_cache() {
    let d = cache_dir_in(Some(std::path::PathBuf::from("/home/u/.cache")));
    assert_eq!(d, std::path::PathBuf::from("/home/u/.cache/youtube-cli"));
    assert_eq!(cache_dir_in(None), std::path::PathBuf::from(".cache/youtube-cli"));
}

#[test]
fn handle_spellings_share_one_cache_file() {
    let cache = Cache::new(std::path::PathBuf::from("/tmp/c"), false);
    let file = cache.set_channel_id("@HubermanLab");
    assert_eq!(file, "channel_id_hubermanlab.json");
    assert_eq!(cache.get_channel_id("hubermanlab").unwrap().file_name, file);
    assert_eq!(cache.get_channel_id("@HUBERMANLAB").unwrap().file_name, file);
}
