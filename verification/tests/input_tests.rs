use youtube_cli::api::channel::{parse_channel_input, urlencoded, ChannelInput};
use youtube_cli::commands::{
    cached_footer, channel_empty_message, fresh_footer, no_search_results_message,
    parse_video_id, validate_channel, validate_search,
};

fn handle(input: &str) -> Option<String> {
    match parse_channel_input(input) {
        ChannelInput::Handle(h) => Some(h),
        ChannelInput::Id(_) => None,
    }
}

fn id(input: &str) -> Option<String> {
    match parse_channel_input(input) {
        ChannelInput::Id(i) => Some(i),
        ChannelInput::Handle(_) => None,
    }
}

#[test]
fn video_id_plain() {
    assert_eq!(parse_video_id("bKCcvfIHfZA").unwrap(), "bKCcvfIHfZA");
    assert_eq!(parse_video_id("  bKCcvfIHfZA \n").unwrap(), "bKCcvfIHfZA");
}

#[test]
fn video_id_from_urls() {
    assert_eq!(parse_video_id("https://www.youtube.com/watch?v=bKCcvfIHfZA").unwrap(), "bKCcvfIHfZA");
    assert_eq!(parse_video_id("https://youtube.com/watch?v=5C_HPTJg5ek&t=30").unwrap(), "5C_HPTJg5ek");
    assert_eq!(parse_video_id("https://youtu.be/bKCcvfIHfZA?t=5").unwrap(), "bKCcvfIHfZA");
    assert_eq!(parse_video_id("https://www.youtube.com/embed/bKCcvfIHfZA").unwrap(), "bKCcvfIHfZA");
}

#[test]
fn video_id_from_share_links() {
    assert_eq!(parse_video_id("https://youtu.be/bKCcvfIHfZA?si=Xy_z9").unwrap(), "bKCcvfIHfZA");
    assert_eq!(parse_video_id("https://www.youtube.com/embed/bKCcvfIHfZA?rel=0").unwrap(), "bKCcvfIHfZA");
}

#[test]
fn video_id_short_link_marker_wins_over_embed() {
    assert_eq!(parse_video_id("https://youtu.be/embed/abcdefghijk").unwrap(), "embed");
}

#[test]
fn video_id_short_fallback() {
    assert_eq!(parse_video_id("short_id").unwrap(), "short_id");
}

#[test]
fn video_id_rejected() {
    assert_eq!(
        parse_video_id(" not a valid id! ").unwrap_err(),
        "Could not parse video ID from: not a valid id!. Provide a YouTube video ID or URL."
    );
    assert!(parse_video_id("").is_err());
    assert!(parse_video_id("abcdefghijklmnopqrstuvwxyz").is_err());
}

#[test]
fn channel_input_forms() {
    assert_eq!(handle("@hubermanlab").unwrap(), "@hubermanlab");
    assert_eq!(id("UCBJycsmduvYEL83R_U4JriQ").unwrap(), "UCBJycsmduvYEL83R_U4JriQ");
    assert_eq!(handle("https://youtube.com/@mkbhd").unwrap(), "@mkbhd");
    assert_eq!(handle("https://www.youtube.com/@mkbhd/videos?x=1").unwrap(), "@mkbhd");
    assert_eq!(
        id("https://www.youtube.com/channel/UC2D2CMWXMOVWx7giW1n3LIg/videos").unwrap(),
        "UC2D2CMWXMOVWx7giW1n3LIg"
    );
    assert_eq!(handle("mkbhd").unwrap(), "@mkbhd");
    assert_eq!(handle("  @veritasium  ").unwrap(), "@veritasium");
}

#[test]
fn channel_url_with_bad_id_falls_back() {
    assert_eq!(handle("https://youtube.com/channel/UCshort").unwrap(), "@https://youtube.com/channel/UCshort");
}

#[test]
fn url_encoding() {
    assert_eq!(urlencoded("rust programming"), "rust+programming");
    assert_eq!(urlencoded("a&b=c"), "a%26b%3Dc");
    assert_eq!(urlencoded("é"), "%C3%A9");
    assert_eq!(urlencoded("A-z_0.~"), "A-z_0.~");
}

#[test]
fn search_arguments() {
    assert_eq!(validate_search("   ", 10).unwrap_err(), "Search query cannot be empty");
    assert_eq!(validate_search("rust", 0).unwrap_err(), "Limit must be between 1 and 50");
    assert_eq!(validate_search("rust", 51).unwrap_err(), "Limit must be between 1 and 50");
    assert!(validate_search("rust", 50).is_ok());
}

#[test]
fn channel_arguments() {
    assert_eq!(validate_channel(0, None).unwrap_err(), "Limit must be between 1 and 200");
    assert_eq!(validate_channel(201, Some("x")).unwrap_err(), "Limit must be between 1 and 200");
    assert_eq!(validate_channel(5, Some(" ")).unwrap_err(), "Search query cannot be empty");
    assert!(validate_channel(200, Some("sleep")).is_ok());
    assert!(validate_channel(1, None).is_ok());
}

#[test]
fn messages() {
    assert_eq!(no_search_results_message("xyz"), "No results found for: xyz");
    assert_eq!(channel_empty_message(Some("q"), "N"), "No videos found for \"q\" in channel N");
    assert_eq!(channel_empty_message(None, "N"), "No videos found for channel N");
    assert_eq!(cached_footer(0), "*Cached: 1970-01-01*");
    assert_eq!(fresh_footer(1725029869), "*Data from: 2024-08-30*");
}
