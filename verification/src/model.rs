//! The data the client returns: search hits, video details, channel listings
//! and transcripts.
use vstd::prelude::*;

verus! {

pub open spec fn opt_view(o: Option<String>) -> Option<Seq<char>> {
    match o {
        Some(s) => Some(s@),
        None => None,
    }
}

/// One video in a search result or channel listing.
#[derive(Debug)]
pub struct VideoSummary {
    pub video_id: String,
    pub title: String,
    pub channel: String,
    pub duration: Option<String>,
    pub views: Option<String>,
    pub published: Option<String>,
    pub description: Option<String>,
}

pub ghost struct VideoSummaryView {
    pub video_id: Seq<char>,
    pub title: Seq<char>,
    pub channel: Seq<char>,
    pub duration: Option<Seq<char>>,
    pub views: Option<Seq<char>>,
    pub published: Option<Seq<char>>,
    pub description: Option<Seq<char>>,
}

impl View for VideoSummary {
    type V = VideoSummaryView;

    open spec fn view(&self) -> VideoSummaryView {
        VideoSummaryView {
            video_id: self.video_id@,
            title: self.title@,
            channel: self.channel@,
            duration: opt_view(self.duration),
            views: opt_view(self.views),
            published: opt_view(self.published),
            description: opt_view(self.description),
        }
    }
}

pub open spec fn summaries_view(v: Seq<VideoSummary>) -> Seq<VideoSummaryView> {
    v.map_values(|s: VideoSummary| s@)
}

/// Full details of one video.
#[derive(Debug)]
pub struct VideoDetail {
    pub video_id: String,
    pub title: String,
    pub channel: String,
    pub channel_id: String,
    pub view_count: Option<String>,
    pub length_seconds: Option<u64>,
    pub description: Option<String>,
    pub keywords: Vec<String>,
    pub is_live: bool,
    pub caption_languages: Vec<CaptionLanguage>,
}

/// A caption language offered for a video.
#[derive(Debug)]
pub struct CaptionLanguage {
    pub language_code: String,
    pub language_name: String,
    pub is_auto_generated: bool,
}

/// One line of a transcript, with its start time in whole seconds.
#[derive(Debug)]
pub struct TranscriptEntry {
    pub text: String,
    pub start_secs: u64,
}

/// A transcript with the video and caption track it comes from.
#[derive(Debug)]
pub struct TranscriptResult {
    pub video_id: String,
    pub title: String,
    pub channel: String,
    pub language: String,
    pub language_code: String,
    pub is_auto_generated: bool,
    pub entries: Vec<TranscriptEntry>,
}

/// Videos found for a search query.
#[derive(Debug)]
pub struct SearchResult {
    pub query: String,
    pub videos: Vec<VideoSummary>,
}

/// What is known about a channel.
#[derive(Debug)]
pub struct ChannelInfo {
    pub channel_id: String,
    pub name: String,
    pub handle: Option<String>,
    pub subscriber_count: Option<String>,
    pub video_count: Option<String>,
}

pub ghost struct ChannelInfoView {
    pub channel_id: Seq<char>,
    pub name: Seq<char>,
    pub handle: Option<Seq<char>>,
    pub subscriber_count: Option<Seq<char>>,
    pub video_count: Option<Seq<char>>,
}

impl View for ChannelInfo {
    type V = ChannelInfoView;

    open spec fn view(&self) -> ChannelInfoView {
        ChannelInfoView {
            channel_id: self.channel_id@,
            name: self.name@,
            handle: opt_view(self.handle),
            subscriber_count: opt_view(self.subscriber_count),
            video_count: opt_view(self.video_count),
        }
    }
}

/// Videos of a channel, listed or found by a query within the channel.
#[derive(Debug)]
pub struct ChannelVideosResult {
    pub channel: ChannelInfo,
    pub query: Option<String>,
    pub videos: Vec<VideoSummary>,
}

} // verus!
