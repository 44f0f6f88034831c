//! Command-line vocabulary: commands, sort orders and filters.
use vstd::prelude::*;

verus! {

/// The parsed command line.
#[derive(Debug)]
pub struct Cli {
    pub command: Commands,
    /// Bypass the local cache and fetch fresh data.
    pub no_cache: bool,
    /// Output raw JSON instead of Markdown.
    pub json: bool,
}

/// The sub-commands.
#[derive(Debug)]
pub enum Commands {
    /// Search YouTube videos.
    Search { query: String, limit: usize, sort: SortOrder, duration: Option<DurationFilter> },
    /// Fetch the transcript of a video.
    Transcript { video: String, lang: String, timestamps: bool },
    /// Get detailed information about a video.
    Video { video: String },
    /// List or search videos of a channel.
    Channel { channel: String, search: Option<String>, limit: usize, sort: ChannelSort },
}

/// Sort order of a video search.
#[derive(Debug, Clone, Copy, PartialEq, Eq, Structural)]
pub enum SortOrder {
    Relevance,
    Date,
    Views,
    Rating,
}

/// Sort order of a channel listing.
#[derive(Debug, Clone, Copy, PartialEq, Eq, Structural)]
pub enum ChannelSort {
    Newest,
    Oldest,
    Popular,
}

/// Duration filter of a video search.
#[derive(Debug, Clone, Copy, PartialEq, Eq, Structural)]
pub enum DurationFilter {
    Short,
    Medium,
    Long,
}

pub open spec fn sort_order_name(s: SortOrder) -> Seq<char> {
    match s {
        SortOrder::Relevance => "Relevance"@,
        SortOrder::Date => "Date"@,
        SortOrder::Views => "Views"@,
        SortOrder::Rating => "Rating"@,
    }
}

pub open spec fn channel_sort_name(s: ChannelSort) -> Seq<char> {
    match s {
        ChannelSort::Newest => "Newest"@,
        ChannelSort::Oldest => "Oldest"@,
        ChannelSort::Popular => "Popular"@,
    }
}

pub open spec fn duration_filter_name(d: DurationFilter) -> Seq<char> {
    match d {
        DurationFilter::Short => "Short"@,
        DurationFilter::Medium => "Medium"@,
        DurationFilter::Long => "Long"@,
    }
}

impl SortOrder {
    /// The variant's name, as `Debug` prints it.
    pub fn name(&self) -> (r: &'static str)
        ensures
            r@ == sort_order_name(*self),
    {
        match self {
            SortOrder::Relevance => "Relevance",
            SortOrder::Date => "Date",
            SortOrder::Views => "Views",
            SortOrder::Rating => "Rating",
        }
    }
}

impl ChannelSort {
    /// The variant's name, as `Debug` prints it.
    pub fn name(&self) -> (r: &'static str)
        ensures
            r@ == channel_sort_name(*self),
    {
        match self {
            ChannelSort::Newest => "Newest",
            ChannelSort::Oldest => "Oldest",
            ChannelSort::Popular => "Popular",
        }
    }
}

impl DurationFilter {
    /// The variant's name, as `Debug` prints it.
    pub fn name(&self) -> (r: &'static str)
        ensures
            r@ == duration_filter_name(*self),
    {
        match self {
            DurationFilter::Short => "Short",
            DurationFilter::Medium => "Medium",
            DurationFilter::Long => "Long",
        }
    }
}

} // verus!
