//! The records that pages are built from, as decoded from the internal API.
use vstd::prelude::*;

verus! {

/// A video of the home page's grid.
#[derive(Clone, Debug)]
pub struct TopVideo {
    pub title: String,
    pub author: String,
    pub video_id: String,
    pub thumbnail: String,
    pub channel_thumbnail: String,
    pub duration: String,
}

/// One search hit; hits without a video id are never shown.
#[derive(Clone, Debug)]
pub struct SearchResult {
    pub title: String,
    pub author: String,
    pub video_id: Option<String>,
    pub thumbnail: String,
    pub duration: Option<String>,
}

/// A video listed on a channel page. `views` and `published_at` are display
/// strings.
#[derive(Clone, Debug)]
pub struct ChannelVideo {
    pub title: String,
    pub video_id: String,
    pub thumbnail: String,
    pub duration: String,
    pub views: String,
    pub published_at: String,
}

/// The header data of a channel page.
#[derive(Clone, Debug)]
pub struct ChannelInfo {
    pub title: String,
    pub description: String,
    pub thumbnail: String,
    pub banner: String,
    pub subscriber_count: String,
}

/// What the channel endpoint returns: the channel and its videos.
#[derive(Clone, Debug)]
pub struct ChannelVideosResponse {
    pub channel_info: ChannelInfo,
    pub videos: Vec<ChannelVideo>,
}

/// A video of the watch page's related list.
#[derive(Clone, Debug)]
pub struct RelatedVideo {
    pub video_id: String,
    pub title: String,
    pub author: String,
    pub thumbnail: String,
    pub views: String,
}

/// A comment under a video.
#[derive(Clone, Debug)]
pub struct Comment {
    pub author: String,
    pub text: String,
    pub published_at: String,
    pub author_thumbnail: String,
}

/// Everything the watch page shows of one video.
#[derive(Clone, Debug)]
pub struct VideoInfoResponse {
    pub title: String,
    pub author: String,
    pub channel_custom_url: Option<String>,
    pub channel_thumbnail: String,
    pub views: Option<String>,
    pub subscriber_count: String,
    pub likes: Option<String>,
    pub published_at: String,
    pub description: String,
    pub comment_count: Option<String>,
    pub comments: Vec<Comment>,
}

/// The query of the results page.
#[derive(Clone, Debug)]
pub struct ResultsQuery {
    pub search_query: Option<String>,
}

/// The query of the watch page.
#[derive(Clone, Debug)]
pub struct WatchQuery {
    pub v: Option<String>,
}

/// The query of the channel page.
#[derive(Clone, Debug)]
pub struct ChannelQuery {
    pub handle: Option<String>,
}

} // verus!
