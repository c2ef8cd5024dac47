use retube::pages::{
    author_videos_path, base_url, channel_handle, page_channel, page_embed, page_index,
    page_results, page_watch, related_videos_path, render_navbar, render_sidebar,
    results_query_text, search_path, video_info_path, watch_video_id, Templates,
};
use retube::records::{
    ChannelInfo, ChannelQuery, ChannelVideo, ChannelVideosResponse, Comment, RelatedVideo,
    ResultsQuery, SearchResult, TopVideo, VideoInfoResponse, WatchQuery,
};
use retube::render::{render_comments, render_related_list, render_search_results, render_video_grid};
use retube::text::has_placeholder_exec;
use retube::top::{parse_i32, split_char, top_videos_count, top_videos_from_items, ProviderItem};

fn templates() -> Templates {
    Templates {
        navbar: "<nav href=\"{{MAIN_URL}}\" q=\"{{SEARCH_QUERY}}\">".to_string(),
        sidebar: "<aside>{{MAIN_URL}}</aside>".to_string(),
        index: "{{NAVBAR}}|{{MAIN_URL}}|{{VIDEOS_GRID}}".to_string(),
        results: "{{NAVBAR}}{{SIDEBAR}}{{MAIN_URL}}|{{SEARCH_QUERY}}|{{RESULTS}}".to_string(),
        watch: "{{NAVBAR}}{{MAIN_URL}}{{VIDEO_ID}}{{PAGE_TITLE}}{{VIDEO_TITLE}}{{CHANNEL_LINK}}{{CHANNEL_THUMB}}{{AUTHOR}}{{SUBSCRIBER_COUNT}}{{VIEWS}}{{LIKE_RATIO}}{{DISLIKE_RATIO}}{{LIKES}}{{PUBLISHED_AT}}{{DESCRIPTION_HTML}}{{COMMENT_COUNT}}{{COMMENTS_HTML}}{{RELATED_VIDEOS}}{{EMBED_SRC}}".to_string(),
        channel: "{{NAVBAR}}{{SIDEBAR}}{{MAIN_URL}}{{CHANNEL_TITLE}}{{CHANNEL_DESCRIPTION}}{{CHANNEL_THUMBNAIL}}{{CHANNEL_BANNER}}{{SUBSCRIBER_COUNT}}{{CHANNEL_URL}}{{SPOTLIGHT_HTML}}{{VIDEOS_HTML}}".to_string(),
        embed: "<video src=\"{{VIDEO_SRC}}\" poster=\"{{POSTER}}\">".to_string(),
    }
}

fn hit(id: Option<&str>, title: &str) -> SearchResult {
    SearchResult {
        title: title.to_string(),
        author: "auth".to_string(),
        video_id: id.map(|s| s.to_string()),
        thumbnail: "t.jpg".to_string(),
        duration: None,
    }
}

fn info(comments: Vec<Comment>) -> VideoInfoResponse {
    VideoInfoResponse {
        title: "A <b> title".to_string(),
        author: "Author".to_string(),
        channel_custom_url: Some("@chan".to_string()),
        channel_thumbnail: String::new(),
        views: None,
        subscriber_count: "1K".to_string(),
        likes: Some("7".to_string()),
        published_at: "2014".to_string(),
        description: "line\nhttp://x.y".to_string(),
        comment_count: None,
        comments,
    }
}

#[test]
fn base_url_prefers_configured_override() {
    assert_eq!(base_url("http", "host:1", "https://site.example//"), "https://site.example");
    assert_eq!(base_url("http", "host:1/", ""), "http://host:1");
}

#[test]
fn watch_without_v_is_a_400() {
    let r = watch_video_id(&WatchQuery { v: None }).unwrap_err();
    assert_eq!(r.status, 400);
    assert!(r.body.contains("Missing video ID"));
    let r = watch_video_id(&WatchQuery { v: Some(String::new()) }).unwrap_err();
    assert_eq!(r.status, 400);
    assert_eq!(watch_video_id(&WatchQuery { v: Some("abc".to_string()) }).unwrap(), "abc");
}

#[test]
fn watch_with_failing_required_fetch_is_a_500() {
    let r = page_watch(&templates(), "http://h", "abc", Err("timeout <x>".to_string()), Ok(Vec::new()));
    assert_eq!(r.status, 500);
    assert_eq!(r.body, "<h1>Video not found</h1><p>timeout &lt;x&gt;</p>");
}

#[test]
fn watch_page_fills_every_token() {
    let c = Comment {
        author: "Bob Smith".to_string(),
        text: "hi".to_string(),
        published_at: "now".to_string(),
        author_thumbnail: String::new(),
    };
    let r = page_watch(&templates(), "http://h", "abc", Ok(info(vec![c])), Err("down".to_string()));
    assert_eq!(r.status, 200);
    assert!(!has_placeholder_exec(&r.body));
    assert!(r.body.contains("A &lt;b&gt; title - YouTube"));
    assert!(r.body.contains("http://h/channel?handle=%40chan"));
    assert!(r.body.contains("No related videos"));
    assert!(r.body.contains("http://h/channel?handle=Bob%20Smith"));
    assert!(r.body.contains("line<br><a href=\"http://x.y\""));
    assert!(r.body.ends_with("http://h/embed/abc"));
}

#[test]
fn related_thumbnails_get_a_quality_hint() {
    let rv = |t: &str| RelatedVideo {
        video_id: "v".to_string(),
        title: "t".to_string(),
        author: "a".to_string(),
        thumbnail: t.to_string(),
        views: "3".to_string(),
    };
    let html = render_related_list(&vec![rv("http://i/x.jpg"), rv("http://i/y?s=1"), rv("")], "http://h");
    assert!(html.contains("src=\"http://i/x.jpg?quality=default\""));
    assert!(html.contains("src=\"http://i/y?s=1&amp;quality=default\""));
    assert!(html.contains("src=\"/assets/images/mqdefault.webp\""));
}

#[test]
fn comments_are_capped_at_twenty() {
    let cs: Vec<Comment> = (0..25)
        .map(|i| Comment {
            author: format!("u{}", i),
            text: "t".to_string(),
            published_at: "p".to_string(),
            author_thumbnail: "a.jpg".to_string(),
        })
        .collect();
    let html = render_comments(&cs, "http://h");
    assert_eq!(html.matches("<div class=\"comment-item clearfix\">").count(), 20);
}

#[test]
fn empty_search_query_renders_empty_results_without_fetch() {
    let q = ResultsQuery { search_query: Some(String::new()) };
    let text = results_query_text(&q);
    assert_eq!(search_path(&text), None);
    let r = page_results(&templates(), "http://h", &q, None);
    assert_eq!(r.status, 200);
    assert!(r.body.ends_with("||"));
    assert!(!r.body.contains("No results"));
}

#[test]
fn search_without_listable_hits_shows_a_notice() {
    let q = ResultsQuery { search_query: Some("  cats ".to_string()) };
    let text = results_query_text(&q);
    assert_eq!(text, "cats");
    assert_eq!(search_path(&text), Some("/get_search_videos.php?query=cats".to_string()));
    let r = page_results(&templates(), "http://h", &q, Some(Ok(vec![hit(None, "x"), hit(Some(""), "y")])));
    assert_eq!(r.status, 200);
    assert!(r.body.contains("No results for \"cats\""));
    let r = page_results(&templates(), "http://h", &q, Some(Err("down".to_string())));
    assert!(r.body.contains("No results for \"cats\""));
}

#[test]
fn search_results_drop_hits_without_id() {
    let html = render_search_results(&vec![hit(Some("a1"), "one"), hit(None, "two")], "http://h");
    assert!(html.contains("http://h/watch?v=a1"));
    assert!(!html.contains("two"));
}

#[test]
fn index_page_degrades_to_empty_grid() {
    let r = page_index(&templates(), "http://h", Err("down".to_string()));
    assert_eq!(r.status, 200);
    assert_eq!(r.body, "<nav href=\"http://h\" q=\"\">|http://h|");
}

#[test]
fn video_grid_links_each_video() {
    let v = TopVideo {
        title: "T".to_string(),
        author: "A".to_string(),
        video_id: "id1".to_string(),
        thumbnail: "th".to_string(),
        channel_thumbnail: String::new(),
        duration: "2:00".to_string(),
    };
    let html = render_video_grid(&vec![v.clone(), v], "http://h");
    assert_eq!(html.matches("href=\"http://h/watch?v=id1\"").count(), 4);
}

#[test]
fn navbar_and_sidebar_escape_their_values() {
    assert_eq!(render_navbar("{{MAIN_URL}} {{SEARCH_QUERY}}", "http://h", "a\"b"), "http://h a&quot;b");
    assert_eq!(render_sidebar("[{{MAIN_URL}}]", "http://h"), "[http://h]");
}

#[test]
fn channel_needs_a_handle() {
    let r = channel_handle(&ChannelQuery { handle: None }).unwrap_err();
    assert_eq!(r.status, 400);
    assert!(r.body.contains("Missing channel"));
    assert_eq!(channel_handle(&ChannelQuery { handle: Some("%40abc".to_string()) }).unwrap(), "abc");
}

#[test]
fn channel_page_fails_with_500_and_renders_otherwise() {
    let r = page_channel(&templates(), "http://h", "abc", Err("gone".to_string()));
    assert_eq!(r.status, 500);
    assert_eq!(r.body, "<h1>Channel not found</h1><p>gone</p>");
    let resp = ChannelVideosResponse {
        channel_info: ChannelInfo {
            title: "Chan".to_string(),
            description: "d".to_string(),
            thumbnail: String::new(),
            banner: "javascript:\"x\"".to_string(),
            subscriber_count: "<5>".to_string(),
        },
        videos: vec![ChannelVideo {
            title: "v".to_string(),
            video_id: "id".to_string(),
            thumbnail: String::new(),
            duration: "1:00".to_string(),
            views: "5".to_string(),
            published_at: "p".to_string(),
        }],
    };
    let r = page_channel(&templates(), "http://h", "abc", Ok(resp));
    assert_eq!(r.status, 200);
    assert!(!has_placeholder_exec(&r.body));
    assert!(r.body.contains("javascript:&quot;x&quot;&lt;5&gt;"));
    assert!(r.body.contains("/assets/images/photo.jpg"));
}

#[test]
fn embed_page() {
    let r = page_embed(&templates(), "http://h/", "");
    assert_eq!(r.status, 400);
    let r = page_embed(&templates(), "http://h/", "a b");
    assert_eq!(r.status, 200);
    assert_eq!(r.body, "<video src=\"http://h/direct_url?video_id=a%20b\" poster=\"http://h/thumbnail/a%20b\">");
}

#[test]
fn api_paths_are_percent_encoded() {
    assert_eq!(video_info_path("a&b"), "/get-ytvideo-info.php?video_id=a%26b");
    assert_eq!(related_videos_path("x"), "/get_related_videos.php?video_id=x");
    assert_eq!(author_videos_path("é"), "/get_author_videos.php?author=%C3%A9");
}

#[test]
fn top_count_reads_first_valid_count_and_clamps() {
    assert_eq!(top_videos_count(""), 50);
    assert_eq!(top_videos_count("count=10"), 10);
    assert_eq!(top_videos_count("x=1&count=abc&count=7"), 7);
    assert_eq!(top_videos_count("count=999"), 50);
    assert_eq!(top_videos_count("count=-3"), 1);
    assert_eq!(top_videos_count("count=+5=9"), 5);
}

#[test]
fn parse_i32_matches_std() {
    for s in ["0", "+1", "-1", "2147483647", "-2147483648", "2147483648", "", "-", "+", "1a", " 1"] {
        assert_eq!(parse_i32(s), s.parse::<i32>().ok(), "input {:?}", s);
    }
}

#[test]
fn split_char_matches_str_split() {
    for s in ["", "a", "a&b", "&", "a&&b&"] {
        let want: Vec<String> = s.split('&').map(|p| p.to_string()).collect();
        assert_eq!(split_char(s, '&'), want);
    }
}

#[test]
fn provider_items_become_top_videos() {
    let items = vec![
        ProviderItem { id: Some("v1".to_string()), has_snippet: true, title: None, channel_title: Some("C".to_string()) },
        ProviderItem { id: None, has_snippet: true, title: None, channel_title: None },
        ProviderItem { id: Some("v3".to_string()), has_snippet: false, title: None, channel_title: None },
    ];
    let vs = top_videos_from_items(&items, "http://h/");
    assert_eq!(vs.len(), 1);
    assert_eq!(vs[0].video_id, "v1");
    assert_eq!(vs[0].title, "Unknown Title");
    assert_eq!(vs[0].author, "C");
    assert_eq!(vs[0].thumbnail, "http://h/thumbnail/v1");
}
