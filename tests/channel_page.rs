use retube::channel::{
    normalize_channel_handle, parse_views, render_channel_videos, render_spotlight_html,
    spotlight_index, NO_SPOTLIGHT, NO_VIDEOS,
};
use retube::records::ChannelVideo;

fn video(id: &str, views: &str) -> ChannelVideo {
    ChannelVideo {
        title: format!("title {}", id),
        video_id: id.to_string(),
        thumbnail: String::new(),
        duration: "1:00".to_string(),
        views: views.to_string(),
        published_at: "today".to_string(),
    }
}

#[test]
fn normalize_strips_one_at_or_encoded_at() {
    assert_eq!(normalize_channel_handle("@name"), "name");
    assert_eq!(normalize_channel_handle("%40name"), "name");
    assert_eq!(normalize_channel_handle("name"), "name");
    assert_eq!(normalize_channel_handle("  @name "), "name");
}

#[test]
fn normalize_strips_only_one_prefix() {
    assert_eq!(normalize_channel_handle("@@name"), "@name");
    assert_eq!(normalize_channel_handle("@%40name"), "%40name");
    assert_eq!(normalize_channel_handle("%40%40name"), "%40name");
}

#[test]
fn parse_views_examples() {
    assert_eq!(parse_views("1,234"), 1234);
    assert_eq!(parse_views("12 345"), 12345);
    assert_eq!(parse_views(""), 0);
    assert_eq!(parse_views("N/A"), 0);
    assert_eq!(parse_views("1,234 views"), 1234);
    assert_eq!(parse_views("99999999999999999999999"), u64::MAX);
}

#[test]
fn spotlight_picks_most_viewed_and_last_on_ties() {
    let vs = vec![video("a", "10"), video("b", "30"), video("c", "5"), video("d", "30")];
    assert_eq!(spotlight_index(&vs), Some(3));
}

#[test]
fn spotlight_skips_videos_without_id() {
    let vs = vec![video("a", "10"), video("", "1,000"), video("c", "5")];
    assert_eq!(spotlight_index(&vs), Some(0));
    let none = vec![video("", "10")];
    assert_eq!(spotlight_index(&none), None);
    assert_eq!(render_spotlight_html(&none, "http://h"), NO_SPOTLIGHT);
}

#[test]
fn spotlight_html_embeds_the_chosen_video() {
    let vs = vec![video("a", "10"), video("b", "30")];
    let html = render_spotlight_html(&vs, "http://h");
    assert!(html.contains("src=\"http://h/embed/b\""));
    assert!(html.contains("href=\"http://h/watch?v=b\""));
    assert!(html.contains("30 views"));
}

#[test]
fn channel_grid_puts_thirteen_videos_in_rows_of_six() {
    let vs: Vec<ChannelVideo> = (0..13).map(|i| video(&format!("v{}", i), "1")).collect();
    let html = render_channel_videos(&vs, "http://h");
    let rows: Vec<&str> = html.split("<ul class=\"yt-uix-shelfslider-list\">\n").skip(1).collect();
    assert_eq!(rows.len(), 3);
    let counts: Vec<usize> = rows.iter().map(|r| r.matches("<li class=\"channels-content-item").count()).collect();
    assert_eq!(counts, vec![6, 6, 1]);
}

#[test]
fn channel_grid_without_videos_is_a_notice() {
    assert_eq!(render_channel_videos(&Vec::new(), "http://h"), NO_VIDEOS);
}
