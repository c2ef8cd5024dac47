//! The pages: what each one decides on its inputs and on the results of its
//! fetches, and the HTML it composes. Fetching and template loading happen
//! outside; their results come in as plain values.
use vstd::prelude::*;
use crate::channel::{
    channel_videos_html, normalize_channel_handle, normalized_handle, render_channel_videos,
    render_spotlight_html, spotlight_html, embed_url, embed_url_exec,
};
use crate::html::{clickable, escaped, h, make_clickable, url_encode, url_encoded};
use crate::records::{
    ChannelQuery, ChannelVideosResponse, RelatedVideo, ResultsQuery, SearchResult, TopVideo,
    VideoInfoResponse, WatchQuery,
};
use crate::render::{
    channel_url, channel_url_exec, comments_html, or_empty, related_list, render_comments,
    render_related_list, render_search_results, render_video_grid, result_id, search_results,
    video_grid,
};
use crate::text::{
    fill_slots, fill_slots_exec, fill_template, substituted, trim, trim_end_char, trim_end_matching,
    trimmed, views,
};

verus! {

/// An HTML response: its status code and body.
#[derive(Debug)]
pub struct PageResponse {
    pub status: u16,
    pub body: String,
}

/// The page templates, as loaded by name.
#[derive(Clone, Debug)]
pub struct Templates {
    pub navbar: String,
    pub sidebar: String,
    pub index: String,
    pub results: String,
    pub watch: String,
    pub channel: String,
    pub embed: String,
}

/// The root URL of the site: the configured one without trailing slashes,
/// or else `scheme://host` from the request.
pub open spec fn site_base(scheme: Seq<char>, host: Seq<char>, configured: Seq<char>) -> Seq<char> {
    if configured.len() > 0 {
        trim_end_char(configured, '/')
    } else {
        scheme + "://"@ + trim_end_char(host, '/')
    }
}

/// The root URL for one request: a configured override wins; otherwise it
/// is built from the request's scheme and host.
pub fn base_url(scheme: &str, host: &str, configured: &str) -> (r: String)
    ensures
        r@ == site_base(scheme@, host@, configured@),
{
    if !configured.is_empty() {
        trim_end_matching(configured, '/')
    } else {
        let mut u = scheme.to_owned();
        u.append("://");
        let h2 = trim_end_matching(host, '/');
        u.append(h2.as_str());
        u
    }
}

/// An optional string's value, or `d` where it is absent.
pub open spec fn or_default(s: Option<String>, d: Seq<char>) -> Seq<char> {
    match s {
        Some(x) => x@,
        None => d,
    }
}

fn or_default_exec(s: &Option<String>, d: &str) -> (r: String)
    ensures
        r@ == or_default(*s, d@),
{
    match s {
        Some(x) => x.clone(),
        None => d.to_owned(),
    }
}

fn strings(v: &Vec<&str>) -> (r: Vec<String>)
    ensures
        views(r@) == v@.map_values(|s: &str| s@),
{
    let mut out: Vec<String> = Vec::new();
    for i in 0..v.len()
        invariant
            out@.len() == i,
            forall|j: int| 0 <= j < i ==> out@[j]@ == v@[j]@,
    {
        out.push(v[i].to_owned());
    }
    assert(views(out@) =~= v@.map_values(|s: &str| s@));
    out
}

/// The navigation bar: the site URL and the search box's text, escaped.
pub open spec fn navbar_html(t: Seq<char>, main_url: Seq<char>, query: Seq<char>) -> Seq<char> {
    substituted(t, seq!["{{MAIN_URL}}"@, "{{SEARCH_QUERY}}"@], seq![escaped(main_url), escaped(query)])
}

/// Fills the navigation bar template.
pub fn render_navbar(template: &str, main_url: &str, search_query: &str) -> (r: String)
    ensures
        r@ == navbar_html(template@, main_url@, search_query@),
{
    let tokens = strings(&vec!["{{MAIN_URL}}", "{{SEARCH_QUERY}}"]);
    let values = vec![h(main_url), h(search_query)];
    assert(views(tokens@) =~= seq!["{{MAIN_URL}}"@, "{{SEARCH_QUERY}}"@]);
    assert(views(values@) =~= seq![escaped(main_url@), escaped(search_query@)]);
    fill_template(template, &tokens, &values)
}

/// The sidebar: the site URL, escaped.
pub open spec fn sidebar_html(t: Seq<char>, main_url: Seq<char>) -> Seq<char> {
    substituted(t, seq!["{{MAIN_URL}}"@], seq![escaped(main_url)])
}

/// Fills the sidebar template.
pub fn render_sidebar(template: &str, main_url: &str) -> (r: String)
    ensures
        r@ == sidebar_html(template@, main_url@),
{
    let tokens = strings(&vec!["{{MAIN_URL}}"]);
    let values = vec![h(main_url)];
    assert(views(tokens@) =~= seq!["{{MAIN_URL}}"@]);
    assert(views(values@) =~= seq![escaped(main_url@)]);
    fill_template(template, &tokens, &values)
}

/// The internal API path of the home page's videos.
pub const TOP_VIDEOS_PATH: &'static str = "/get_top_videos.php?count=24";

/// The home page's body for the videos `vs`.
pub open spec fn index_body(t: Templates, main_url: Seq<char>, vs: Seq<TopVideo>) -> Seq<char> {
    substituted(
        t.index@,
        seq!["{{NAVBAR}}"@, "{{MAIN_URL}}"@, "{{VIDEOS_GRID}}"@],
        seq![navbar_html(t.navbar@, main_url, seq![]), escaped(main_url), video_grid(vs, main_url)],
    )
}

/// The home page. Its fetch is optional: where it failed the grid is empty.
pub fn page_index(t: &Templates, main_url: &str, fetched: Result<Vec<TopVideo>, String>) -> (r: PageResponse)
    ensures
        r.status == 200,
        r.body@ == index_body(*t, main_url@, match fetched {
            Ok(v) => v@,
            Err(_) => seq![],
        }),
{
    let videos = match fetched {
        Ok(v) => v,
        Err(_) => Vec::new(),
    };
    let navbar = render_navbar(t.navbar.as_str(), main_url, "");
    proof {
        reveal_strlit("");
    }
    assert(""@ =~= seq![]);
    let grid = render_video_grid(&videos, main_url);
    let tokens = strings(&vec!["{{NAVBAR}}", "{{MAIN_URL}}", "{{VIDEOS_GRID}}"]);
    let values = vec![navbar, h(main_url), grid];
    assert(views(tokens@) =~= seq!["{{NAVBAR}}"@, "{{MAIN_URL}}"@, "{{VIDEOS_GRID}}"@]);
    let body = fill_template(t.index.as_str(), &tokens, &values);
    assert(views(values@) =~= seq![navbar_html(t.navbar@, main_url@, seq![]), escaped(main_url@), video_grid(videos@, main_url@)]);
    PageResponse { status: 200, body }
}

/// The search text of a results query: trimmed, empty where absent.
pub open spec fn query_text(q: ResultsQuery) -> Seq<char> {
    trimmed(or_default(q.search_query, seq![]))
}

/// The search text of the results page's query.
pub fn results_query_text(q: &ResultsQuery) -> (r: String)
    ensures
        r@ == query_text(*q),
{
    let raw = or_empty(&q.search_query);
    trim(raw.as_str())
}

/// The internal API path that searches for `query`.
pub open spec fn search_path_of(query: Seq<char>) -> Seq<char> {
    "/get_search_videos.php?query="@ + url_encoded(query)
}

/// The fetch the results page makes: none for an empty search text.
pub fn search_path(query: &str) -> (r: Option<String>)
    ensures
        query@.len() == 0 ==> r is None,
        query@.len() > 0 ==> r is Some && r->Some_0@ == search_path_of(query@),
{
    if query.is_empty() {
        None
    } else {
        let mut p = "/get_search_videos.php?query=".to_owned();
        let e = url_encode(query);
        p.append(e.as_str());
        Some(p)
    }
}

/// Some hit of `vs` has a video id.
pub open spec fn has_listed_result(vs: Seq<SearchResult>) -> bool {
    exists|i: int| 0 <= i < vs.len() && (#[trigger] result_id(vs[i])).len() > 0
}

fn has_listed_result_exec(vs: &Vec<SearchResult>) -> (r: bool)
    ensures
        r == has_listed_result(vs@),
{
    for i in 0..vs.len()
        invariant
            forall|j: int| 0 <= j < i ==> (#[trigger] result_id(vs@[j])).len() == 0,
    {
        let listed = match &vs[i].video_id {
            Some(id) => !id.as_str().is_empty(),
            None => false,
        };
        if listed {
            assert(result_id(vs@[i as int]).len() > 0);
            return true;
        }
    }
    false
}

/// The notice for a search without results; its slot takes the search text.
pub const NO_RESULTS: &'static str = r#"<div class="yt-alert yt-alert-default"><div class="yt-alert-content">No results for "{}"</div></div>"#;

/// The results list, or the notice where a search found nothing to list.
pub open spec fn results_html(main_url: Seq<char>, query: Seq<char>, vs: Seq<SearchResult>) -> Seq<char> {
    if query.len() > 0 && !has_listed_result(vs) {
        fill_slots(NO_RESULTS@, seq![escaped(query)])
    } else {
        search_results(vs, main_url)
    }
}

/// The hits the results page lists: none for an empty search text or a
/// failed fetch.
pub open spec fn listed_hits(query: Seq<char>, fetched: Option<Result<Vec<SearchResult>, String>>) -> Seq<SearchResult> {
    if query.len() == 0 {
        seq![]
    } else {
        match fetched {
            Some(Ok(v)) => v@,
            _ => seq![],
        }
    }
}

/// The results page's body.
pub open spec fn results_body(t: Templates, main_url: Seq<char>, query: Seq<char>, vs: Seq<SearchResult>) -> Seq<char> {
    substituted(
        t.results@,
        seq!["{{NAVBAR}}"@, "{{SIDEBAR}}"@, "{{MAIN_URL}}"@, "{{SEARCH_QUERY}}"@, "{{RESULTS}}"@],
        seq![
            navbar_html(t.navbar@, main_url, query),
            sidebar_html(t.sidebar@, main_url),
            escaped(main_url),
            escaped(query),
            results_html(main_url, query, vs),
        ],
    )
}

/// The results page. `fetched` is the result of the search fetch, `None`
/// where none was made; the fetch is optional, so a failure lists nothing.
pub fn page_results(
    t: &Templates,
    main_url: &str,
    query: &ResultsQuery,
    fetched: Option<Result<Vec<SearchResult>, String>>,
) -> (r: PageResponse)
    ensures
        r.status == 200,
        r.body@ == results_body(*t, main_url@, query_text(*query), listed_hits(query_text(*query), fetched)),
{
    let q = results_query_text(query);
    let videos: Vec<SearchResult> = if q.as_str().is_empty() {
        Vec::new()
    } else {
        match fetched {
            Some(Ok(v)) => v,
            _ => Vec::new(),
        }
    };
    assert(videos@ == listed_hits(q@, fetched));
    let navbar = render_navbar(t.navbar.as_str(), main_url, q.as_str());
    let sidebar = render_sidebar(t.sidebar.as_str(), main_url);
    let results = if !q.as_str().is_empty() && !has_listed_result_exec(&videos) {
        let args = vec![h(q.as_str())];
        assert(views(args@) =~= seq![escaped(q@)]);
        fill_slots_exec(NO_RESULTS, &args)
    } else {
        render_search_results(&videos, main_url)
    };
    let tokens = strings(&vec!["{{NAVBAR}}", "{{SIDEBAR}}", "{{MAIN_URL}}", "{{SEARCH_QUERY}}", "{{RESULTS}}"]);
    let values = vec![navbar, sidebar, h(main_url), h(q.as_str()), results];
    assert(views(tokens@) =~= seq!["{{NAVBAR}}"@, "{{SIDEBAR}}"@, "{{MAIN_URL}}"@, "{{SEARCH_QUERY}}"@, "{{RESULTS}}"@]);
    assert(views(values@) =~= seq![
        navbar_html(t.navbar@, main_url@, q@),
        sidebar_html(t.sidebar@, main_url@),
        escaped(main_url@),
        escaped(q@),
        results_html(main_url@, q@, videos@),
    ]);
    let body = fill_template(t.results.as_str(), &tokens, &values);
    PageResponse { status: 200, body }
}

/// The body of the answer to a watch request without a video id.
pub const MISSING_VIDEO_ID: &'static str = "<h1>Missing video ID</h1><p>Use ?v=VIDEO_ID</p>";

/// The video id of a watch request, or the 400 answer where it has none.
pub fn watch_video_id(q: &WatchQuery) -> (r: Result<String, PageResponse>)
    ensures
        match q.v {
            Some(v) if v@.len() > 0 => r is Ok && r->Ok_0@ == v@,
            _ => r is Err && r->Err_0.status == 400 && r->Err_0.body@ == MISSING_VIDEO_ID@,
        },
{
    match &q.v {
        Some(v) => {
            if v.as_str().is_empty() {
                Err(PageResponse { status: 400, body: MISSING_VIDEO_ID.to_owned() })
            } else {
                Ok(v.clone())
            }
        },
        None => Err(PageResponse { status: 400, body: MISSING_VIDEO_ID.to_owned() }),
    }
}

/// The internal API path of the data of video `id`.
pub fn video_info_path(id: &str) -> (r: String)
    ensures
        r@ == "/get-ytvideo-info.php?video_id="@ + url_encoded(id@),
{
    let mut p = "/get-ytvideo-info.php?video_id=".to_owned();
    let e = url_encode(id);
    p.append(e.as_str());
    p
}

/// The internal API path of the videos related to video `id`.
pub fn related_videos_path(id: &str) -> (r: String)
    ensures
        r@ == "/get_related_videos.php?video_id="@ + url_encoded(id@),
{
    let mut p = "/get_related_videos.php?video_id=".to_owned();
    let e = url_encode(id);
    p.append(e.as_str());
    p
}

/// `<prefix><escaped cause><suffix>`: the body of a 500 answer.
pub open spec fn failure_body(prefix: Seq<char>, cause: Seq<char>) -> Seq<char> {
    prefix + escaped(cause) + "</p>"@
}

fn failure_page(prefix: &str, cause: &str) -> (r: PageResponse)
    ensures
        r.status == 500,
        r.body@ == failure_body(prefix@, cause@),
{
    let mut b = prefix.to_owned();
    let e = h(cause);
    b.append(e.as_str());
    b.append("</p>");
    PageResponse { status: 500, body: b }
}

/// The start of the body of a watch page whose video data could not be had.
pub const VIDEO_NOT_FOUND: &'static str = "<h1>Video not found</h1><p>";

/// The placeholder of an empty related list.
pub const NO_RELATED: &'static str = "<li style='padding:20px;color:#aaa'>No related videos</li>";

/// The placeholder of a video without comments.
pub const NO_COMMENTS: &'static str = "<div class='comment-empty'><p>No comments yet.</p></div>";

/// The picture shown where a channel has none.
pub open spec fn photo_or(t: Seq<char>) -> Seq<char> {
    if t.len() == 0 {
        "/assets/images/photo.jpg"@
    } else {
        t
    }
}

/// The link to a video's channel: empty where the channel has no custom URL.
pub open spec fn video_channel_link(main_url: Seq<char>, custom: Seq<char>) -> Seq<char> {
    if custom.len() == 0 {
        seq![]
    } else {
        channel_url(main_url, custom)
    }
}

/// The placeholder tokens of the watch template, in the order of
/// `watch_values`.
pub open spec fn watch_tokens() -> Seq<Seq<char>> {
    seq![
        "{{NAVBAR}}"@, "{{MAIN_URL}}"@, "{{VIDEO_ID}}"@, "{{PAGE_TITLE}}"@, "{{VIDEO_TITLE}}"@,
        "{{CHANNEL_LINK}}"@, "{{CHANNEL_THUMB}}"@, "{{AUTHOR}}"@, "{{SUBSCRIBER_COUNT}}"@,
        "{{VIEWS}}"@, "{{LIKE_RATIO}}"@, "{{DISLIKE_RATIO}}"@, "{{LIKES}}"@, "{{PUBLISHED_AT}}"@,
        "{{DESCRIPTION_HTML}}"@, "{{COMMENT_COUNT}}"@, "{{COMMENTS_HTML}}"@, "{{RELATED_VIDEOS}}"@,
        "{{EMBED_SRC}}"@,
    ]
}

/// What the watch page puts in place of each of `watch_tokens`.
pub open spec fn watch_values(
    t: Templates,
    main_url: Seq<char>,
    id: Seq<char>,
    info: VideoInfoResponse,
    related: Seq<RelatedVideo>,
) -> Seq<Seq<char>> {
    seq![
        navbar_html(t.navbar@, main_url, seq![]),
        escaped(main_url),
        escaped(id),
        escaped(info.title@) + " - YouTube"@,
        escaped(info.title@),
        escaped(video_channel_link(main_url, or_default(info.channel_custom_url, seq![]))),
        escaped(photo_or(info.channel_thumbnail@)),
        escaped(info.author@),
        escaped(info.subscriber_count@),
        escaped(or_default(info.views, "0"@)),
        "50"@,
        "50"@,
        escaped(or_default(info.likes, "0"@)),
        escaped(info.published_at@),
        clickable(info.description@),
        escaped(or_default(info.comment_count, "0"@)),
        if info.comments@.len() == 0 { NO_COMMENTS@ } else { comments_html(info.comments@, main_url) },
        if related.len() == 0 { NO_RELATED@ } else { related_list(related, main_url) },
        escaped(embed_url(main_url, id)),
    ]
}

/// The watch page of video `video_id`. The video's data is required: where
/// its fetch failed the answer is a 500 with the cause. The related videos
/// are optional: where their fetch failed the list is empty.
pub fn page_watch(
    t: &Templates,
    main_url: &str,
    video_id: &str,
    info: Result<VideoInfoResponse, String>,
    related: Result<Vec<RelatedVideo>, String>,
) -> (r: PageResponse)
    ensures
        match info {
            Err(e) => r.status == 500 && r.body@ == failure_body(VIDEO_NOT_FOUND@, e@),
            Ok(i) => r.status == 200 && r.body@ == substituted(
                t.watch@,
                watch_tokens(),
                watch_values(*t, main_url@, video_id@, i, match related {
                    Ok(v) => v@,
                    Err(_) => seq![],
                }),
            ),
        },
{
    let info = match info {
        Ok(i) => i,
        Err(e) => {
            return failure_page(VIDEO_NOT_FOUND, e.as_str());
        },
    };
    let related = match related {
        Ok(v) => v,
        Err(_) => Vec::new(),
    };
    let custom = or_empty(&info.channel_custom_url);
    let channel_link = if custom.as_str().is_empty() {
        String::new()
    } else {
        channel_url_exec(main_url, custom.as_str())
    };
    let channel_thumb = if info.channel_thumbnail.as_str().is_empty() {
        "/assets/images/photo.jpg".to_owned()
    } else {
        info.channel_thumbnail.clone()
    };
    let mut page_title = h(info.title.as_str());
    page_title.append(" - YouTube");
    let navbar = render_navbar(t.navbar.as_str(), main_url, "");
    proof {
        reveal_strlit("");
    }
    assert(""@ =~= seq![]);
    let related_html = if related.len() == 0 {
        NO_RELATED.to_owned()
    } else {
        render_related_list(&related, main_url)
    };
    let comments_block = if info.comments.len() == 0 {
        NO_COMMENTS.to_owned()
    } else {
        render_comments(&info.comments, main_url)
    };
    let embed = embed_url_exec(main_url, video_id);
    let values = vec![
        navbar,
        h(main_url),
        h(video_id),
        page_title,
        h(info.title.as_str()),
        h(channel_link.as_str()),
        h(channel_thumb.as_str()),
        h(info.author.as_str()),
        h(info.subscriber_count.as_str()),
        h(or_default_exec(&info.views, "0").as_str()),
        "50".to_owned(),
        "50".to_owned(),
        h(or_default_exec(&info.likes, "0").as_str()),
        h(info.published_at.as_str()),
        make_clickable(info.description.as_str()),
        h(or_default_exec(&info.comment_count, "0").as_str()),
        comments_block,
        related_html,
        h(embed.as_str()),
    ];
    let tokens = strings(&vec![
        "{{NAVBAR}}", "{{MAIN_URL}}", "{{VIDEO_ID}}", "{{PAGE_TITLE}}", "{{VIDEO_TITLE}}",
        "{{CHANNEL_LINK}}", "{{CHANNEL_THUMB}}", "{{AUTHOR}}", "{{SUBSCRIBER_COUNT}}",
        "{{VIEWS}}", "{{LIKE_RATIO}}", "{{DISLIKE_RATIO}}", "{{LIKES}}", "{{PUBLISHED_AT}}",
        "{{DESCRIPTION_HTML}}", "{{COMMENT_COUNT}}", "{{COMMENTS_HTML}}", "{{RELATED_VIDEOS}}",
        "{{EMBED_SRC}}",
    ]);
    assert(views(tokens@) =~= watch_tokens());
    assert(views(values@) =~= watch_values(*t, main_url@, video_id@, info, related@));
    let body = fill_template(t.watch.as_str(), &tokens, &values);
    PageResponse { status: 200, body }
}

/// The body of the answer to a channel request without a handle.
pub const MISSING_CHANNEL: &'static str = "<h1>Missing channel</h1><p>Use ?handle=CHANNEL_HANDLE</p>";

/// The normalized handle of a channel request, or the 400 answer where it
/// has none.
pub fn channel_handle(q: &ChannelQuery) -> (r: Result<String, PageResponse>)
    ensures
        match q.handle {
            Some(h) if h@.len() > 0 => r is Ok && r->Ok_0@ == normalized_handle(h@),
            _ => r is Err && r->Err_0.status == 400 && r->Err_0.body@ == MISSING_CHANNEL@,
        },
{
    match &q.handle {
        Some(hd) => {
            if hd.as_str().is_empty() {
                Err(PageResponse { status: 400, body: MISSING_CHANNEL.to_owned() })
            } else {
                Ok(normalize_channel_handle(hd.as_str()))
            }
        },
        None => Err(PageResponse { status: 400, body: MISSING_CHANNEL.to_owned() }),
    }
}

/// The internal API path of the channel `handle` and its videos.
pub fn author_videos_path(handle: &str) -> (r: String)
    ensures
        r@ == "/get_author_videos.php?author="@ + url_encoded(handle@),
{
    let mut p = "/get_author_videos.php?author=".to_owned();
    let e = url_encode(handle);
    p.append(e.as_str());
    p
}

/// The start of the body of a channel page whose data could not be had.
pub const CHANNEL_NOT_FOUND: &'static str = "<h1>Channel not found</h1><p>";

/// The placeholder tokens of the channel template, in the order of
/// `channel_values`.
pub open spec fn channel_tokens() -> Seq<Seq<char>> {
    seq![
        "{{NAVBAR}}"@, "{{SIDEBAR}}"@, "{{MAIN_URL}}"@, "{{CHANNEL_TITLE}}"@,
        "{{CHANNEL_DESCRIPTION}}"@, "{{CHANNEL_THUMBNAIL}}"@, "{{CHANNEL_BANNER}}"@,
        "{{SUBSCRIBER_COUNT}}"@, "{{CHANNEL_URL}}"@, "{{SPOTLIGHT_HTML}}"@, "{{VIDEOS_HTML}}"@,
    ]
}

/// What the channel page puts in place of each of `channel_tokens`.
pub open spec fn channel_values(
    t: Templates,
    main_url: Seq<char>,
    handle: Seq<char>,
    c: ChannelVideosResponse,
) -> Seq<Seq<char>> {
    seq![
        navbar_html(t.navbar@, main_url, seq![]),
        sidebar_html(t.sidebar@, main_url),
        escaped(main_url),
        escaped(c.channel_info.title@),
        escaped(c.channel_info.description@),
        escaped(photo_or(c.channel_info.thumbnail@)),
        escaped(c.channel_info.banner@),
        escaped(c.channel_info.subscriber_count@),
        escaped(channel_url(main_url, handle)),
        spotlight_html(c.videos@, main_url),
        channel_videos_html(c.videos@, main_url),
    ]
}

/// The channel page of `handle`. Its fetch is required: where it failed the
/// answer is a 500 with the cause.
pub fn page_channel(
    t: &Templates,
    main_url: &str,
    handle: &str,
    fetched: Result<ChannelVideosResponse, String>,
) -> (r: PageResponse)
    ensures
        match fetched {
            Err(e) => r.status == 500 && r.body@ == failure_body(CHANNEL_NOT_FOUND@, e@),
            Ok(c) => r.status == 200 && r.body@ == substituted(
                t.channel@,
                channel_tokens(),
                channel_values(*t, main_url@, handle@, c),
            ),
        },
{
    let c = match fetched {
        Ok(c) => c,
        Err(e) => {
            return failure_page(CHANNEL_NOT_FOUND, e.as_str());
        },
    };
    let info = &c.channel_info;
    let thumb = if info.thumbnail.as_str().is_empty() {
        "/assets/images/photo.jpg".to_owned()
    } else {
        info.thumbnail.clone()
    };
    let navbar = render_navbar(t.navbar.as_str(), main_url, "");
    proof {
        reveal_strlit("");
    }
    assert(""@ =~= seq![]);
    let curl = channel_url_exec(main_url, handle);
    let values = vec![
        navbar,
        render_sidebar(t.sidebar.as_str(), main_url),
        h(main_url),
        h(info.title.as_str()),
        h(info.description.as_str()),
        h(thumb.as_str()),
        h(info.banner.as_str()),
        h(info.subscriber_count.as_str()),
        h(curl.as_str()),
        render_spotlight_html(&c.videos, main_url),
        render_channel_videos(&c.videos, main_url),
    ];
    let tokens = strings(&vec![
        "{{NAVBAR}}", "{{SIDEBAR}}", "{{MAIN_URL}}", "{{CHANNEL_TITLE}}",
        "{{CHANNEL_DESCRIPTION}}", "{{CHANNEL_THUMBNAIL}}", "{{CHANNEL_BANNER}}",
        "{{SUBSCRIBER_COUNT}}", "{{CHANNEL_URL}}", "{{SPOTLIGHT_HTML}}", "{{VIDEOS_HTML}}",
    ]);
    assert(views(tokens@) =~= channel_tokens());
    assert(views(values@) =~= channel_values(*t, main_url@, handle@, c));
    let body = fill_template(t.channel.as_str(), &tokens, &values);
    PageResponse { status: 200, body }
}

/// The body of the answer to an embed request without a video id.
pub const MISSING_EMBED_ID: &'static str = "<h1>Missing video ID</h1>";

/// The embed page's body for video `id`: the video and poster URLs of the
/// local proxy, escaped.
pub open spec fn embed_body(t: Templates, main_url: Seq<char>, id: Seq<char>) -> Seq<char> {
    let base = trim_end_char(main_url, '/');
    substituted(
        t.embed@,
        seq!["{{VIDEO_SRC}}"@, "{{POSTER}}"@],
        seq![
            escaped(base + "/direct_url?video_id="@ + url_encoded(id)),
            escaped(base + "/thumbnail/"@ + url_encoded(id)),
        ],
    )
}

/// The embedded player of video `video_id`; a 400 where the id is empty.
pub fn page_embed(t: &Templates, main_url: &str, video_id: &str) -> (r: PageResponse)
    ensures
        video_id@.len() == 0 ==> r.status == 400 && r.body@ == MISSING_EMBED_ID@,
        video_id@.len() > 0 ==> r.status == 200 && r.body@ == embed_body(*t, main_url@, video_id@),
{
    if video_id.is_empty() {
        return PageResponse { status: 400, body: MISSING_EMBED_ID.to_owned() };
    }
    let base = trim_end_matching(main_url, '/');
    let enc = url_encode(video_id);
    let mut src = base.clone();
    src.append("/direct_url?video_id=");
    src.append(enc.as_str());
    let mut poster = base.clone();
    poster.append("/thumbnail/");
    poster.append(enc.as_str());
    let tokens = strings(&vec!["{{VIDEO_SRC}}", "{{POSTER}}"]);
    let values = vec![h(src.as_str()), h(poster.as_str())];
    assert(views(tokens@) =~= seq!["{{VIDEO_SRC}}"@, "{{POSTER}}"@]);
    assert(views(values@) =~= seq![
        escaped(trim_end_char(main_url@, '/') + "/direct_url?video_id="@ + url_encoded(video_id@)),
        escaped(trim_end_char(main_url@, '/') + "/thumbnail/"@ + url_encoded(video_id@)),
    ]);
    let body = fill_template(t.embed.as_str(), &tokens, &values);
    PageResponse { status: 200, body }
}

} // verus!
