//! Fragment builders: each turns records into the HTML of one placeholder.
use vstd::prelude::*;
use crate::html::{clickable, escape_all, escaped_all, make_clickable, url_encode, url_encoded};
use crate::records::{Comment, RelatedVideo, SearchResult, TopVideo};
use crate::text::{chars_of, fill_slots, fill_slots_exec, views};

verus! {

/// `<main>/watch?v=<id>`.
pub open spec fn watch_url(main_url: Seq<char>, id: Seq<char>) -> Seq<char> {
    main_url + "/watch?v="@ + id
}

/// The watch URL of video `id`.
pub fn watch_url_exec(main_url: &str, id: &str) -> (r: String)
    ensures
        r@ == watch_url(main_url@, id@),
{
    let mut u = main_url.to_owned();
    u.append("/watch?v=");
    u.append(id);
    u
}

/// One entry of the home page's video grid; `{}` slots take, in order, the
/// watch URL, thumbnail, title, duration, watch URL, title, title, author.
pub const GRID_ITEM: &'static str = r#"<li class="channels-content-item yt-shelf-grid-item">
    <div class="yt-lockup yt-lockup-video yt-lockup-grid">
        <div class="yt-lockup-thumbnail">
            <a href="{}" class="ux-thumb-wrap spf-link">
                <span class="video-thumb yt-thumb yt-thumb-185">
                    <span class="yt-thumb-clip">
                        <img src="{}" alt="{}" width="185">
                    </span>
                </span>
                <span class="video-time">{}</span>
            </a>
        </div>
        <div class="yt-lockup-content">
            <h3 class="yt-lockup-title"><a href="{}" class="spf-link yt-ui-ellipsis-2" title="{}">{}</a></h3>
            <div class="yt-lockup-meta"><ul class="yt-lockup-meta-info"><li>{}</li></ul></div>
        </div>
    </div>
</li>"#;

/// The grid entry of `v`, every value escaped.
pub open spec fn grid_item(v: TopVideo, main_url: Seq<char>) -> Seq<char> {
    let w = watch_url(main_url, v.video_id@);
    fill_slots(
        GRID_ITEM@,
        escaped_all(seq![w, v.thumbnail@, v.title@, v.duration@, w, v.title@, v.title@, v.author@]),
    )
}

/// The grid entries of `vs`, in order.
pub open spec fn video_grid(vs: Seq<TopVideo>, main_url: Seq<char>) -> Seq<char>
    decreases vs.len(),
{
    if vs.len() == 0 {
        seq![]
    } else {
        video_grid(vs.drop_last(), main_url) + grid_item(vs.last(), main_url)
    }
}

fn render_grid_item(v: &TopVideo, main_url: &str) -> (r: String)
    ensures
        r@ == grid_item(*v, main_url@),
{
    let w = watch_url_exec(main_url, v.video_id.as_str());
    let args = vec![
        w.clone(),
        v.thumbnail.clone(),
        v.title.clone(),
        v.duration.clone(),
        w.clone(),
        v.title.clone(),
        v.title.clone(),
        v.author.clone(),
    ];
    let esc = escape_all(&args);
    assert(views(args@) =~= seq![w@, v.thumbnail@, v.title@, v.duration@, w@, v.title@, v.title@, v.author@]);
    fill_slots_exec(GRID_ITEM, &esc)
}

/// The home page's grid: one linked entry per video, in order.
pub fn render_video_grid(videos: &Vec<TopVideo>, main_url: &str) -> (r: String)
    ensures
        r@ == video_grid(videos@, main_url@),
{
    let mut out = String::new();
    for i in 0..videos.len()
        invariant
            out@ == video_grid(videos@.take(i as int), main_url@),
    {
        let item = render_grid_item(&videos[i], main_url);
        out.append(item.as_str());
        assert(videos@.take(i + 1).drop_last() =~= videos@.take(i as int));
    }
    assert(videos@.take(videos.len() as int) =~= videos@);
    out
}

/// The video id of a search hit, empty when it has none.
pub open spec fn result_id(v: SearchResult) -> Seq<char> {
    match v.video_id {
        Some(id) => id@,
        None => seq![],
    }
}

/// The duration of a search hit, empty when it has none.
pub open spec fn result_duration(v: SearchResult) -> Seq<char> {
    match v.duration {
        Some(d) => d@,
        None => seq![],
    }
}

/// One entry of the search results; `{}` slots take, in order, the watch
/// URL, title, thumbnail, duration, watch URL, title, title, author.
pub const RESULT_ITEM: &'static str = r#"<li class="yt-lockup clearfix yt-lockup-video yt-lockup-tile result-item-padding">
    <div class="yt-lockup-thumbnail">
        <a href="{}" class="ux-thumb-wrap spf-link">
            <span class="video-thumb yt-thumb yt-thumb-185">
                <span class="yt-thumb-default">
                    <span class="yt-thumb-clip">
                        <img alt="{}" src="{}" width="185" height="104">
                        <span class="vertical-align"></span>
                    </span>
                </span>
            </span>
            <span class="video-time">{}</span>
        </a>
    </div>
    <div class="yt-lockup-content">
        <h3 class="yt-lockup-title">
            <a class="yt-uix-tile-link spf-link yt-ui-ellipsis-2" href="{}" title="{}">{}</a>
        </h3>
        <div class="yt-lockup-meta"><ul class="yt-lockup-meta-info"><li>{}</li></ul></div>
    </div>
</li>"#;

/// The results entry of `v`, every value escaped.
pub open spec fn result_item(v: SearchResult, main_url: Seq<char>) -> Seq<char> {
    let w = watch_url(main_url, result_id(v));
    fill_slots(
        RESULT_ITEM@,
        escaped_all(seq![w, v.title@, v.thumbnail@, result_duration(v), w, v.title@, v.title@, v.author@]),
    )
}

/// The results entries of the hits of `vs` that have a video id, in order.
pub open spec fn search_results(vs: Seq<SearchResult>, main_url: Seq<char>) -> Seq<char>
    decreases vs.len(),
{
    if vs.len() == 0 {
        seq![]
    } else if result_id(vs.last()).len() == 0 {
        search_results(vs.drop_last(), main_url)
    } else {
        search_results(vs.drop_last(), main_url) + result_item(vs.last(), main_url)
    }
}

/// The value of an optional string, empty when absent.
pub fn or_empty(s: &Option<String>) -> (r: String)
    ensures
        r@ == match *s {
            Some(x) => x@,
            None => seq![],
        },
{
    match s {
        Some(x) => x.clone(),
        None => String::new(),
    }
}

fn render_result_item(v: &SearchResult, main_url: &str) -> (r: String)
    ensures
        r@ == result_item(*v, main_url@),
{
    let id = or_empty(&v.video_id);
    let duration = or_empty(&v.duration);
    let w = watch_url_exec(main_url, id.as_str());
    let args = vec![
        w.clone(),
        v.title.clone(),
        v.thumbnail.clone(),
        duration,
        w.clone(),
        v.title.clone(),
        v.title.clone(),
        v.author.clone(),
    ];
    let esc = escape_all(&args);
    assert(views(args@) =~= seq![w@, v.title@, v.thumbnail@, result_duration(*v), w@, v.title@, v.title@, v.author@]);
    fill_slots_exec(RESULT_ITEM, &esc)
}

/// The search results list: one entry per hit that has a video id, in order;
/// hits without one are left out.
pub fn render_search_results(videos: &Vec<SearchResult>, main_url: &str) -> (r: String)
    ensures
        r@ == search_results(videos@, main_url@),
{
    let mut out = String::new();
    for i in 0..videos.len()
        invariant
            out@ == search_results(videos@.take(i as int), main_url@),
    {
        assert(videos@.take(i + 1).drop_last() =~= videos@.take(i as int));
        let has_id = match &videos[i].video_id {
            Some(id) => !id.as_str().is_empty(),
            None => false,
        };
        if has_id {
            let item = render_result_item(&videos[i], main_url);
            out.append(item.as_str());
        }
    }
    assert(videos@.take(videos.len() as int) =~= videos@);
    out
}

/// `c` occurs in `s`.
pub open spec fn has_char(s: Seq<char>, c: char) -> bool {
    exists|i: int| 0 <= i < s.len() && s[i] == c
}

/// Whether `c` occurs in `s`.
pub fn has_char_exec(s: &str, c: char) -> (r: bool)
    ensures
        r == has_char(s@, c),
{
    let v = chars_of(s);
    for i in 0..v.len()
        invariant
            v@ == s@,
            forall|j: int| 0 <= j < i ==> v@[j] != c,
    {
        if v[i] == c {
            return true;
        }
    }
    false
}

/// The thumbnail shown for a related video: a default image when there is
/// none, else the URL with a `quality=default` hint added to its query.
pub open spec fn related_thumb(t: Seq<char>) -> Seq<char> {
    if t.len() == 0 {
        "/assets/images/mqdefault.webp"@
    } else if has_char(t, '?') {
        t + "&quality=default"@
    } else {
        t + "?quality=default"@
    }
}

/// One entry of the related list; `{}` slots take, in order, the watch URL,
/// video id, title, thumbnail, title, title, author, views.
pub const RELATED_ITEM: &'static str = r#"<li class="video-list-item related-list-item">
    <a href="{}" class="related-video spf-link yt-uix-sessionlink" data-sessionlink="feature=relmfu">
        <span class="yt-uix-simple-thumb-wrap yt-uix-simple-thumb-related" data-vid="{}">
            <img alt="{}" src="{}" width="120" height="90">
        </span>
        <span dir="ltr" class="title" title="{}">{}</span>
        <span class="stat attribution">{}</span>
        <span class="stat view-count">{}</span>
    </a>
</li>"#;

/// The related-list entry of `v`, every value escaped.
pub open spec fn related_item(v: RelatedVideo, main_url: Seq<char>) -> Seq<char> {
    let w = watch_url(main_url, v.video_id@);
    fill_slots(
        RELATED_ITEM@,
        escaped_all(seq![w, v.video_id@, v.title@, related_thumb(v.thumbnail@), v.title@, v.title@, v.author@, v.views@]),
    )
}

/// The related-list entries of `vs`, in order.
pub open spec fn related_list(vs: Seq<RelatedVideo>, main_url: Seq<char>) -> Seq<char>
    decreases vs.len(),
{
    if vs.len() == 0 {
        seq![]
    } else {
        related_list(vs.drop_last(), main_url) + related_item(vs.last(), main_url)
    }
}

fn related_thumb_exec(t: &str) -> (r: String)
    ensures
        r@ == related_thumb(t@),
{
    if t.is_empty() {
        "/assets/images/mqdefault.webp".to_owned()
    } else if has_char_exec(t, '?') {
        let mut u = t.to_owned();
        u.append("&quality=default");
        u
    } else {
        let mut u = t.to_owned();
        u.append("?quality=default");
        u
    }
}

fn render_related_item(v: &RelatedVideo, main_url: &str) -> (r: String)
    ensures
        r@ == related_item(*v, main_url@),
{
    let w = watch_url_exec(main_url, v.video_id.as_str());
    let thumb = related_thumb_exec(v.thumbnail.as_str());
    let args = vec![
        w.clone(),
        v.video_id.clone(),
        v.title.clone(),
        thumb,
        v.title.clone(),
        v.title.clone(),
        v.author.clone(),
        v.views.clone(),
    ];
    let esc = escape_all(&args);
    assert(views(args@) =~= seq![w@, v.video_id@, v.title@, related_thumb(v.thumbnail@), v.title@, v.title@, v.author@, v.views@]);
    fill_slots_exec(RELATED_ITEM, &esc)
}

/// The watch page's related list: one linked entry per video, in order.
pub fn render_related_list(videos: &Vec<RelatedVideo>, main_url: &str) -> (r: String)
    ensures
        r@ == related_list(videos@, main_url@),
{
    let mut out = String::new();
    for i in 0..videos.len()
        invariant
            out@ == related_list(videos@.take(i as int), main_url@),
    {
        let item = render_related_item(&videos[i], main_url);
        out.append(item.as_str());
        assert(videos@.take(i + 1).drop_last() =~= videos@.take(i as int));
    }
    assert(videos@.take(videos.len() as int) =~= videos@);
    out
}

/// How many comments the watch page shows at most.
pub const MAX_COMMENTS: usize = 20;

/// `<main>/channel?handle=<percent-encoded handle>`.
pub open spec fn channel_url(main_url: Seq<char>, handle: Seq<char>) -> Seq<char> {
    main_url + "/channel?handle="@ + url_encoded(handle)
}

/// The channel URL of `handle`.
pub fn channel_url_exec(main_url: &str, handle: &str) -> (r: String)
    ensures
        r@ == channel_url(main_url@, handle@),
{
    let mut u = main_url.to_owned();
    u.append("/channel?handle=");
    let enc = url_encode(handle);
    u.append(enc.as_str());
    u
}

/// The picture shown for a comment's author: a default one when there is
/// none.
pub open spec fn author_thumb(t: Seq<char>) -> Seq<char> {
    if t.len() == 0 {
        "/assets/images/photo.jpg"@
    } else {
        t
    }
}

/// One comment; `{}` slots take, in order, the author's channel URL,
/// picture, name, channel URL, name, publish time, and the text as HTML.
pub const COMMENT_ITEM: &'static str = r#"<div class="comment-item clearfix">
    <a href="{}" class="comment-author-thumb-link"><div class="comment-author-thumb">
        <img src="{}" alt="{}" width="48" height="48">
    </div></a>
    <div class="comment-body">
        <div class="comment-header">
            <a href="{}" class="comment-author">{}</a>
            <span class="comment-time">{}</span>
        </div>
        <div class="comment-text">{}</div>
    </div>
</div>"#;

/// The HTML of comment `c`: its values escaped, its text linkified.
pub open spec fn comment_item(c: Comment, main_url: Seq<char>) -> Seq<char> {
    let link = channel_url(main_url, c.author@);
    fill_slots(
        COMMENT_ITEM@,
        escaped_all(seq![link, author_thumb(c.author_thumbnail@), c.author@, link, c.author@, c.published_at@]).push(
            clickable(c.text@),
        ),
    )
}

/// The HTML of the comments `cs`, in order.
pub open spec fn comment_list(cs: Seq<Comment>, main_url: Seq<char>) -> Seq<char>
    decreases cs.len(),
{
    if cs.len() == 0 {
        seq![]
    } else {
        comment_list(cs.drop_last(), main_url) + comment_item(cs.last(), main_url)
    }
}

/// The HTML of the first `MAX_COMMENTS` of `cs`.
pub open spec fn comments_html(cs: Seq<Comment>, main_url: Seq<char>) -> Seq<char> {
    comment_list(cs.take(if cs.len() < MAX_COMMENTS { cs.len() as int } else { MAX_COMMENTS as int }), main_url)
}

fn render_comment(c: &Comment, main_url: &str) -> (r: String)
    ensures
        r@ == comment_item(*c, main_url@),
{
    let link = channel_url_exec(main_url, c.author.as_str());
    let thumb = if c.author_thumbnail.as_str().is_empty() {
        "/assets/images/photo.jpg".to_owned()
    } else {
        c.author_thumbnail.clone()
    };
    let args = vec![
        link.clone(),
        thumb,
        c.author.clone(),
        link.clone(),
        c.author.clone(),
        c.published_at.clone(),
    ];
    let mut esc = escape_all(&args);
    assert(views(args@) =~= seq![link@, author_thumb(c.author_thumbnail@), c.author@, link@, c.author@, c.published_at@]);
    let ghost e = views(esc@);
    esc.push(make_clickable(c.text.as_str()));
    assert(views(esc@) =~= e.push(clickable(c.text@)));
    fill_slots_exec(COMMENT_ITEM, &esc)
}

/// The comments block: the first `MAX_COMMENTS` comments, in order, each with
/// its author's channel link and its text linkified.
pub fn render_comments(comments: &Vec<Comment>, main_url: &str) -> (r: String)
    ensures
        r@ == comments_html(comments@, main_url@),
{
    let n: usize = if comments.len() < MAX_COMMENTS { comments.len() } else { MAX_COMMENTS };
    let mut out = String::new();
    for i in 0..n
        invariant
            n <= comments.len(),
            out@ == comment_list(comments@.take(i as int), main_url@),
    {
        let item = render_comment(&comments[i], main_url);
        out.append(item.as_str());
        assert(comments@.take(i + 1).drop_last() =~= comments@.take(i as int));
    }
    out
}

} // verus!
