//! The channel page's logic: handle normalization, view counts, the
//! spotlight video and the grid of videos in rows.
use vstd::prelude::*;
use crate::html::{escape_all, escaped_all};
use crate::records::ChannelVideo;
use crate::render::{watch_url, watch_url_exec};
use crate::text::{
    chars_of, fill_slots, fill_slots_exec, is_white_space, occurs_at, string_of, trim, trim_start,
    trimmed, views,
};

verus! {

/// `s` without one leading `@`, or else without one leading `%40`.
pub open spec fn strip_handle_prefix(s: Seq<char>) -> Seq<char> {
    if s.len() > 0 && s[0] == '@' {
        s.skip(1)
    } else if occurs_at(s, 0, seq!['%', '4', '0']) {
        s.skip(3)
    } else {
        s
    }
}

/// The handle used in paths and queries: trimmed, then stripped of one
/// leading `@` or `%40`.
pub open spec fn normalized_handle(h: Seq<char>) -> Seq<char> {
    strip_handle_prefix(trimmed(h))
}

/// Trims `handle` and strips one leading `@` or, failing that, one leading
/// `%40`.
pub fn normalize_channel_handle(handle: &str) -> (r: String)
    ensures
        r@ == normalized_handle(handle@),
{
    let t = trim(handle);
    let v = chars_of(t.as_str());
    if v.len() > 0 && v[0] == '@' {
        string_of(&v, 1, v.len())
    } else if v.len() >= 3 && v[0] == '%' && v[1] == '4' && v[2] == '0' {
        assert(v@.subrange(0, 3) =~= seq!['%', '4', '0']);
        string_of(&v, 3, v.len())
    } else {
        assert(v@.len() >= 3 ==> v@.subrange(0, 3)[0] == v@[0] && v@.subrange(0, 3)[1] == v@[1]
            && v@.subrange(0, 3)[2] == v@[2]);
        assert(v@.subrange(0, v@.len() as int) =~= v@);
        string_of(&v, 0, v.len())
    }
}

proof fn lemma_trimmed_prefixed(p: Seq<char>, h: Seq<char>)
    requires
        p.len() > 0,
        !is_white_space(p[0]),
        forall|i: int| 0 <= i < p.len() ==> !is_white_space(#[trigger] p[i]),
        h.len() == 0 || !is_white_space(h.last()),
    ensures
        trimmed(p + h) == p + h,
{
    let x = p + h;
    assert(x[0] == p[0]);
    assert(trim_start(x) == x);
    if h.len() == 0 {
        assert(x.last() == p[p.len() - 1]);
    } else {
        assert(x.last() == h.last());
    }
}

/// A handle that has no surrounding white space and starts with neither `@`
/// nor `%40` comes back from normalization unchanged after a `@` or a `%40`
/// is put in front of it.
pub proof fn lemma_normalize_prefixed_handle(h: Seq<char>)
    requires
        h.len() == 0 || (!is_white_space(h[0]) && !is_white_space(h.last())),
        !(h.len() > 0 && h[0] == '@'),
        !occurs_at(h, 0, seq!['%', '4', '0']),
    ensures
        normalized_handle(seq!['@'] + h) == h,
        normalized_handle(seq!['%', '4', '0'] + h) == h,
{
    let at = seq!['@'];
    let pct = seq!['%', '4', '0'];
    lemma_trimmed_prefixed(at, h);
    lemma_trimmed_prefixed(pct, h);
    assert((at + h).skip(1) =~= h);
    assert((pct + h).subrange(0, 3) =~= pct);
    assert((pct + h).skip(3) =~= h);
}

/// Whether `c` is an ASCII digit.
pub open spec fn is_digit(c: char) -> bool {
    '0' <= c && c <= '9'
}

/// The number read from `s` onto `acc`: commas and spaces are skipped, each
/// digit is appended to the number, and the first other character ends it.
pub open spec fn view_count_from(s: Seq<char>, acc: nat) -> nat
    decreases s.len(),
{
    if s.len() == 0 {
        acc
    } else if s[0] == ',' || s[0] == ' ' {
        view_count_from(s.skip(1), acc)
    } else if is_digit(s[0]) {
        view_count_from(s.skip(1), (acc * 10 + s[0] as int - '0' as int) as nat)
    } else {
        acc
    }
}

/// The view count of a display string such as `1,234 views`, capped at the
/// largest `u64`.
pub open spec fn view_count(s: Seq<char>) -> nat {
    let n = view_count_from(s, 0);
    if n > u64::MAX {
        u64::MAX as nat
    } else {
        n
    }
}

/// Reads the view count of a display string: commas and spaces are
/// skipped, the digits up to the first other character make the number, and
/// a number past `u64::MAX` gives `u64::MAX`.
pub fn parse_views(views: &str) -> (r: u64)
    ensures
        r == view_count(views@),
{
    let v = chars_of(views);
    let mut n: u64 = 0;
    let ghost mut acc: nat = 0;
    let mut i: usize = 0;
    assert(v@.skip(0) =~= v@);
    while i < v.len()
        invariant
            v@ == views@,
            i <= v.len(),
            view_count_from(v@.skip(i as int), acc) == view_count_from(views@, 0),
            n == (if acc > u64::MAX { u64::MAX as nat } else { acc }),
        decreases v.len() - i,
    {
        let c = v[i];
        assert(v@.skip(i as int)[0] == c);
        assert(v@.skip(i as int).skip(1) =~= v@.skip(i + 1));
        if c == ',' || c == ' ' {
        } else if '0' <= c && c <= '9' {
            let d = (c as u32 - '0' as u32) as u64;
            proof {
                acc = (acc * 10 + c as int - '0' as int) as nat;
            }
            let wide: u128 = n as u128 * 10 + d as u128;
            n = if wide > u64::MAX as u128 { u64::MAX } else { wide as u64 };
        } else {
            return n;
        }
        i = i + 1;
    }
    assert(v@.skip(i as int) =~= seq![]);
    n
}

/// A video that can be shown in a list: it has a video id.
pub open spec fn eligible(v: ChannelVideo) -> bool {
    v.video_id@.len() > 0
}

/// The parsed view count of `v`.
pub open spec fn video_views(v: ChannelVideo) -> nat {
    view_count(v.views@)
}

/// The spotlight video of `vs`, found by a scan in list order that keeps an
/// eligible video whenever its count is at least that of the one kept.
pub open spec fn spotlight(vs: Seq<ChannelVideo>) -> Option<int>
    decreases vs.len(),
{
    if vs.len() == 0 {
        None
    } else {
        let prev = spotlight(vs.drop_last());
        let last = vs.len() - 1;
        if eligible(vs[last]) && match prev {
            None => true,
            Some(b) => video_views(vs[b]) <= video_views(vs[last]),
        } {
            Some(last)
        } else {
            prev
        }
    }
}

/// Video `i` of `vs` is eligible, no eligible video has more views, and
/// every eligible video after it has fewer.
pub open spec fn is_most_viewed_last(vs: Seq<ChannelVideo>, i: int) -> bool {
    &&& 0 <= i < vs.len()
    &&& eligible(vs[i])
    &&& forall|j: int| 0 <= j < vs.len() && eligible(#[trigger] vs[j]) ==> video_views(vs[j]) <= video_views(vs[i])
    &&& forall|j: int| i < j < vs.len() && eligible(#[trigger] vs[j]) ==> video_views(vs[j]) < video_views(vs[i])
}

/// The spotlight is the eligible video with the most views, the later one
/// where counts are equal; there is none only where no video is eligible.
pub proof fn lemma_spotlight_is_most_viewed(vs: Seq<ChannelVideo>)
    ensures
        match spotlight(vs) {
            Some(i) => is_most_viewed_last(vs, i),
            None => forall|j: int| 0 <= j < vs.len() ==> !eligible(#[trigger] vs[j]),
        },
    decreases vs.len(),
{
    if vs.len() > 0 {
        let p = vs.drop_last();
        lemma_spotlight_is_most_viewed(p);
        assert forall|j: int| 0 <= j < p.len() implies p[j] == vs[j] by {}
    }
}

/// Finds the spotlight video of `videos`.
pub fn spotlight_index(videos: &Vec<ChannelVideo>) -> (r: Option<usize>)
    ensures
        match r {
            Some(i) => spotlight(videos@) == Some(i as int),
            None => spotlight(videos@) is None,
        },
{
    let mut best: Option<usize> = None;
    let mut best_views: u64 = 0;
    for i in 0..videos.len()
        invariant
            match best {
                Some(b) => spotlight(videos@.take(i as int)) == Some(b as int) && b < i && best_views
                    == video_views(videos@[b as int]),
                None => spotlight(videos@.take(i as int)) is None,
            },
    {
        assert(videos@.take(i + 1).drop_last() =~= videos@.take(i as int));
        let v = &videos[i];
        let n = parse_views(v.views.as_str());
        if !v.video_id.as_str().is_empty() {
            let better = match best {
                None => true,
                Some(_) => best_views <= n,
            };
            if better {
                best = Some(i);
                best_views = n;
            }
        }
    }
    assert(videos@.take(videos.len() as int) =~= videos@);
    best
}

/// `<main>/embed/<id>`.
pub open spec fn embed_url(main_url: Seq<char>, id: Seq<char>) -> Seq<char> {
    main_url + "/embed/"@ + id
}

/// The embed URL of video `id`.
pub fn embed_url_exec(main_url: &str, id: &str) -> (r: String)
    ensures
        r@ == embed_url(main_url@, id@),
{
    let mut u = main_url.to_owned();
    u.append("/embed/");
    u.append(id);
    u
}

/// The spotlight block; `{}` slots take, in order, the embed URL, watch URL,
/// title, views, publish time.
pub const SPOTLIGHT: &'static str = r#"<div class="c4-spotlight-module yt-section-hover-container">
      <div class="c4-spotlight-module-component upsell">
  <div class="upsell-video-container yt-section-hover-container">
          <div class="video-player-view-component branded-page-box">
    <div class="video-content clearfix ">
        <div class="c4-player-container c4-flexible-player-container">
      <div class="c4-flexible-height-setter"></div>
      <div id="upsell-video" class="c4-flexible-player-box">
        <iframe width="100%" height="100%" src="{}" allowfullscreen></iframe>
      </div>
  </div>
        <div class="video-detail">
      <h3 class="title">
        <a href="{}" class="yt-uix-sessionlink yt-ui-ellipsis yt-ui-ellipsis-2 spf-link">{}</a>
      </h3>
      <div class="view-count">
        <span class="count">{} views</span>
        <span class="content-item-time-created">{}</span>
      </div>
  </div>
      <div class="video-content-info"></div>
    </div>
  </div>
  </div>
      </div>"#;

/// The block shown where a channel has no video to put in the spotlight.
pub const NO_SPOTLIGHT: &'static str = r#"<div class="c4-spotlight-module yt-section-hover-container">
      <div class="c4-spotlight-module-component upsell">
  <div class="upsell-video-container yt-section-hover-container">
          <div class="video-player-view-component branded-page-box">
    <div class="video-content clearfix ">
        <div class="c4-player-container c4-flexible-player-container">
      <div class="c4-flexible-height-setter"></div>
      <div id="upsell-video" class="c4-flexible-player-box">
        <p>No spotlight video available</p>
      </div>
  </div>
        <div class="video-detail">
      <h3 class="title"><span>No videos found</span></h3>
      <div class="view-count"><span class="count">0 views</span></div>
    </div>
      <div class="video-content-info"></div>
    </div>
  </div>
  </div>
      </div>"#;

/// The spotlight block of `v`, every value escaped.
pub open spec fn spotlight_item(v: ChannelVideo, main_url: Seq<char>) -> Seq<char> {
    fill_slots(
        SPOTLIGHT@,
        escaped_all(seq![embed_url(main_url, v.video_id@), watch_url(main_url, v.video_id@), v.title@, v.views@, v.published_at@]),
    )
}

/// The spotlight HTML of a channel's videos.
pub open spec fn spotlight_html(vs: Seq<ChannelVideo>, main_url: Seq<char>) -> Seq<char> {
    match spotlight(vs) {
        Some(i) => spotlight_item(vs[i], main_url),
        None => NO_SPOTLIGHT@,
    }
}

/// The spotlight block: the most viewed eligible video in an embedded
/// player, or a fixed empty block where there is none.
pub fn render_spotlight_html(videos: &Vec<ChannelVideo>, main_url: &str) -> (r: String)
    ensures
        r@ == spotlight_html(videos@, main_url@),
{
    proof {
        lemma_spotlight_is_most_viewed(videos@);
    }
    match spotlight_index(videos) {
        Some(i) => {
            let v = &videos[i];
            let e = embed_url_exec(main_url, v.video_id.as_str());
            let w = watch_url_exec(main_url, v.video_id.as_str());
            let args = vec![e, w, v.title.clone(), v.views.clone(), v.published_at.clone()];
            assert(views(args@) =~= seq![embed_url(main_url@, v.video_id@), watch_url(main_url@, v.video_id@), v.title@, v.views@, v.published_at@]);
            let esc = escape_all(&args);
            fill_slots_exec(SPOTLIGHT, &esc)
        },
        None => NO_SPOTLIGHT.to_owned(),
    }
}

/// How many videos one row of the channel grid holds.
pub const VIDEOS_PER_ROW: usize = 6;

/// The thumbnail shown for a channel video: a default image when there is
/// none.
pub open spec fn channel_thumb(t: Seq<char>) -> Seq<char> {
    if t.len() == 0 {
        "/assets/images/mqdefault.webp"@
    } else {
        t
    }
}

/// One entry of the channel grid; `{}` slots take, in order, the watch URL,
/// thumbnail, title, duration, watch URL, title, title, views, publish time.
pub const CHANNEL_ITEM: &'static str = r#"<li class="channels-content-item yt-shelf-grid-item yt-uix-shelfslider-item">
    <div class="yt-lockup clearfix yt-lockup-video yt-lockup-grid">
        <div class="yt-lockup-thumbnail">
            <a href="{}" class="ux-thumb-wrap yt-uix-sessionlink yt-fluid-thumb-link contains-addto spf-link">
                <span class="video-thumb yt-thumb yt-thumb-185 yt-thumb-fluid">
                    <span class="yt-thumb-default">
                        <span class="yt-thumb-clip">
                            <img src="{}" alt="{}" width="185">
                            <span class="vertical-align"></span>
                        </span>
                    </span>
                </span>
                <span class="video-time">{}</span>
            </a>
        </div>
        <div class="yt-lockup-content">
            <h3 class="yt-lockup-title"><a href="{}" class="yt-uix-sessionlink yt-uix-tile-link spf-link yt-ui-ellipsis yt-ui-ellipsis-2" dir="ltr" title="{}">{}</a></h3>
            <div class="yt-lockup-meta">
                <ul class="yt-lockup-meta-info">
                    <li>{} views</li>
                    <li class="yt-lockup-deemphasized-text">{}</li>
                </ul>
            </div>
        </div>
    </div>
</li>"#;

/// The grid entry of `v`, every value escaped.
pub open spec fn channel_item(v: ChannelVideo, main_url: Seq<char>) -> Seq<char> {
    let w = watch_url(main_url, v.video_id@);
    fill_slots(
        CHANNEL_ITEM@,
        escaped_all(seq![w, channel_thumb(v.thumbnail@), v.title@, v.duration@, w, v.title@, v.title@, v.views@, v.published_at@]),
    )
}

/// The grid entry of one channel video.
pub fn render_channel_video_item(v: &ChannelVideo, main_url: &str) -> (r: String)
    ensures
        r@ == channel_item(*v, main_url@),
{
    let w = watch_url_exec(main_url, v.video_id.as_str());
    let thumb = if v.thumbnail.as_str().is_empty() {
        "/assets/images/mqdefault.webp".to_owned()
    } else {
        v.thumbnail.clone()
    };
    let args = vec![
        w.clone(),
        thumb,
        v.title.clone(),
        v.duration.clone(),
        w.clone(),
        v.title.clone(),
        v.title.clone(),
        v.views.clone(),
        v.published_at.clone(),
    ];
    assert(views(args@) =~= seq![w@, channel_thumb(v.thumbnail@), v.title@, v.duration@, w@, v.title@, v.title@, v.views@, v.published_at@]);
    let esc = escape_all(&args);
    fill_slots_exec(CHANNEL_ITEM, &esc)
}

/// The grid entries of `vs`, in order.
pub open spec fn channel_items(vs: Seq<ChannelVideo>, main_url: Seq<char>) -> Seq<char>
    decreases vs.len(),
{
    if vs.len() == 0 {
        seq![]
    } else {
        channel_items(vs.drop_last(), main_url) + channel_item(vs.last(), main_url)
    }
}

/// The opening of one row of the channel grid.
pub const ROW_OPEN: &'static str = "<ul class=\"yt-uix-shelfslider-list\">\n";

/// The end of one row of the channel grid.
pub const ROW_CLOSE: &'static str = "</ul>\n";

/// The notice shown for a channel without videos.
pub const NO_VIDEOS: &'static str = r#"<ul class="yt-uix-shelfslider-list">
                <div class="yt-alert yt-alert-default"><div class="yt-alert-content">No videos found for this channel.</div></div>
            </ul>"#;

/// One row container holding the entries of `vs`.
pub open spec fn channel_row(vs: Seq<ChannelVideo>, main_url: Seq<char>) -> Seq<char> {
    ROW_OPEN@ + channel_items(vs, main_url) + ROW_CLOSE@
}

/// `vs` cut into rows of `VIDEOS_PER_ROW` (the last may be shorter), each
/// row in its own container.
pub open spec fn channel_rows(vs: Seq<ChannelVideo>, main_url: Seq<char>) -> Seq<char>
    decreases vs.len(),
{
    if vs.len() == 0 {
        seq![]
    } else if vs.len() <= VIDEOS_PER_ROW {
        channel_row(vs, main_url)
    } else {
        channel_row(vs.take(VIDEOS_PER_ROW as int), main_url) + channel_rows(vs.skip(VIDEOS_PER_ROW as int), main_url)
    }
}

/// The channel grid of `vs`: the rows, or a notice where there are no videos.
pub open spec fn channel_videos_html(vs: Seq<ChannelVideo>, main_url: Seq<char>) -> Seq<char> {
    if vs.len() == 0 {
        NO_VIDEOS@
    } else {
        channel_rows(vs, main_url)
    }
}

/// The channel grid: videos in rows of `VIDEOS_PER_ROW`, each row in its own
/// container; a single notice where there are no videos.
pub fn render_channel_videos(videos: &Vec<ChannelVideo>, main_url: &str) -> (r: String)
    ensures
        r@ == channel_videos_html(videos@, main_url@),
{
    if videos.len() == 0 {
        return NO_VIDEOS.to_owned();
    }
    let ghost vs = videos@;
    let ghost m = main_url@;
    let mut out = String::new();
    let mut i: usize = 0;
    assert(vs.skip(0) =~= vs);
    assert(out@ + channel_rows(vs, m) =~= channel_rows(vs, m));
    while i < videos.len()
        invariant
            vs == videos@,
            m == main_url@,
            i <= videos.len(),
            out@ + channel_rows(vs.skip(i as int), m) == channel_rows(vs, m),
        decreases videos.len() - i,
    {
        let end: usize = if videos.len() - i <= VIDEOS_PER_ROW { videos.len() } else { i + VIDEOS_PER_ROW };
        let mut row = String::new();
        let mut k: usize = i;
        assert(vs.subrange(i as int, i as int) =~= seq![]);
        while k < end
            invariant
                vs == videos@,
                m == main_url@,
                i <= k <= end <= videos.len(),
                row@ == channel_items(vs.subrange(i as int, k as int), m),
            decreases end - k,
        {
            let item = render_channel_video_item(&videos[k], main_url);
            row.append(item.as_str());
            assert(vs.subrange(i as int, k + 1).drop_last() =~= vs.subrange(i as int, k as int));
            k = k + 1;
        }
        let ghost rest = vs.skip(i as int);
        let ghost before = out@;
        out.append(ROW_OPEN);
        out.append(row.as_str());
        out.append(ROW_CLOSE);
        if videos.len() - i <= VIDEOS_PER_ROW {
            assert(vs.subrange(i as int, end as int) =~= rest);
            assert(vs.skip(end as int) =~= seq![]);
            assert(out@ =~= before + channel_row(rest, m));
        } else {
            assert(vs.subrange(i as int, end as int) =~= rest.take(VIDEOS_PER_ROW as int));
            assert(vs.skip(end as int) =~= rest.skip(VIDEOS_PER_ROW as int));
            assert(out@ =~= before + channel_row(rest.take(VIDEOS_PER_ROW as int), m));
        }
        assert(out@ + channel_rows(vs.skip(end as int), m) =~= before + channel_rows(rest, m));
        i = end;
    }
    assert(vs.skip(i as int) =~= seq![]);
    out
}

} // verus!
