//! The top-videos query against the third-party catalog: reading the count
//! from the query string and turning the catalog's items into `TopVideo`s.
use vstd::prelude::*;
use crate::records::TopVideo;
use crate::render::or_empty;
use crate::text::{chars_of, push_char, trim_end_char, trim_end_matching, views};

verus! {

/// `s` cut at each `sep`, like `str::split`: `k` separators give `k + 1`
/// parts, and an empty `s` gives one empty part.
pub open spec fn split_on(s: Seq<char>, sep: char) -> Seq<Seq<char>>
    decreases s.len(),
{
    if s.len() == 0 {
        seq![seq![]]
    } else {
        let p = split_on(s.drop_last(), sep);
        if s.last() == sep {
            p.push(seq![])
        } else {
            p.update(p.len() - 1, p.last().push(s.last()))
        }
    }
}

proof fn lemma_split_nonempty(s: Seq<char>, sep: char)
    ensures
        split_on(s, sep).len() >= 1,
    decreases s.len(),
{
    if s.len() > 0 {
        lemma_split_nonempty(s.drop_last(), sep);
    }
}

/// `str::split` on one character.
pub fn split_char(s: &str, sep: char) -> (r: Vec<String>)
    ensures
        views(r@) == split_on(s@, sep),
{
    let v = chars_of(s);
    let mut parts: Vec<String> = Vec::new();
    let mut cur = String::new();
    for i in 0..v.len()
        invariant
            v@ == s@,
            views(parts@).push(cur@) == split_on(v@.take(i as int), sep),
    {
        proof {
            lemma_split_nonempty(v@.take(i as int), sep);
        }
        assert(v@.take(i + 1).drop_last() =~= v@.take(i as int));
        let ghost before = views(parts@).push(cur@);
        if v[i] == sep {
            let done = cur;
            parts.push(done);
            cur = String::new();
            assert(views(parts@).push(cur@) =~= before.push(seq![]));
        } else {
            push_char(&mut cur, v[i]);
            assert(views(parts@).push(cur@) =~= before.update(before.len() - 1, before.last().push(v@[i as int])));
        }
    }
    assert(v@.take(v.len() as int) =~= v@);
    parts.push(cur);
    parts
}

/// The number that the decimal digits `d` stand for.
pub open spec fn digits_value(d: Seq<char>) -> nat
    decreases d.len(),
{
    if d.len() == 0 {
        0
    } else {
        digits_value(d.drop_last()) * 10 + (d.last() as nat - '0' as nat) as nat
    }
}

/// Every character of `d` is an ASCII digit.
pub open spec fn all_digits(d: Seq<char>) -> bool {
    forall|i: int| 0 <= i < d.len() ==> '0' <= #[trigger] d[i] && d[i] <= '9'
}

/// What `str::parse::<i32>` reads from `s`: an optional `+` or `-` and then
/// one or more ASCII digits, whose value must fit in an `i32`.
pub open spec fn parsed_i32(s: Seq<char>) -> Option<int> {
    let neg = s.len() > 0 && s[0] == '-';
    let d = if s.len() > 0 && (s[0] == '-' || s[0] == '+') { s.skip(1) } else { s };
    let v: int = if neg { -digits_value(d) } else { digits_value(d) as int };
    if d.len() > 0 && all_digits(d) && i32::MIN <= v <= i32::MAX {
        Some(v)
    } else {
        None
    }
}

/// A cap above every `i32` magnitude, at which reading digits stops growing.
const DIGITS_CAP: u64 = 0x1_0000_0000;

/// Reads a decimal `i32` as `str::parse::<i32>` does.
pub fn parse_i32(s: &str) -> (r: Option<i32>)
    ensures
        match parsed_i32(s@) {
            Some(v) => r == Some(v as i32),
            None => r is None,
        },
{
    let v = chars_of(s);
    let neg = v.len() > 0 && v[0] == '-';
    let start: usize = if v.len() > 0 && (v[0] == '-' || v[0] == '+') { 1 } else { 0 };
    let ghost d = if s@.len() > 0 && (s@[0] == '-' || s@[0] == '+') { s@.skip(1) } else { s@ };
    assert(d =~= v@.skip(start as int));
    if start >= v.len() {
        return None;
    }
    let mut acc: u64 = 0;
    let mut i: usize = start;
    assert(v@.subrange(start as int, start as int) =~= seq![]);
    while i < v.len()
        invariant
            v@ == s@,
            start <= i <= v.len(),
            d == v@.skip(start as int),
            d == (if s@.len() > 0 && (s@[0] == '-' || s@[0] == '+') { s@.skip(1) } else { s@ }),
            neg == (s@.len() > 0 && s@[0] == '-'),
            all_digits(v@.subrange(start as int, i as int)),
            acc == (if digits_value(v@.subrange(start as int, i as int)) < DIGITS_CAP { digits_value(
                v@.subrange(start as int, i as int)) } else { DIGITS_CAP as nat }),
        decreases v.len() - i,
    {
        let c = v[i];
        if !('0' <= c && c <= '9') {
            assert(d[i - start] == v@[i as int]);
            assert(!all_digits(d));
            return None;
        }
        let ghost prev = digits_value(v@.subrange(start as int, i as int));
        assert(v@.subrange(start as int, i + 1).drop_last() =~= v@.subrange(start as int, i as int));
        let dv = (c as u32 - '0' as u32) as u64;
        let ghost next = digits_value(v@.subrange(start as int, i + 1));
        assert(next == prev * 10 + dv);
        if acc >= DIGITS_CAP {
            assert(next >= DIGITS_CAP) by (nonlinear_arith)
                requires prev >= DIGITS_CAP, next == prev * 10 + dv, dv >= 0;
        } else {
            let wide = acc * 10 + dv;
            acc = if wide >= DIGITS_CAP { DIGITS_CAP } else { wide };
        }
        i = i + 1;
    }
    assert(v@.subrange(start as int, v.len() as int) =~= d);
    if neg {
        if acc > 0x8000_0000 {
            None
        } else {
            Some((0 - (acc as i64)) as i32)
        }
    } else {
        if acc > 0x7fff_ffff {
            None
        } else {
            Some(acc as i32)
        }
    }
}

/// The count asked for when the query names none.
pub const DEFAULT_TOP_COUNT: i32 = 50;

/// The count named by the first `count=<i32>` pair of `pairs`, if any.
pub open spec fn count_in_pairs(pairs: Seq<Seq<char>>) -> Option<int>
    decreases pairs.len(),
{
    if pairs.len() == 0 {
        None
    } else {
        let kv = split_on(pairs[0], '=');
        if kv.len() >= 2 && kv[0] == "count"@ && parsed_i32(kv[1]) is Some {
            parsed_i32(kv[1])
        } else {
            count_in_pairs(pairs.skip(1))
        }
    }
}

/// `v` brought into `1..=50`.
pub open spec fn clamp_count(v: int) -> int {
    if v > 50 {
        50
    } else if v < 1 {
        1
    } else {
        v
    }
}

fn clamp_count_exec(v: i32) -> (r: i32)
    ensures
        r == clamp_count(v as int),
{
    if v > 50 {
        50
    } else if v < 1 {
        1
    } else {
        v
    }
}

/// The number of videos a raw query string asks for: the first `count`
/// parameter whose value reads as an `i32`, else `DEFAULT_TOP_COUNT`,
/// brought into `1..=50`.
pub open spec fn requested_count(query: Seq<char>) -> int {
    clamp_count(
        match count_in_pairs(split_on(query, '&')) {
            Some(v) => v,
            None => DEFAULT_TOP_COUNT as int,
        },
    )
}

/// Reads the number of videos from a raw query string such as
/// `count=10&x=y`.
pub fn top_videos_count(query: &str) -> (r: i32)
    ensures
        r == requested_count(query@),
        1 <= r <= 50,
{
    let pairs = split_char(query, '&');
    let ghost ps = views(pairs@);
    let count_key = "count".to_owned();
    let mut i: usize = 0;
    assert(ps.skip(0) =~= ps);
    while i < pairs.len()
        invariant
            ps == views(pairs@),
            ps == split_on(query@, '&'),
            count_key@ == "count"@,
            i <= pairs.len(),
            count_in_pairs(ps.skip(i as int)) == count_in_pairs(ps),
        decreases pairs.len() - i,
    {
        assert(ps.skip(i as int)[0] == pairs@[i as int]@);
        assert(ps.skip(i as int).skip(1) =~= ps.skip(i + 1));
        let kv = split_char(pairs[i].as_str(), '=');
        if kv.len() >= 2 && kv[0] == count_key {
            match parse_i32(kv[1].as_str()) {
                Some(v) => {
                    assert(views(kv@)[0] == kv@[0]@ && views(kv@)[1] == kv@[1]@);
                    return clamp_count_exec(v);
                },
                None => {},
            }
        }
        i = i + 1;
    }
    assert(ps.skip(i as int) =~= seq![]);
    clamp_count_exec(DEFAULT_TOP_COUNT)
}

/// What the catalog says of one video, as far as the top-videos query
/// reads it.
#[derive(Clone, Debug)]
pub struct ProviderItem {
    /// The item's `id`, where it is a string.
    pub id: Option<String>,
    /// The item has a `snippet`.
    pub has_snippet: bool,
    /// The snippet's `title`, where it is a string.
    pub title: Option<String>,
    /// The snippet's `channelTitle`, where it is a string.
    pub channel_title: Option<String>,
}

/// An item that becomes a video: it has a snippet and an id.
pub open spec fn is_listed_item(it: ProviderItem) -> bool {
    it.has_snippet && it.id is Some
}

/// The listed items of `items`, in order.
pub open spec fn listed_items(items: Seq<ProviderItem>) -> Seq<ProviderItem>
    decreases items.len(),
{
    if items.len() == 0 {
        seq![]
    } else if is_listed_item(items.last()) {
        listed_items(items.drop_last()).push(items.last())
    } else {
        listed_items(items.drop_last())
    }
}

/// `v` is the video made from `it`: defaults for a missing title or author,
/// and a thumbnail from the local proxy.
pub open spec fn is_video_of(v: TopVideo, it: ProviderItem, main_url: Seq<char>) -> bool {
    let id = match it.id {
        Some(x) => x@,
        None => seq![],
    };
    &&& v.video_id@ == id
    &&& v.title@ == match it.title {
        Some(t) => t@,
        None => "Unknown Title"@,
    }
    &&& v.author@ == match it.channel_title {
        Some(a) => a@,
        None => "Unknown Author"@,
    }
    &&& v.thumbnail@ == trim_end_char(main_url, '/') + "/thumbnail/"@ + id
    &&& v.channel_thumbnail@.len() == 0
    &&& v.duration@.len() == 0
}

/// The videos of the catalog's items: one per item that has a snippet and
/// an id, in order.
pub fn top_videos_from_items(items: &Vec<ProviderItem>, main_url: &str) -> (r: Vec<TopVideo>)
    ensures
        r@.len() == listed_items(items@).len(),
        forall|i: int| 0 <= i < r@.len() ==> is_video_of(#[trigger] r@[i], listed_items(items@)[i], main_url@),
{
    let base = trim_end_matching(main_url, '/');
    let mut out: Vec<TopVideo> = Vec::new();
    for i in 0..items.len()
        invariant
            base@ == trim_end_char(main_url@, '/'),
            out@.len() == listed_items(items@.take(i as int)).len(),
            forall|j: int| 0 <= j < out@.len() ==> is_video_of(#[trigger] out@[j], listed_items(items@.take(i as int))[j], main_url@),
    {
        assert(items@.take(i + 1).drop_last() =~= items@.take(i as int));
        let it = &items[i];
        if it.has_snippet && it.id.is_some() {
            let id = or_empty(&it.id);
            let title = match &it.title {
                Some(t) => t.clone(),
                None => "Unknown Title".to_owned(),
            };
            let author = match &it.channel_title {
                Some(a) => a.clone(),
                None => "Unknown Author".to_owned(),
            };
            let mut thumbnail = base.clone();
            thumbnail.append("/thumbnail/");
            thumbnail.append(id.as_str());
            let v = TopVideo {
                title,
                author,
                video_id: id,
                thumbnail,
                channel_thumbnail: String::new(),
                duration: String::new(),
            };
            out.push(v);
        }
    }
    assert(items@.take(items.len() as int) =~= items@);
    out
}

} // verus!
