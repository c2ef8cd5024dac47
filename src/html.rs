//! HTML safety: escaping dynamic text, and turning plain text into escaped
//! HTML with line breaks and auto-linked URLs.
use vstd::prelude::*;
use crate::text::{fill_slots, fill_slots_exec, is_white_space, occurs_at, replace_all, replaced, views};

verus! {

/// The characters that `escaped` rewrites.
pub open spec fn is_html_special(c: char) -> bool {
    c == '&' || c == '<' || c == '>' || c == '"' || c == '\''
}

/// What one character becomes in escaped text.
pub open spec fn entity(c: char) -> Seq<char> {
    if c == '&' {
        seq!['&', 'a', 'm', 'p', ';']
    } else if c == '<' {
        seq!['&', 'l', 't', ';']
    } else if c == '>' {
        seq!['&', 'g', 't', ';']
    } else if c == '"' {
        seq!['&', 'q', 'u', 'o', 't', ';']
    } else if c == '\'' {
        seq!['&', '#', 'x', '2', '7', ';']
    } else {
        seq![c]
    }
}

/// `s` with each character replaced by its entity.
pub open spec fn escaped(s: Seq<char>) -> Seq<char>
    decreases s.len(),
{
    if s.len() == 0 {
        seq![]
    } else {
        entity(s[0]) + escaped(s.skip(1))
    }
}

/// `s` with each of the five entities that `escaped` writes turned back
/// into its character, scanning from the left.
pub open spec fn unescaped(s: Seq<char>) -> Seq<char>
    decreases s.len(),
{
    if s.len() == 0 {
        seq![]
    } else if occurs_at(s, 0, entity('&')) {
        seq!['&'] + unescaped(s.skip(5))
    } else if occurs_at(s, 0, entity('<')) {
        seq!['<'] + unescaped(s.skip(4))
    } else if occurs_at(s, 0, entity('>')) {
        seq!['>'] + unescaped(s.skip(4))
    } else if occurs_at(s, 0, entity('"')) {
        seq!['"'] + unescaped(s.skip(6))
    } else if occurs_at(s, 0, entity('\'')) {
        seq!['\''] + unescaped(s.skip(6))
    } else {
        seq![s[0]] + unescaped(s.skip(1))
    }
}

/// At index `i` of `e` begins one of the entities that `escaped` writes.
pub open spec fn entity_starts_at(e: Seq<char>, i: int) -> bool {
    occurs_at(e, i, entity('&')) || occurs_at(e, i, entity('<')) || occurs_at(e, i, entity('>'))
        || occurs_at(e, i, entity('"')) || occurs_at(e, i, entity('\''))
}

/// `e` holds no raw `<`, `>`, `"` or `'`, and each `&` in it begins an entity.
pub open spec fn is_html_safe(e: Seq<char>) -> bool {
    forall|i: int|
        0 <= i < e.len() ==> {
            &&& e[i] != '<' && e[i] != '>' && e[i] != '"' && e[i] != '\''
            &&& (e[i] == '&' ==> entity_starts_at(e, i))
        }
}

/// Relies on `html_escape::encode_quoted_attribute`: it writes `&`, `<`, `>`,
/// `"` and `'` as `&amp;`, `&lt;`, `&gt;`, `&quot;` and `&#x27;`, and keeps
/// every other character.
#[verifier::external_body]
pub(crate) fn h(s: &str) -> (r: String)
    ensures
        r@ == escaped(s@),
{
    html_escape::encode_quoted_attribute(s).into_owned()
}

/// Escapes `text` for element content and quoted attribute values.
pub fn escape(text: &str) -> (r: String)
    ensures
        r@ == escaped(text@),
{
    h(text)
}

proof fn lemma_unescape_entity(c: char, r: Seq<char>)
    ensures
        unescaped(entity(c) + r) == seq![c] + unescaped(r),
{
    let x = entity(c) + r;
    let n = entity(c).len() as int;
    assert(x.skip(n) =~= r);
    assert(x[0] == entity(c)[0]);
    if is_html_special(c) {
        assert(x.subrange(0, n) =~= entity(c));
        assert(x[1] == entity(c)[1]);
        assert(entity('&').len() <= x.len() ==> x.subrange(0, 5)[1] == x[1]);
        assert(entity('<').len() <= x.len() ==> x.subrange(0, 4)[1] == x[1]);
        assert(entity('>').len() <= x.len() ==> x.subrange(0, 4)[1] == x[1]);
        assert(entity('"').len() <= x.len() ==> x.subrange(0, 6)[1] == x[1]);
    } else {
        assert(x.len() >= 4 ==> x.subrange(0, 4)[0] == c);
        assert(x.len() >= 5 ==> x.subrange(0, 5)[0] == c);
        assert(x.len() >= 6 ==> x.subrange(0, 6)[0] == c);
        assert(x.skip(1) =~= r);
    }
}

/// Escaping loses nothing: unescaping the escaped text gives the text back.
pub proof fn lemma_unescape_escape(t: Seq<char>)
    ensures
        unescaped(escaped(t)) == t,
    decreases t.len(),
{
    if t.len() > 0 {
        lemma_unescape_escape(t.skip(1));
        lemma_unescape_entity(t[0], escaped(t.skip(1)));
        assert(seq![t[0]] + t.skip(1) =~= t);
    }
}

proof fn lemma_entity_safe(c: char, r: Seq<char>)
    requires
        is_html_safe(r),
    ensures
        is_html_safe(entity(c) + r),
{
    let e = entity(c) + r;
    let n = entity(c).len() as int;
    assert forall|i: int| 0 <= i < e.len() implies {
        &&& e[i] != '<' && e[i] != '>' && e[i] != '"' && e[i] != '\''
        &&& (e[i] == '&' ==> entity_starts_at(e, i))
    } by {
        if i < n {
            if i == 0 && is_html_special(c) {
                assert(e.subrange(0, n) =~= entity(c));
            }
        } else {
            assert(e[i] == r[i - n]);
            if r[i - n] == '&' {
                assert(entity_starts_at(r, i - n));
                let k = i - n;
                assert(k + 4 <= r.len() ==> e.subrange(i, i + 4) =~= r.subrange(k, k + 4));
                assert(k + 5 <= r.len() ==> e.subrange(i, i + 5) =~= r.subrange(k, k + 5));
                assert(k + 6 <= r.len() ==> e.subrange(i, i + 6) =~= r.subrange(k, k + 6));
            }
        }
    }
}

/// Escaped text holds no raw `<`, `>`, `"` or `'`, and each `&` in it
/// begins an entity.
pub proof fn lemma_escaped_is_safe(t: Seq<char>)
    ensures
        is_html_safe(escaped(t)),
    decreases t.len(),
{
    if t.len() > 0 {
        lemma_escaped_is_safe(t.skip(1));
        lemma_entity_safe(t[0], escaped(t.skip(1)));
    }
}

/// A character that ends a URL: white space or an angle bracket.
pub open spec fn ends_url(c: char) -> bool {
    is_white_space(c) || c == '<' || c == '>'
}

/// The number of characters from index `j` of `s` on before the first one
/// that ends a URL (or the end of `s`).
pub open spec fn url_run(s: Seq<char>, j: int) -> int
    decreases s.len() - j,
{
    if j < 0 || j >= s.len() || ends_url(s[j]) {
        0
    } else {
        1 + url_run(s, j + 1)
    }
}

/// The length of the URL that starts at index `i` of `s`: `http://` or
/// `https://` followed by one or more characters that do not end a URL,
/// taken as far as they go; 0 where no URL starts at `i`.
pub open spec fn url_len_at(s: Seq<char>, i: int) -> int {
    if occurs_at(s, i, seq!['h', 't', 't', 'p', 's', ':', '/', '/']) && url_run(s, i + 8) > 0 {
        8 + url_run(s, i + 8)
    } else if occurs_at(s, i, seq!['h', 't', 't', 'p', ':', '/', '/']) && url_run(s, i + 7) > 0 {
        7 + url_run(s, i + 7)
    } else {
        0
    }
}

/// The anchor element that links `u`, opening in a new browsing context.
pub const ANCHOR_HTML: &'static str = "<a href=\"{}\" target=\"_blank\" rel=\"noopener\">{}</a>";

/// The anchor element for `u`.
pub open spec fn anchor(u: Seq<char>) -> Seq<char> {
    fill_slots(ANCHOR_HTML@, seq![u, u])
}

/// `s` from index `i` on, with each URL found by a scan from the left
/// wrapped in an anchor. (A URL never runs past the end of `s`.)
pub open spec fn linked_from(s: Seq<char>, i: int) -> Seq<char>
    decreases s.len() - i,
{
    let n = url_len_at(s, i);
    if i < 0 || i >= s.len() {
        seq![]
    } else if n > 0 && i + n <= s.len() {
        anchor(s.subrange(i, i + n)) + linked_from(s, i + n)
    } else {
        seq![s[i]] + linked_from(s, i + 1)
    }
}

/// `s` with every URL wrapped in an anchor.
pub open spec fn linked(s: Seq<char>) -> Seq<char> {
    linked_from(s, 0)
}

/// What `make_clickable` makes of `t`.
pub open spec fn clickable(t: Seq<char>) -> Seq<char> {
    linked(replaced(escaped(t), "\n"@, "<br>"@))
}

/// The anchor element that links `u`.
pub fn anchor_html(u: &str) -> (r: String)
    ensures
        r@ == anchor(u@),
{
    let args = vec![u.to_owned(), u.to_owned()];
    assert(views(args@) =~= seq![u@, u@]);
    fill_slots_exec(ANCHOR_HTML, &args)
}

/// Relies on `regex::Regex::new` and `Regex::replace_all` with the pattern
/// `https?://[^\s<>]+`: matches are found leftmost-first without overlap,
/// `s?` and `+` are greedy, `\s` is Unicode `White_Space`; each match is
/// replaced by `anchor_html` of its text. The pattern is valid, so `new`
/// does not fail.
#[verifier::external_body]
fn link_urls(s: &str) -> (r: String)
    ensures
        r@ == linked(s@),
{
    let re = regex::Regex::new(r"https?://[^\s<>]+").unwrap();
    re.replace_all(s, |caps: &regex::Captures| anchor_html(&caps[0])).into_owned()
}

/// Escapes `text`, turns each newline into `<br>`, and wraps each URL in an
/// anchor.
pub fn make_clickable(text: &str) -> (r: String)
    ensures
        r@ == clickable(text@),
{
    let escaped_text = h(text);
    proof {
        reveal_strlit("\n");
    }
    let with_br = replace_all(escaped_text.as_str(), "\n", "<br>");
    link_urls(with_br.as_str())
}

/// Each of `v` escaped.
pub open spec fn escaped_all(v: Seq<Seq<char>>) -> Seq<Seq<char>> {
    v.map_values(|x: Seq<char>| escaped(x))
}

/// Escapes each of `v`.
pub fn escape_all(v: &Vec<String>) -> (r: Vec<String>)
    ensures
        views(r@) == escaped_all(views(v@)),
{
    let mut out: Vec<String> = Vec::new();
    for i in 0..v.len()
        invariant
            out@.len() == i,
            forall|j: int| 0 <= j < i ==> out@[j]@ == escaped(v@[j]@),
    {
        out.push(h(v[i].as_str()));
    }
    assert(views(out@) =~= escaped_all(views(v@)));
    out
}

/// What the percent-encoder `urlencoding::encode` makes of `s`.
pub uninterp spec fn url_encoded(s: Seq<char>) -> Seq<char>;

/// ASCII letters and digits, `-`, `.`, `_` and `~`: the characters that
/// percent-encoding keeps.
pub open spec fn is_url_unreserved(c: char) -> bool {
    ('0' <= c && c <= '9') || ('A' <= c && c <= 'Z') || ('a' <= c && c <= 'z') || c == '-' || c
        == '.' || c == '_' || c == '~'
}

/// Relies on `urlencoding::encode`: it percent-encodes each UTF-8 byte of
/// `s` but ASCII letters, digits, `-`, `.`, `_` and `~`, so a string made of
/// those alone comes back unchanged.
#[verifier::external_body]
pub(crate) fn url_encode(s: &str) -> (r: String)
    ensures
        r@ == url_encoded(s@),
        (forall|i: int| 0 <= i < s@.len() ==> is_url_unreserved(#[trigger] s@[i])) ==> r@ == s@,
{
    urlencoding::encode(s).into_owned()
}

} // verus!
