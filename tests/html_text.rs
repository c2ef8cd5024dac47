use retube::html::{anchor_html, escape, make_clickable};
use retube::text::{fill_slots_exec, fill_template, has_placeholder_exec, replace_all, trim};

#[test]
fn escape_replaces_every_special_character() {
    assert_eq!(
        escape("<a href=\"x\">Tom & Jerry's</a>"),
        "&lt;a href=&quot;x&quot;&gt;Tom &amp; Jerry&#x27;s&lt;/a&gt;"
    );
}

#[test]
fn escape_keeps_plain_text() {
    assert_eq!(escape("plain text / ok"), "plain text / ok");
    assert_eq!(escape(""), "");
}

fn unescape(s: &str) -> String {
    s.replace("&lt;", "<")
        .replace("&gt;", ">")
        .replace("&quot;", "\"")
        .replace("&#x27;", "'")
        .replace("&amp;", "&")
}

#[test]
fn escape_round_trips_and_leaves_no_raw_markup() {
    let t = "5 > 3 && \"a\" < 'b' &amp;";
    let e = escape(t);
    assert!(!e.contains('<') && !e.contains('>') && !e.contains('"') && !e.contains('\''));
    assert_eq!(unescape(&e), t);
}

#[test]
fn make_clickable_links_urls_and_breaks_lines() {
    let out = make_clickable("see https://example.com/a?b=1&c=2\nbye <now>");
    assert_eq!(
        out,
        "see <a href=\"https://example.com/a?b=1&amp;c=2\" target=\"_blank\" rel=\"noopener\">https://example.com/a?b=1&amp;c=2</a><br>bye &lt;now&gt;"
    );
}

#[test]
fn make_clickable_needs_a_character_after_the_scheme() {
    assert_eq!(make_clickable("http:// x"), "http:// x");
    assert_eq!(
        make_clickable("http://a"),
        "<a href=\"http://a\" target=\"_blank\" rel=\"noopener\">http://a</a>"
    );
}

#[test]
fn anchor_html_opens_a_new_context() {
    assert_eq!(
        anchor_html("u"),
        "<a href=\"u\" target=\"_blank\" rel=\"noopener\">u</a>"
    );
}

#[test]
fn replace_all_matches_str_replace() {
    assert_eq!(replace_all("a\nb\n\nc", "\n", "<br>"), "a<br>b<br><br>c");
    assert_eq!(replace_all("aaa", "aa", "b"), "ba");
}

#[test]
fn fill_slots_fills_in_order() {
    let args = vec!["x".to_string(), "y".to_string()];
    assert_eq!(fill_slots_exec("<{}|{}|{}>", &args), "<x|y|>");
}

#[test]
fn fill_template_replaces_every_token_once() {
    let tokens = vec!["{{A}}".to_string(), "{{B}}".to_string()];
    let values = vec!["{{B}}".to_string(), "2".to_string()];
    let out = fill_template("[{{A}}][{{B}}][{{A}}]", &tokens, &values);
    assert_eq!(out, "[{{B}}][2][{{B}}]");
    let done = fill_template("[{{B}}]", &tokens, &values);
    assert_eq!(done, "[2]");
    assert!(!has_placeholder_exec(&done));
    assert!(has_placeholder_exec(&out));
}

#[test]
fn trim_removes_unicode_white_space() {
    assert_eq!(trim("\u{3000} a b \t\n"), "a b");
    assert_eq!(trim("   "), "");
}
