use guestbook::render::render_entries;
use guestbook::reply::{
    bad_request_reply, counted_reply, entries_reply, method_not_allowed_reply, not_found_reply,
    preflight_reply, visitor_count_reply,
};
use guestbook::submission::{accept_submission, Entry};

fn entry(name: &str, domain: &str, message: &str, color: &str, time: i64) -> Entry {
    Entry {
        name: name.to_string(),
        domain: domain.to_string(),
        message: message.to_string(),
        color: color.to_string(),
        time,
        public: true,
    }
}

fn pairs(h: &[(String, String)]) -> Vec<(&str, &str)> {
    h.iter().map(|(a, b)| (a.as_str(), b.as_str())).collect()
}

#[test]
fn empty_list_renders_container_only() {
    assert_eq!(render_entries(&Vec::new()), "<div id=\"entries\" hx-swap-oob=\"true\"></div>");
}

#[test]
fn one_entry_exact_markup() {
    let out = render_entries(&vec![entry("Ann", "https://ann.dev", "Hi", "#00ff00", 12)]);
    assert_eq!(
        out,
        "<div id=\"entries\" hx-swap-oob=\"true\"><div class=\"entry\"><div class=\"entry_name\">\
         <p style=\"color: #00ff00;\">Ann</p><a href=\"https://ann.dev\" target=\"_blank\" \
         style=\"color: lightgray;\"><span style=\"font-size: 0.7em; margin: 0px;\">@</span>ann.dev</a>\
         <p class=\"time\">12</p></div><p class=\"entry_message\">Hi</p></div></div>"
    );
}

#[test]
fn entry_without_domain_has_no_link() {
    let out = render_entries(&vec![entry("A", "https://", "m", "#000000", 0)]);
    assert!(!out.contains("<a "));
    let out = render_entries(&vec![entry("A", "ftp://x", "m", "#000000", 0)]);
    assert!(!out.contains("<a "));
}

#[test]
fn markup_is_escaped() {
    let out = render_entries(&vec![entry("<b>", "https://a.b", "x & \"y\"", "#000000", 1)]);
    assert!(out.contains(">&lt;b&gt;</p>"));
    assert!(out.contains(">x &amp; &quot;y&quot;</p>"));
    assert!(!out.contains("<b>"));
}

#[test]
fn negative_and_large_times() {
    let out = render_entries(&vec![entry("A", "", "m", "#000000", -42)]);
    assert!(out.contains("<p class=\"time\">-42</p>"));
    let out = render_entries(&vec![entry("A", "", "m", "#000000", i64::MIN)]);
    assert!(out.contains("<p class=\"time\">-9223372036854775808</p>"));
    let out = render_entries(&vec![entry("A", "", "m", "#000000", 1700000000)]);
    assert!(out.contains("<p class=\"time\">1700000000</p>"));
}

#[test]
fn entries_listed_newest_first() {
    let older = entry("first", "", "one", "#000000", 1);
    let newer = entry("second", "", "two", "#000000", 2);
    let out = render_entries(&vec![older, newer]);
    let a = out.find("second").unwrap();
    let b = out.find("first").unwrap();
    assert!(a < b);
}

#[test]
fn accepted_submission_is_listed_first() {
    let stored = vec![
        entry("old", "https://o.rg", "older", "#000000", 1),
        accept_submission("color=#ABCDEF&name=New&domain=new.dev&message=fresh", 2).unwrap(),
    ];
    let out = render_entries(&stored);
    assert!(out.starts_with(
        "<div id=\"entries\" hx-swap-oob=\"true\"><div class=\"entry\"><div class=\"entry_name\">\
         <p style=\"color: #ABCDEF;\">New</p><a href=\"https://new.dev\""
    ));
    assert!(out.find("fresh").unwrap() < out.find("older").unwrap());
}

#[test]
fn preflight_reply_exact() {
    let r = preflight_reply();
    assert_eq!(r.status, 204);
    assert_eq!(r.body, "");
    assert_eq!(
        pairs(&r.headers),
        vec![
            ("Access-Control-Allow-Origin", "*"),
            ("Access-Control-Allow-Methods", "POST, GET, OPTIONS"),
            ("Access-Control-Allow-Headers", "Content-Type"),
            ("Access-Control-Max-Age", "86400"),
        ]
    );
}

#[test]
fn not_found_reply_is_empty() {
    let r = not_found_reply();
    assert_eq!(r.status, 404);
    assert!(r.body.is_empty());
    assert!(r.headers.is_empty());
}

#[test]
fn other_error_replies() {
    assert_eq!(method_not_allowed_reply().status, 405);
    assert_eq!(bad_request_reply().status, 400);
}

#[test]
fn visitor_count_reply_body() {
    let r = visitor_count_reply(42);
    assert_eq!(r.status, 200);
    assert_eq!(r.body, "42");
    assert_eq!(
        pairs(&r.headers),
        vec![("Content-Type", "application/json"), ("Access-Control-Allow-Origin", "*")]
    );
    assert_eq!(visitor_count_reply(0).body, "0");
}

#[test]
fn counted_reply_has_cors_only() {
    let r = counted_reply();
    assert_eq!(r.status, 200);
    assert_eq!(r.body, "");
    assert_eq!(pairs(&r.headers), vec![("Access-Control-Allow-Origin", "*")]);
}

#[test]
fn entries_reply_status_and_type() {
    let r = entries_reply(&Vec::new(), 201);
    assert_eq!(r.status, 201);
    assert_eq!(pairs(&r.headers), vec![("Content-type", "text/css")]);
    assert_eq!(r.body, "<div id=\"entries\" hx-swap-oob=\"true\"></div>");
}

#[test]
fn times_shown_in_descending_order() {
    let out = render_entries(&vec![
        entry("a", "", "m", "#000000", 100),
        entry("b", "", "m", "#000000", 200),
        entry("c", "", "m", "#000000", 300),
    ]);
    let t3 = out.find("<p class=\"time\">300</p>").unwrap();
    let t2 = out.find("<p class=\"time\">200</p>").unwrap();
    let t1 = out.find("<p class=\"time\">100</p>").unwrap();
    assert!(t3 < t2 && t2 < t1);
}
