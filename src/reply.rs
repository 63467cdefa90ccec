//! The responses that the server sends, as status, headers and body.
use vstd::prelude::*;
use crate::render::{entries_html, push_signed_decimal, render_entries, signed_decimal, views};
use crate::submission::Entry;

verus! {

/// A response: status code, header fields in order, and body text.
pub struct Reply {
    pub status: u16,
    pub headers: Vec<(String, String)>,
    pub body: String,
}

pub struct ReplyView {
    pub status: u16,
    pub headers: Seq<(Seq<char>, Seq<char>)>,
    pub body: Seq<char>,
}

impl View for Reply {
    type V = ReplyView;

    open spec fn view(&self) -> ReplyView {
        ReplyView {
            status: self.status,
            headers: self.headers@.map_values(|h: (String, String)| (h.0@, h.1@)),
            body: self.body@,
        }
    }
}

pub open spec fn allow_any_origin() -> (Seq<char>, Seq<char>) {
    ("Access-Control-Allow-Origin"@, "*"@)
}

/// The header fields of the answer to a preflight request.
pub open spec fn preflight_headers() -> Seq<(Seq<char>, Seq<char>)> {
    seq![
        allow_any_origin(),
        ("Access-Control-Allow-Methods"@, "POST, GET, OPTIONS"@),
        ("Access-Control-Allow-Headers"@, "Content-Type"@),
        ("Access-Control-Max-Age"@, "86400"@),
    ]
}

/// The header fields sent with the entries fragment.
pub open spec fn fragment_headers() -> Seq<(Seq<char>, Seq<char>)> {
    seq![("Content-type"@, "text/css"@)]
}

/// The header fields sent with the visitor count.
pub open spec fn count_headers() -> Seq<(Seq<char>, Seq<char>)> {
    seq![("Content-Type"@, "application/json"@), allow_any_origin()]
}

fn field(name: &str, value: &str) -> (r: (String, String))
    ensures
        r.0@ == name@,
        r.1@ == value@,
{
    (String::from_str(name), String::from_str(value))
}

/// A response with `status`, no header field and no body.
pub fn empty_reply(status: u16) -> (r: Reply)
    ensures
        r@ == (ReplyView { status, headers: seq![], body: seq![] }),
{
    let r = Reply { status, headers: Vec::new(), body: String::new() };
    assert(r@.headers =~= seq![]);
    r
}

/// 404, sent for a missing file or path; it carries nothing.
pub fn not_found_reply() -> (r: Reply)
    ensures
        r@ == (ReplyView { status: 404, headers: seq![], body: seq![] }),
{
    empty_reply(404)
}

/// 405, sent for a method that the server does not serve.
pub fn method_not_allowed_reply() -> (r: Reply)
    ensures
        r@ == (ReplyView { status: 405, headers: seq![], body: seq![] }),
{
    empty_reply(405)
}

/// 400, sent for a submission that cannot be read.
pub fn bad_request_reply() -> (r: Reply)
    ensures
        r@ == (ReplyView { status: 400, headers: seq![], body: seq![] }),
{
    empty_reply(400)
}

/// 500, sent where the store fails.
pub fn server_error_reply() -> (r: Reply)
    ensures
        r@ == (ReplyView { status: 500, headers: seq![], body: seq![] }),
{
    empty_reply(500)
}

/// 204 with the CORS allow-list for the visitor counter, and no body.
pub fn preflight_reply() -> (r: Reply)
    ensures
        r@ == (ReplyView { status: 204, headers: preflight_headers(), body: seq![] }),
{
    let mut headers: Vec<(String, String)> = Vec::new();
    headers.push(field("Access-Control-Allow-Origin", "*"));
    headers.push(field("Access-Control-Allow-Methods", "POST, GET, OPTIONS"));
    headers.push(field("Access-Control-Allow-Headers", "Content-Type"));
    headers.push(field("Access-Control-Max-Age", "86400"));
    let r = Reply { status: 204, headers, body: String::new() };
    assert(r@.headers =~= preflight_headers());
    r
}

/// 200 with the visitor count as decimal text.
pub fn visitor_count_reply(count: i64) -> (r: Reply)
    ensures
        r@ == (ReplyView { status: 200, headers: count_headers(), body: signed_decimal(count as int) }),
{
    let mut headers: Vec<(String, String)> = Vec::new();
    headers.push(field("Content-Type", "application/json"));
    headers.push(field("Access-Control-Allow-Origin", "*"));
    let mut body = String::new();
    push_signed_decimal(&mut body, count);
    let r = Reply { status: 200, headers, body };
    assert(r@.headers =~= count_headers());
    assert(r@.body =~= signed_decimal(count as int));
    r
}

/// 200 with no body, sent once the visitor count has gone up.
pub fn counted_reply() -> (r: Reply)
    ensures
        r@ == (ReplyView { status: 200, headers: seq![allow_any_origin()], body: seq![] }),
{
    let mut headers: Vec<(String, String)> = Vec::new();
    headers.push(field("Access-Control-Allow-Origin", "*"));
    let r = Reply { status: 200, headers, body: String::new() };
    assert(r@.headers =~= seq![allow_any_origin()]);
    r
}

/// The entries fragment with `status`: 200 for a listing, 201 after a submission.
pub fn entries_reply(entries: &Vec<Entry>, status: u16) -> (r: Reply)
    ensures
        r@ == (ReplyView {
            status,
            headers: fragment_headers(),
            body: entries_html(views(entries@)),
        }),
{
    let mut headers: Vec<(String, String)> = Vec::new();
    headers.push(field("Content-type", "text/css"));
    let r = Reply { status, headers, body: render_entries(entries) };
    assert(r@.headers =~= fragment_headers());
    r
}

} // verus!
