//! The HTML fragment that lists guestbook entries, newest first.
use vstd::prelude::*;
use crate::color::is_color_token;
use crate::submission::{Entry, EntryView, accept_spec, lemma_accepted_fields, scheme};
use crate::text::{lemma_occurs_at_end, lemma_occurs_extend, lemma_occurs_shift, occurs_at};
use crate::text::{chars_of, has_prefix, starts_with};

verus! {

/// The escaped form of one character.
pub open spec fn escape_char(c: char) -> Seq<char> {
    if c == '&' {
        "&amp;"@
    } else if c == '<' {
        "&lt;"@
    } else if c == '>' {
        "&gt;"@
    } else if c == '"' {
        "&quot;"@
    } else {
        seq![c]
    }
}

/// `s` with each of `&`, `<`, `>` and `"` replaced by its HTML entity.
pub open spec fn html_escape(s: Seq<char>) -> Seq<char>
    decreases s.len(),
{
    if s.len() == 0 {
        seq![]
    } else {
        html_escape(s.drop_last()) + escape_char(s.last())
    }
}

/// Relies on maud's `Render` impl for `str`: it escapes `&`, `<`, `>` and `"`
/// and passes every other character through.
#[verifier::external_body]
fn escape_html(s: &str) -> (r: String)
    ensures
        r@ == html_escape(s@),
{
    maud::Render::render(s).into_string()
}

/// The decimal digit for `d < 10`.
pub open spec fn digit(d: nat) -> char {
    "0123456789"@[d as int]
}

/// The decimal notation of `n`, without leading zeros.
pub open spec fn decimal(n: nat) -> Seq<char>
    decreases n,
{
    if n < 10 {
        seq![digit(n)]
    } else {
        decimal(n / 10) + seq![digit(n % 10)]
    }
}

/// The decimal notation of a signed integer.
pub open spec fn signed_decimal(t: int) -> Seq<char> {
    if t < 0 {
        "-"@ + decimal((-t) as nat)
    } else {
        decimal(t as nat)
    }
}

/// Appends the decimal notation of `n` to `out`.
pub fn push_decimal(out: &mut String, n: u64)
    ensures
        final(out)@ == old(out)@ + decimal(n as nat),
    decreases n,
{
    proof {
        reveal_strlit("0123456789");
    }
    let digits = "0123456789";
    if n >= 10 {
        push_decimal(out, n / 10);
    }
    let d = (n % 10) as usize;
    out.append(digits.substring_char(d, d + 1));
    assert(digits@.subrange(d as int, d + 1) =~= seq![digit((n % 10) as nat)]);
    assert(old(out)@ + decimal(n as nat) =~= final(out)@);
}

/// Appends the decimal notation of `t` to `out`, with a `-` before a negative value.
pub fn push_signed_decimal(out: &mut String, t: i64)
    ensures
        final(out)@ == old(out)@ + signed_decimal(t as int),
{
    if t < 0 {
        out.append("-");
        let m: u64 = (0 - (t as i128)) as u64;
        push_decimal(out, m);
        assert(old(out)@ + signed_decimal(t as int) =~= final(out)@);
    } else {
        push_decimal(out, t as u64);
    }
}

/// The domain shown beside an entry: the stored domain without its scheme,
/// or nothing where it lacks the scheme.
pub open spec fn shown_domain(d: Seq<char>) -> Seq<char> {
    if has_prefix(d, scheme()) {
        d.subrange(scheme().len() as int, d.len() as int)
    } else {
        seq![]
    }
}

/// The link to an entry's domain, or nothing for an empty domain.
pub open spec fn link_html(d: Seq<char>) -> Seq<char> {
    if d.len() == 0 {
        seq![]
    } else {
        "<a href=\""@ + html_escape(scheme() + d)
            + "\" target=\"_blank\" style=\"color: lightgray;\"><span style=\"font-size: 0.7em; margin: 0px;\">@</span>"@
            + html_escape(d) + "</a>"@
    }
}

/// The markup of one entry.
pub open spec fn entry_html(e: EntryView) -> Seq<char> {
    "<div class=\"entry\"><div class=\"entry_name\"><p style=\""@
        + html_escape("color: "@ + e.color + ";"@) + "\">"@ + html_escape(e.name) + "</p>"@
        + link_html(shown_domain(e.domain)) + "<p class=\"time\">"@
        + signed_decimal(e.time as int) + "</p></div><p class=\"entry_message\">"@
        + html_escape(e.message) + "</p></div>"@
}

/// The entries in the order they are shown: the last stored one first.
pub open spec fn newest_first(es: Seq<EntryView>) -> Seq<EntryView> {
    Seq::new(es.len(), |i: int| es[es.len() - 1 - i])
}

/// The markup of each entry of `es`, one after the other.
pub open spec fn concat_html(es: Seq<EntryView>) -> Seq<char>
    decreases es.len(),
{
    if es.len() == 0 {
        seq![]
    } else {
        concat_html(es.drop_last()) + entry_html(es.last())
    }
}

pub open spec fn list_open() -> Seq<char> {
    "<div id=\"entries\" hx-swap-oob=\"true\">"@
}

pub open spec fn list_close() -> Seq<char> {
    "</div>"@
}

/// The fragment listing `es` (in storage order), newest first.
pub open spec fn entries_html(es: Seq<EntryView>) -> Seq<char> {
    list_open() + concat_html(newest_first(es)) + list_close()
}

/// The views of the entries of `v`.
pub open spec fn views(v: Seq<Entry>) -> Seq<EntryView> {
    v.map_values(|e: Entry| e@)
}

/// Appends the link to a stored `domain`, if it has one to show.
fn push_link(out: &mut String, domain: &String)
    ensures
        final(out)@ == old(out)@ + link_html(shown_domain(domain@)),
{
    let dc = chars_of(domain.as_str());
    let sc = chars_of("https://");
    if !starts_with(&dc, &sc) {
        assert(old(out)@ + link_html(shown_domain(domain@)) =~= old(out)@);
        return;
    }
    proof {
        reveal_strlit("https://");
    }
    let shown = domain.as_str().substring_char(8, dc.len());
    if dc.len() == 8 {
        assert(shown@.len() == 0);
        assert(old(out)@ + link_html(shown_domain(domain@)) =~= old(out)@);
        return;
    }
    out.append("<a href=\"");
    let mut target = String::from_str("https://");
    target.append(shown);
    out.append(escape_html(target.as_str()).as_str());
    out.append(
        "\" target=\"_blank\" style=\"color: lightgray;\"><span style=\"font-size: 0.7em; margin: 0px;\">@</span>",
    );
    out.append(escape_html(shown).as_str());
    out.append("</a>");
    assert(old(out)@ + link_html(shown_domain(domain@)) =~= final(out)@);
}

/// Appends the markup of one entry.
pub fn push_entry(out: &mut String, e: &Entry)
    ensures
        final(out)@ == old(out)@ + entry_html(e@),
{
    out.append("<div class=\"entry\"><div class=\"entry_name\"><p style=\"");
    let mut style = String::from_str("color: ");
    style.append(e.color.as_str());
    style.append(";");
    out.append(escape_html(style.as_str()).as_str());
    out.append("\">");
    out.append(escape_html(e.name.as_str()).as_str());
    out.append("</p>");
    push_link(out, &e.domain);
    out.append("<p class=\"time\">");
    push_signed_decimal(out, e.time);
    out.append("</p></div><p class=\"entry_message\">");
    out.append(escape_html(e.message.as_str()).as_str());
    out.append("</p></div>");
    assert(old(out)@ + entry_html(e@) =~= final(out)@);
}

/// Renders `entries`, given in storage order, as the list fragment with the
/// newest entry first.
pub fn render_entries(entries: &Vec<Entry>) -> (r: String)
    ensures
        r@ == entries_html(views(entries@)),
{
    let ghost es = views(entries@);
    let ghost rs = newest_first(es);
    let mut out = String::from_str("<div id=\"entries\" hx-swap-oob=\"true\">");
    let n = entries.len();
    let mut j: usize = 0;
    while j < n
        invariant
            n == entries@.len(),
            es == views(entries@),
            rs == newest_first(es),
            j <= n,
            out@ == list_open() + concat_html(rs.subrange(0, j as int)),
        decreases n - j,
    {
        let e = &entries[n - 1 - j];
        push_entry(&mut out, e);
        proof {
            assert(rs.subrange(0, j + 1).drop_last() =~= rs.subrange(0, j as int));
            assert(rs.subrange(0, j + 1).last() == e@);
        }
        j += 1;
    }
    out.append("</div>");
    assert(rs.subrange(0, n as int) =~= rs);
    out
}

proof fn lemma_concat_prepend(e: EntryView, rs: Seq<EntryView>)
    ensures
        concat_html(seq![e] + rs) == entry_html(e) + concat_html(rs),
    decreases rs.len(),
{
    let s = seq![e] + rs;
    if rs.len() == 0 {
        assert(s.drop_last() =~= seq![]);
        assert(s.len() == 1 && s.last() == e);
        assert(concat_html(s.drop_last()) =~= seq![]);
        assert(concat_html(rs) =~= seq![]);
        assert(concat_html(s) =~= entry_html(e) + concat_html(rs));
    } else {
        lemma_concat_prepend(e, rs.drop_last());
        assert(s.drop_last() =~= seq![e] + rs.drop_last());
        assert(concat_html(s) =~= entry_html(e) + concat_html(rs));
    }
}

/// Entries are listed newest first: storing one more entry puts its markup
/// ahead of all the earlier ones, which keep their order.
pub proof fn lemma_newest_listed_first(stored: Seq<EntryView>, e: EntryView)
    ensures
        entries_html(stored.push(e)) == list_open() + entry_html(e) + concat_html(
            newest_first(stored),
        ) + list_close(),
{
    assert(newest_first(stored.push(e)) =~= seq![e] + newest_first(stored));
    lemma_concat_prepend(e, newest_first(stored));
    assert(entries_html(stored.push(e)) =~= list_open() + entry_html(e) + concat_html(
        newest_first(stored),
    ) + list_close());
}

/// Listed newest first, entries stored with times that never go down are
/// shown with times that never go up.
pub proof fn lemma_times_shown_descending(stored: Seq<EntryView>)
    requires
        forall|i: int, j: int| 0 <= i < j < stored.len() ==> stored[i].time <= stored[j].time,
    ensures
        forall|i: int, j: int|
            0 <= i < j < stored.len() ==> newest_first(stored)[i].time >= newest_first(
                stored,
            )[j].time,
{
}

proof fn lemma_entry_shows_text(e: EntryView)
    ensures
        exists|i: int| occurs_at(entry_html(e), html_escape(e.name), i),
        exists|i: int| occurs_at(entry_html(e), html_escape(e.message), i),
        shown_domain(e.domain).len() > 0 ==> exists|i: int|
            occurs_at(entry_html(e), html_escape(scheme() + shown_domain(e.domain)), i),
{
    let name = html_escape(e.name);
    let msg = html_escape(e.message);
    let a = "<div class=\"entry\"><div class=\"entry_name\"><p style=\""@ + html_escape(
        "color: "@ + e.color + ";"@,
    ) + "\">"@;
    let k = a.len() as int;
    lemma_occurs_at_end(a, name);
    let x1 = a + name;
    lemma_occurs_extend(x1, "</p>"@, name, k);
    let x2 = x1 + "</p>"@;
    lemma_occurs_extend(x2, link_html(shown_domain(e.domain)), name, k);
    let x3 = x2 + link_html(shown_domain(e.domain));
    lemma_occurs_extend(x3, "<p class=\"time\">"@, name, k);
    let x4 = x3 + "<p class=\"time\">"@;
    lemma_occurs_extend(x4, signed_decimal(e.time as int), name, k);
    let x5 = x4 + signed_decimal(e.time as int);
    lemma_occurs_extend(x5, "</p></div><p class=\"entry_message\">"@, name, k);
    let x6 = x5 + "</p></div><p class=\"entry_message\">"@;
    lemma_occurs_extend(x6, msg, name, k);
    lemma_occurs_at_end(x6, msg);
    let x7 = x6 + msg;
    lemma_occurs_extend(x7, "</p></div>"@, name, k);
    lemma_occurs_extend(x7, "</p></div>"@, msg, x6.len() as int);
    assert(entry_html(e) == x7 + "</p></div>"@);
    let d = shown_domain(e.domain);
    let href = html_escape(scheme() + d);
    let h: int = x2.len() + "<a href=\""@.len() as int;
    if d.len() > 0 {
        let l0 = "<a href=\""@;
        lemma_occurs_at_end(l0, href);
        lemma_occurs_extend(l0 + href, "\" target=\"_blank\" style=\"color: lightgray;\"><span style=\"font-size: 0.7em; margin: 0px;\">@</span>"@, href, l0.len() as int);
        let l2 = l0 + href + "\" target=\"_blank\" style=\"color: lightgray;\"><span style=\"font-size: 0.7em; margin: 0px;\">@</span>"@;
        lemma_occurs_extend(l2, html_escape(d), href, l0.len() as int);
        lemma_occurs_extend(l2 + html_escape(d), "</a>"@, href, l0.len() as int);
        assert(link_html(d) == l2 + html_escape(d) + "</a>"@);
        lemma_occurs_shift(x2, link_html(d), href, l0.len() as int);
        lemma_occurs_extend(x3, "<p class=\"time\">"@, href, h);
        lemma_occurs_extend(x4, signed_decimal(e.time as int), href, h);
        lemma_occurs_extend(x5, "</p></div><p class=\"entry_message\">"@, href, h);
        lemma_occurs_extend(x6, msg, href, h);
        lemma_occurs_extend(x7, "</p></div>"@, href, h);
    }
}

/// An accepted submission is stored public, with a valid color and with its
/// domain carrying the scheme; once stored, the list shows its name and its
/// message (escaped) ahead of every earlier entry, and links to its full
/// domain, scheme included, wherever there is more than the scheme.
pub proof fn lemma_accepted_entry_shown(raw: Seq<char>, time: i64, stored: Seq<EntryView>)
    requires
        accept_spec(raw, time) is Ok,
    ensures
        ({
            let e = accept_spec(raw, time)->Ok_0;
            let page = entries_html(stored.push(e));
            &&& e.public
            &&& e.time == time
            &&& has_prefix(e.domain, scheme())
            &&& is_color_token(e.color)
            &&& has_prefix(page, list_open() + entry_html(e))
            &&& exists|i: int| occurs_at(page, html_escape(e.name), i)
            &&& exists|i: int| occurs_at(page, html_escape(e.message), i)
            &&& e.domain.len() > scheme().len() ==> exists|i: int|
                occurs_at(page, html_escape(e.domain), i)
        }),
{
    let e = accept_spec(raw, time)->Ok_0;
    let page = entries_html(stored.push(e));
    lemma_accepted_fields(raw, time);
    lemma_newest_listed_first(stored, e);
    let head = list_open() + entry_html(e);
    let rest = concat_html(newest_first(stored)) + list_close();
    assert(page =~= head + rest);
    assert(page.subrange(0, head.len() as int) =~= head);
    lemma_entry_shows_text(e);
    let i = choose|i: int| occurs_at(entry_html(e), html_escape(e.name), i);
    lemma_occurs_shift(list_open(), entry_html(e), html_escape(e.name), i);
    lemma_occurs_extend(head, rest, html_escape(e.name), list_open().len() + i);
    let j = choose|j: int| occurs_at(entry_html(e), html_escape(e.message), j);
    lemma_occurs_shift(list_open(), entry_html(e), html_escape(e.message), j);
    lemma_occurs_extend(head, rest, html_escape(e.message), list_open().len() + j);
    if e.domain.len() > scheme().len() {
        let d = shown_domain(e.domain);
        assert(scheme() + d =~= e.domain);
        let k = choose|k: int| occurs_at(entry_html(e), html_escape(scheme() + d), k);
        lemma_occurs_shift(list_open(), entry_html(e), html_escape(e.domain), k);
        lemma_occurs_extend(head, rest, html_escape(e.domain), list_open().len() + k);
    }
}

} // verus!
