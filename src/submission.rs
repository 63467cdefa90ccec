//! Guestbook submissions: decoding and parsing the posted form body, and the
//! entry that is stored for it.
use vstd::prelude::*;
use crate::color::{is_color_token, sanitized_color, validate_color};
use crate::text::{chars_of, find, first_index, has_prefix, starts_with};

verus! {

/// The scheme that every stored domain carries.
pub open spec fn scheme() -> Seq<char> {
    "https://"@
}

/// A domain as it is stored: prefixed with the scheme unless it already is.
pub open spec fn normalized_domain(d: Seq<char>) -> Seq<char> {
    if has_prefix(d, scheme()) {
        d
    } else {
        scheme() + d
    }
}

/// The fields of a parsed submission.
pub struct Submission {
    pub name: String,
    pub domain: String,
    pub message: String,
    pub color: String,
}

pub struct SubmissionView {
    pub name: Seq<char>,
    pub domain: Seq<char>,
    pub message: Seq<char>,
    pub color: Seq<char>,
}

impl View for Submission {
    type V = SubmissionView;

    open spec fn view(&self) -> SubmissionView {
        SubmissionView {
            name: self.name@,
            domain: self.domain@,
            message: self.message@,
            color: self.color@,
        }
    }
}

/// Why a decoded form body is not a submission.
#[derive(Clone, Copy, Debug, PartialEq, Eq, Structural)]
pub enum ParseError {
    /// The body does not begin with `color=` and seven more characters.
    MissingColor,
    /// No `&name=` marker.
    MissingName,
    /// No `&domain=` marker.
    MissingDomain,
    /// No `&message=` marker.
    MissingMessage,
    /// The markers stand in another order than color, name, domain, message.
    OutOfOrder,
}

/// Why a raw form body is not a submission.
#[derive(Clone, Copy, Debug, PartialEq, Eq, Structural)]
pub enum SubmitError {
    /// The percent-decoded bytes are not UTF-8.
    Undecodable,
    Malformed(ParseError),
}

/// One stored guestbook post.
pub struct Entry {
    pub name: String,
    pub domain: String,
    pub message: String,
    pub color: String,
    pub time: i64,
    pub public: bool,
}

pub struct EntryView {
    pub name: Seq<char>,
    pub domain: Seq<char>,
    pub message: Seq<char>,
    pub color: Seq<char>,
    pub time: i64,
    pub public: bool,
}

impl View for Entry {
    type V = EntryView;

    open spec fn view(&self) -> EntryView {
        EntryView {
            name: self.name@,
            domain: self.domain@,
            message: self.message@,
            color: self.color@,
            time: self.time,
            public: self.public,
        }
    }
}

/// The decoded body `color=CCCCCCC&name=N&domain=D&message=M`, read at the
/// first occurrence of each marker; the color is the seven characters after
/// `color=`, the message runs to the end.
pub open spec fn parse_spec(s: Seq<char>) -> Result<SubmissionView, ParseError> {
    if s.len() < 13 || !has_prefix(s, "color="@) {
        Err(ParseError::MissingColor)
    } else {
        match (first_index(s, "&name="@), first_index(s, "&domain="@), first_index(s, "&message="@)) {
            (None, _, _) => Err(ParseError::MissingName),
            (_, None, _) => Err(ParseError::MissingDomain),
            (_, _, None) => Err(ParseError::MissingMessage),
            (Some(n), Some(d), Some(m)) => {
                if n + 6 <= d && d + 8 <= m {
                    Ok(
                        SubmissionView {
                            name: s.subrange(n + 6 as int, d as int),
                            domain: normalized_domain(s.subrange(d + 8 as int, m as int)),
                            message: s.subrange(m + 9 as int, s.len() as int),
                            color: sanitized_color(s.subrange(6, 13)),
                        },
                    )
                } else {
                    Err(ParseError::OutOfOrder)
                }
            },
        }
    }
}

/// The entry stored for a submission at time `time`: always public.
pub open spec fn entry_of(v: SubmissionView, time: i64) -> EntryView {
    EntryView {
        name: v.name,
        domain: v.domain,
        message: v.message,
        color: v.color,
        time,
        public: true,
    }
}

/// Prefixes `d` with `https://` unless it already starts with it.
pub fn normalize_domain(d: &str) -> (r: String)
    ensures
        r@ == normalized_domain(d@),
        has_prefix(r@, scheme()),
{
    let dc = chars_of(d);
    let sc = chars_of("https://");
    if starts_with(&dc, &sc) {
        String::from_str(d)
    } else {
        let mut out = String::from_str("https://");
        out.append(d);
        assert((scheme() + d@).subrange(0, scheme().len() as int) =~= scheme());
        out
    }
}

/// Parses a decoded form body into its fields, sanitising the color and
/// normalising the domain.
pub fn parse_submission(body: &str) -> (r: Result<Submission, ParseError>)
    ensures
        match (r, parse_spec(body@)) {
            (Ok(x), Ok(v)) => x@ == v,
            (Err(e), Err(f)) => e == f,
            _ => false,
        },
{
    let s = chars_of(body);
    if s.len() < 13 || !starts_with(&s, &chars_of("color=")) {
        return Err(ParseError::MissingColor);
    }
    let n = find(&s, &chars_of("&name="));
    let d = find(&s, &chars_of("&domain="));
    let m = find(&s, &chars_of("&message="));
    proof {
        reveal_strlit("&name=");
        reveal_strlit("&domain=");
        reveal_strlit("&message=");
    }
    match (n, d, m) {
        (None, _, _) => Err(ParseError::MissingName),
        (_, None, _) => Err(ParseError::MissingDomain),
        (_, _, None) => Err(ParseError::MissingMessage),
        (Some(n), Some(d), Some(m)) => {
            if n <= d && d - n >= 6 && m >= d && m - d >= 8 {
                let color = validate_color(body.substring_char(6, 13));
                let name = String::from_str(body.substring_char(n + 6, d));
                let domain = normalize_domain(body.substring_char(d + 8, m));
                let message = String::from_str(body.substring_char(m + 9, s.len()));
                Ok(Submission { name, domain, message, color })
            } else {
                Err(ParseError::OutOfOrder)
            }
        },
    }
}

/// What percent-decoding `s` as UTF-8 gives, or `None` where the decoded
/// bytes are not UTF-8.
pub uninterp spec fn url_decoded(s: Seq<char>) -> Option<Seq<char>>;

/// Relies on `urlencoding::decode`: replaces each `%` and two hex digits by
/// that byte and reads the bytes as UTF-8 (an error where they are not); a `+`
/// stays as it is, and text without `%` comes back unchanged.
#[verifier::external_body]
fn percent_decode(s: &str) -> (r: Option<String>)
    ensures
        match r {
            Some(d) => url_decoded(s@) == Some(d@),
            None => url_decoded(s@) is None,
        },
        (forall|i: int| 0 <= i < s@.len() ==> s@[i] != '%') ==> r is Some && r->0@ == s@,
{
    match urlencoding::decode(s) {
        Ok(d) => Some(d.into_owned()),
        Err(_) => None,
    }
}

/// The entry that a raw (percent-encoded) form body asks to store at `time`.
pub open spec fn accept_spec(raw: Seq<char>, time: i64) -> Result<EntryView, SubmitError> {
    match url_decoded(raw) {
        None => Err(SubmitError::Undecodable),
        Some(d) => match parse_spec(d) {
            Ok(v) => Ok(entry_of(v, time)),
            Err(e) => Err(SubmitError::Malformed(e)),
        },
    }
}

/// A stored domain always carries the scheme.
pub proof fn lemma_normalized_has_scheme(d: Seq<char>)
    ensures
        has_prefix(normalized_domain(d), scheme()),
{
    if !has_prefix(d, scheme()) {
        assert((scheme() + d).subrange(0, scheme().len() as int) =~= scheme());
    }
}

/// What a parsed submission holds: the seven characters after `color=` when
/// they are a valid color token and `#000000` otherwise, and the text between
/// `&domain=` and `&message=` with the scheme put in front unless it is there.
pub proof fn lemma_parsed_color_and_domain(s: Seq<char>)
    requires
        parse_spec(s) is Ok,
    ensures
        ({
            let v = parse_spec(s)->Ok_0;
            let raw = s.subrange(6, 13);
            let d = first_index(s, "&domain="@)->Some_0;
            let m = first_index(s, "&message="@)->Some_0;
            let given = s.subrange(d + 8 as int, m as int);
            &&& v.color == (if is_color_token(raw) {
                raw
            } else {
                "#000000"@
            })
            &&& is_color_token(v.color)
            &&& v.domain == (if has_prefix(given, scheme()) {
                given
            } else {
                scheme() + given
            })
            &&& has_prefix(v.domain, scheme())
        }),
{
    reveal_strlit("#000000");
    assert(is_color_token("#000000"@));
    let d = first_index(s, "&domain="@)->Some_0;
    let m = first_index(s, "&message="@)->Some_0;
    lemma_normalized_has_scheme(s.subrange(d + 8 as int, m as int));
}

/// What every accepted submission stores: a public entry stamped with the
/// given time, whose domain carries the scheme and whose color is a valid token.
pub proof fn lemma_accepted_fields(raw: Seq<char>, time: i64)
    requires
        accept_spec(raw, time) is Ok,
    ensures
        ({
            let e = accept_spec(raw, time)->Ok_0;
            &&& e.public
            &&& e.time == time
            &&& has_prefix(e.domain, scheme())
            &&& is_color_token(e.color)
        }),
{
    reveal_strlit("#000000");
    let d = url_decoded(raw)->Some_0;
    let s = parse_spec(d);
    let n = first_index(d, "&domain="@)->Some_0;
    let m = first_index(d, "&message="@)->Some_0;
    lemma_normalized_has_scheme(d.subrange(n + 8 as int, m as int));
    assert(is_color_token("#000000"@));
}

/// Decodes a raw form body and builds the entry to store at `time`.
pub fn accept_submission(raw: &str, time: i64) -> (r: Result<Entry, SubmitError>)
    ensures
        match (r, accept_spec(raw@, time)) {
            (Ok(x), Ok(v)) => x@ == v,
            (Err(e), Err(f)) => e == f,
            _ => false,
        },
{
    match percent_decode(raw) {
        None => Err(SubmitError::Undecodable),
        Some(body) => match parse_submission(body.as_str()) {
            Ok(sub) => Ok(sub.into_entry(time)),
            Err(e) => Err(SubmitError::Malformed(e)),
        },
    }
}

impl Submission {
    /// The entry stored for this submission, stamped with `time`.
    pub fn into_entry(self, time: i64) -> (r: Entry)
        ensures
            r@ == entry_of(self@, time),
    {
        Entry {
            name: self.name,
            domain: self.domain,
            message: self.message,
            color: self.color,
            time,
            public: true,
        }
    }
}

} // verus!
