//! Mapping a request's method and path to what the server does with it, and
//! the content type of a served file.
use vstd::prelude::*;
use crate::text::{chars_of, same_chars};

verus! {

/// The request methods that the server tells apart.
#[derive(Clone, Copy, Debug, PartialEq, Eq, Structural)]
pub enum Method {
    Get,
    Post,
    Options,
    Other,
}

/// What a request asks the server to do.
#[derive(Debug)]
pub enum Action {
    /// Send the file at this path, relative to the served directory.
    ServeStaticFile(String),
    ListEntries,
    SubmitEntry,
    GetVisitorCount,
    IncrementVisitorCount,
    Preflight,
    MethodNotAllowed,
    NotFound,
}

pub open spec fn visitor_count_path() -> Seq<char> {
    "/visitor_count"@
}

/// The file that a `GET` of `url` serves: the default document for `/`, the
/// path without its leading `/` otherwise.
pub open spec fn static_path(url: Seq<char>) -> Seq<char> {
    if url == "/"@ {
        "index.html"@
    } else if url.len() > 0 && url[0] == '/' {
        url.subrange(1, url.len() as int)
    } else {
        "page_not_found.html"@
    }
}

/// The file that a `GET` of `url` serves.
pub fn static_file_path(url: &str) -> (r: String)
    ensures
        r@ == static_path(url@),
{
    let u = chars_of(url);
    if same_chars(&u, &chars_of("/")) {
        String::from_str("index.html")
    } else if u.len() > 0 && u[0] == '/' {
        proof {
            reveal_strlit("/");
        }
        String::from_str(url.substring_char(1, u.len()))
    } else {
        proof {
            reveal_strlit("/");
        }
        String::from_str("page_not_found.html")
    }
}

/// What a request with method `m` and path `url` asks for.
pub fn dispatch(m: Method, url: &str) -> (r: Action)
    ensures
        match m {
            Method::Get => if url@ == "/entries"@ {
                r is ListEntries
            } else if url@ == visitor_count_path() {
                r is GetVisitorCount
            } else {
                r matches Action::ServeStaticFile(p) && p@ == static_path(url@)
            },
            Method::Post => if url@ == visitor_count_path() {
                r is IncrementVisitorCount
            } else {
                r is SubmitEntry
            },
            Method::Options => if url@ == visitor_count_path() {
                r is Preflight
            } else {
                r is NotFound
            },
            Method::Other => r is MethodNotAllowed,
        },
{
    let u = chars_of(url);
    let counter = same_chars(&u, &chars_of("/visitor_count"));
    match m {
        Method::Get => {
            if same_chars(&u, &chars_of("/entries")) {
                Action::ListEntries
            } else if counter {
                Action::GetVisitorCount
            } else {
                Action::ServeStaticFile(static_file_path(url))
            }
        },
        Method::Post => {
            if counter {
                Action::IncrementVisitorCount
            } else {
                Action::SubmitEntry
            }
        },
        Method::Options => {
            if counter {
                Action::Preflight
            } else {
                Action::NotFound
            }
        },
        Method::Other => Action::MethodNotAllowed,
    }
}

/// The position of the last `c` among the first `n` characters of `s`, or -1.
pub open spec fn last_pos(s: Seq<char>, c: char, n: int) -> int
    decreases n,
{
    if n <= 0 {
        -1
    } else if s[n - 1] == c {
        n - 1
    } else {
        last_pos(s, c, n - 1)
    }
}

/// Where the path's file name ends among the first `n` characters of `p`:
/// trailing `/` separators and trailing `.` segments are not part of it.
pub open spec fn name_end(p: Seq<char>, n: int) -> int
    decreases n,
{
    if n <= 0 {
        0
    } else if p[n - 1] == '/' {
        name_end(p, n - 1)
    } else if p[n - 1] == '.' && (n == 1 || p[n - 2] == '/') {
        name_end(p, n - 1)
    } else {
        n
    }
}

/// The extension of a path, as std's `Path::extension` gives it: the file
/// name is the last segment that is neither empty nor `.`; there is none for
/// `..`; otherwise it is what follows the name's last `.`, where that `.` is
/// not the name's first character.
pub open spec fn extension(p: Seq<char>) -> Option<Seq<char>> {
    let end = name_end(p, p.len() as int);
    let start = last_pos(p, '/', end) + 1;
    let dot = last_pos(p, '.', end);
    if p.subrange(start, end) == ".."@ {
        None
    } else if dot > start {
        Some(p.subrange(dot + 1, end))
    } else {
        None
    }
}

/// The content type sent for a file with extension `ext`.
pub open spec fn mime_type(ext: Option<Seq<char>>) -> Seq<char> {
    match ext {
        None => "text/plain"@,
        Some(e) => if e == "otf"@ {
            "font/otf"@
        } else if e == "gif"@ {
            "image/gif"@
        } else if e == "jpg"@ || e == "jpeg"@ {
            "image/jpeg"@
        } else if e == "png"@ {
            "image/png"@
        } else if e == "pdf"@ {
            "application/pdf"@
        } else if e == "htm"@ || e == "html"@ {
            "text/html; charset=utf8"@
        } else if e == "js"@ {
            "text/javascript"@
        } else if e == "css"@ {
            "text/css"@
        } else {
            "text/plain; charset=utf8"@
        },
    }
}

fn find_last(s: &Vec<char>, c: char, end: usize) -> (r: Option<usize>)
    requires
        end <= s@.len(),
    ensures
        match r {
            Some(k) => k == last_pos(s@, c, end as int) && k < end,
            None => last_pos(s@, c, end as int) == -1,
        },
{
    let mut n: usize = end;
    while n > 0
        invariant
            n <= end <= s@.len(),
            last_pos(s@, c, end as int) == last_pos(s@, c, n as int),
        decreases n,
    {
        if s[n - 1] == c {
            return Some(n - 1);
        }
        n -= 1;
    }
    None
}

fn file_name_end(s: &Vec<char>) -> (r: usize)
    ensures
        r == name_end(s@, s@.len() as int),
        r <= s@.len(),
{
    let mut n: usize = s.len();
    while n > 0
        invariant
            n <= s@.len(),
            name_end(s@, s@.len() as int) == name_end(s@, n as int),
        decreases n,
    {
        if s[n - 1] == '/' || (s[n - 1] == '.' && (n == 1 || s[n - 2] == '/')) {
            n -= 1;
        } else {
            return n;
        }
    }
    0
}

fn is_word(e: &Vec<char>, w: &str) -> (r: bool)
    ensures
        r == (e@ == w@),
{
    same_chars(e, &chars_of(w))
}

/// The content type of the file at `path`, chosen by its extension.
pub fn content_type(path: &str) -> (r: String)
    ensures
        r@ == mime_type(extension(path@)),
{
    let p = chars_of(path);
    let end = file_name_end(&p);
    let seg: usize = match find_last(&p, '/', end) {
        Some(k) => k + 1,
        None => 0,
    };
    if end >= 2 && seg == end - 2 && p[seg] == '.' && p[seg + 1] == '.' {
        proof {
            reveal_strlit("..");
            assert(p@.subrange(seg as int, end as int) =~= ".."@);
        }
        return String::from_str("text/plain");
    }
    assert(seg <= end);
    proof {
        reveal_strlit("..");
        let name = p@.subrange(seg as int, end as int);
        if name == ".."@ {
            assert(name.len() == 2);
            assert(name[0] == '.' && name[1] == '.');
            assert(p@[seg as int] == '.' && p@[seg + 1] == '.');
            assert(false);
        }
    }
    let dot: usize = match find_last(&p, '.', end) {
        Some(k) if k > seg => k,
        _ => {
            return String::from_str("text/plain");
        },
    };
    assert(extension(path@) == Some(p@.subrange(dot + 1, end as int)));
    let e = chars_of(path.substring_char(dot + 1, end));
    let t = if is_word(&e, "otf") {
        "font/otf"
    } else if is_word(&e, "gif") {
        "image/gif"
    } else if is_word(&e, "jpg") || is_word(&e, "jpeg") {
        "image/jpeg"
    } else if is_word(&e, "png") {
        "image/png"
    } else if is_word(&e, "pdf") {
        "application/pdf"
    } else if is_word(&e, "htm") || is_word(&e, "html") {
        "text/html; charset=utf8"
    } else if is_word(&e, "js") {
        "text/javascript"
    } else if is_word(&e, "css") {
        "text/css"
    } else {
        "text/plain; charset=utf8"
    };
    String::from_str(t)
}

} // verus!
