use guestbook::lifecycle::{next_visitor_count, Command, Coordinator, Event, Phase, POLL_LIMIT};
use guestbook::route::{content_type, dispatch, static_file_path, Action, Method};

#[test]
fn get_routes() {
    assert!(matches!(dispatch(Method::Get, "/entries"), Action::ListEntries));
    assert!(matches!(dispatch(Method::Get, "/visitor_count"), Action::GetVisitorCount));
    match dispatch(Method::Get, "/") {
        Action::ServeStaticFile(p) => assert_eq!(p, "index.html"),
        _ => panic!("expected a static file"),
    }
    match dispatch(Method::Get, "/css/site.css") {
        Action::ServeStaticFile(p) => assert_eq!(p, "css/site.css"),
        _ => panic!("expected a static file"),
    }
}

#[test]
fn post_routes() {
    assert!(matches!(dispatch(Method::Post, "/visitor_count"), Action::IncrementVisitorCount));
    assert!(matches!(dispatch(Method::Post, "/"), Action::SubmitEntry));
    assert!(matches!(dispatch(Method::Post, "/entries"), Action::SubmitEntry));
}

#[test]
fn options_and_other_routes() {
    assert!(matches!(dispatch(Method::Options, "/visitor_count"), Action::Preflight));
    assert!(matches!(dispatch(Method::Options, "/entries"), Action::NotFound));
    assert!(matches!(dispatch(Method::Other, "/"), Action::MethodNotAllowed));
}

#[test]
fn static_paths() {
    assert_eq!(static_file_path("/"), "index.html");
    assert_eq!(static_file_path("/a/b.png"), "a/b.png");
    assert_eq!(static_file_path("*"), "page_not_found.html");
    assert_eq!(static_file_path("/missing.html"), "missing.html");
}

#[test]
fn content_types() {
    assert_eq!(content_type("index.html"), "text/html; charset=utf8");
    assert_eq!(content_type("a/b.htm"), "text/html; charset=utf8");
    assert_eq!(content_type("img/x.jpeg"), "image/jpeg");
    assert_eq!(content_type("x.jpg"), "image/jpeg");
    assert_eq!(content_type("f.otf"), "font/otf");
    assert_eq!(content_type("g.gif"), "image/gif");
    assert_eq!(content_type("p.png"), "image/png");
    assert_eq!(content_type("d.pdf"), "application/pdf");
    assert_eq!(content_type("s.js"), "text/javascript");
    assert_eq!(content_type("s.css"), "text/css");
    assert_eq!(content_type("t.txt"), "text/plain; charset=utf8");
    assert_eq!(content_type("t.zip"), "text/plain; charset=utf8");
    assert_eq!(content_type("README"), "text/plain");
    assert_eq!(content_type(".hidden"), "text/plain");
    assert_eq!(content_type("dir.d/file"), "text/plain");
}

#[test]
fn interrupt_unblocks_every_worker_once() {
    let mut c = Coordinator::new(4);
    assert_eq!(c.step(Event::Poll { stopped: 0 }), Command::Wait { millis: 750 });
    assert_eq!(c.step(Event::Interrupt), Command::UnblockWorkers { count: 4 });
    assert_eq!(c.phase, Phase::ShuttingDown { polls: 0 });
    assert_eq!(c.step(Event::Interrupt), Command::Nothing);
}

#[test]
fn clean_shutdown_exits_zero() {
    let mut c = Coordinator::new(4);
    c.step(Event::Interrupt);
    assert_eq!(c.step(Event::Poll { stopped: 1 }), Command::Wait { millis: 1000 });
    assert_eq!(c.step(Event::Poll { stopped: 3 }), Command::Wait { millis: 1000 });
    assert_eq!(c.step(Event::Poll { stopped: 4 }), Command::Exit { code: 0 });
    assert_eq!(c.phase, Phase::Stopped { exit_code: 0 });
    assert_eq!(c.step(Event::Poll { stopped: 4 }), Command::Nothing);
}

#[test]
fn hung_worker_exits_one_after_limit() {
    let mut c = Coordinator::new(2);
    c.step(Event::Interrupt);
    for _ in 0..POLL_LIMIT {
        assert_eq!(c.step(Event::Poll { stopped: 1 }), Command::Wait { millis: 1000 });
    }
    assert_eq!(c.step(Event::Poll { stopped: 2 }), Command::Exit { code: 1 });
    assert_eq!(c.phase, Phase::Stopped { exit_code: 1 });
}

#[test]
fn last_poll_in_window_still_succeeds() {
    let mut c = Coordinator::new(2);
    c.step(Event::Interrupt);
    for _ in 0..POLL_LIMIT - 1 {
        c.step(Event::Poll { stopped: 0 });
    }
    assert_eq!(c.step(Event::Poll { stopped: 2 }), Command::Exit { code: 0 });
}

#[test]
fn visits_add_up() {
    let start: i64 = 17;
    let mut c = start;
    for _ in 0..25 {
        c = next_visitor_count(c);
    }
    assert_eq!(c, start + 25);
}

#[test]
fn visit_count_wraps() {
    assert_eq!(next_visitor_count(i64::MAX), i64::MIN);
    assert_eq!(next_visitor_count(-1), 0);
}

#[test]
fn content_type_ignores_trailing_separator() {
    assert_eq!(content_type("index.html/"), "text/html; charset=utf8");
    assert_eq!(content_type("a.html/"), content_type("b.html"));
    assert_eq!(content_type("a.css//"), "text/css");
}

#[test]
fn content_type_ignores_trailing_dot_segment() {
    assert_eq!(content_type("foo.txt/."), "text/plain; charset=utf8");
    assert_eq!(content_type("x/a.png/./."), "image/png");
    assert_eq!(content_type("."), "text/plain");
}

#[test]
fn content_type_of_parent_segment() {
    assert_eq!(content_type(".."), "text/plain");
    assert_eq!(content_type("a.css/.."), "text/plain");
    assert_eq!(content_type("docs.v2/"), "text/plain; charset=utf8");
    assert_eq!(content_type("..."), "text/plain; charset=utf8");
}
