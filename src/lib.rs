//! A small guestbook server's request logic: routing, submission parsing and
//! sanitising, entry rendering, response shapes and the shutdown lifecycle.
pub mod color;
pub mod lifecycle;
pub mod render;
pub mod reply;
pub mod route;
pub mod submission;
pub mod text;
