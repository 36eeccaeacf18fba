//! A local development server's core: resolving request paths safely under a
//! served root, injecting a reload client into HTML pages, and fanning change
//! notifications out to every connected browser session.

pub mod text;
pub mod rewrite;
pub mod reply;
pub mod path_guard;
pub mod sessions;
