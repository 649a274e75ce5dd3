//! The verified core of Leven, a static blog generator: posts are Markdown
//! files named `YYYY-MM-DD Title.md`, rendered through templates into a
//! site with a page per post, an archive and an index of the newest posts.
//!
//! The library decides; the program around it reads and writes files,
//! clones themes and shows messages.
use vstd::prelude::*;

pub mod build;
pub mod error;
pub mod init;
pub mod metadata;
pub mod post;
pub mod script;
pub mod slugs;
pub mod text;
pub mod theme;
pub mod util;

verus! {

} // verus!
