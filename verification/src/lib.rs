//! A crawler for the pages of one site. The crawl goes breadth first from a
//! seed, hands each page to the hooks that want it, and stops at a page
//! budget. It does no I/O of its own: the caller fetches the pages that the
//! crawl asks for.

pub mod ceo;
pub mod crawl;
pub mod link;
pub mod page;
pub mod spider;
pub mod text;
pub mod unique;
pub mod utils;
pub mod visited;
