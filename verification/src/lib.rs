//! A date-partitioned journal core: the path scheme that places an entry
//! under `root/YYYY/MM/DD-HHMMSS-slug.md`, title slugs, directory-name
//! validation, the entry template, and query resolution over directory
//! listings.
pub mod clock;
pub mod config;
pub mod dates;
pub mod entry;
pub mod errors;
pub mod folders;
pub mod query;
pub mod slug;
pub mod text;
