//! Core logic of a terminal manga reader: a two-tier page cache
//! (in-memory LRU plus a byte-budgeted disk index), background-task
//! bookkeeping with retries and prefetching, navigation state, and a
//! debounced search box.
//!
//! Everything here is plain data and decisions; the surrounding binary
//! performs terminal drawing, networking and file access, and feeds the
//! results back in as values.

pub mod bookmarks;
pub mod cache;
pub mod imgio;
pub mod input;
pub mod mangadex;
pub mod tasks;
pub mod ui;
