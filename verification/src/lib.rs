//! Crawling a paginated post timeline for photo links and planning their
//! download under a bounded-concurrency policy.
//!
//! The library holds the verified core: the media filter that decides which
//! attachments yield a downloadable URL, the crawler state machine that
//! drives paginated retrieval with its stop conditions, and the downloader's
//! bookkeeping (task indices, progress slots, destination file names, and the
//! concurrency-capped scheduler). Network and file I/O live outside it.

pub mod crawler;
pub mod downloader;
pub mod filter;
pub mod text;
