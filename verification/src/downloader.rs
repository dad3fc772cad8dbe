//! The bounded concurrent downloader's verified bookkeeping.
//!
//! Downloading itself is network and file I/O and happens outside the
//! library. What is verified here is everything the downloader decides:
//! the task built for each URL (its index and the progress slot that index
//! maps to), the destination file name derived from a URL, the destination
//! path, and the scheduler accounting that keeps at most `max_requests`
//! tasks in flight and ends with the aggregate counter at the total.

use vstd::prelude::*;

verus! {

use crate::text::last_segment;
use crate::text::last_segment_of;

/// One download task: the position of a URL in the collected sequence and
/// the URL itself.
pub struct DownloadTask {
    pub index: usize,
    pub url: String,
}

/// Builds one task per URL, in order: task `i` carries URL `i`.
pub fn make_tasks(urls: Vec<String>) -> (tasks: Vec<DownloadTask>)
    ensures
        tasks@.len() == urls@.len(),
        forall|i: int|
            0 <= i < tasks@.len() ==> #[trigger] tasks@[i].index == i && tasks@[i].url == urls@[i],
{
    let mut tasks: Vec<DownloadTask> = Vec::new();
    let mut i: usize = 0;
    while i < urls.len()
        invariant
            i <= urls@.len(),
            tasks@.len() == i,
            forall|k: int|
                0 <= k < i ==> #[trigger] tasks@[k].index == k && tasks@[k].url == urls@[k],
        decreases urls@.len() - i,
    {
        let url = urls[i].clone();
        tasks.push(DownloadTask { index: i, url });
        i += 1;
    }
    tasks
}

/// The progress slot task `index` reports to: slots are multiplexed
/// round-robin over `max_requests` display lines.
pub fn slot_for(index: usize, max_requests: usize) -> (slot: usize)
    requires
        max_requests >= 1,
    ensures
        slot == index % max_requests,
        slot < max_requests,
{
    index % max_requests
}

/// The path portion of the URL that `url::Url::parse` reads out of a
/// string, when it parses at all. Parsing is a pure function of the input;
/// `url::Url::path` returns the path of the result as a percent-encoded
/// ASCII string.
pub uninterp spec fn parsed_url_path(s: Seq<char>) -> Option<Seq<char>>;

/// Relies on `url::Url::parse` (deterministic parsing of an absolute URL;
/// an error exactly when the input is not one) and `url::Url::path` (the
/// path portion of the parsed URL).
#[verifier::external_body]
fn parse_path(url: &str) -> (r: Option<String>)
    ensures
        r matches Some(p) ==> parsed_url_path(url@) == Some(p@),
        r is None ==> parsed_url_path(url@) is None,
{
    match url::Url::parse(url) {
        Ok(u) => Some(u.path().to_owned()),
        Err(_) => None,
    }
}

/// Derives the destination file name for a URL: the last `/`-separated
/// segment of the parsed URL's path. Yields nothing exactly when the URL
/// does not parse; a download run treats that as fatal.
pub fn file_name_for(url: &str) -> (r: Option<String>)
    ensures
        r matches Some(name) ==> parsed_url_path(url@) matches Some(p) && name@
            == last_segment_of(p),
        r is None <==> parsed_url_path(url@) is None,
{
    match parse_path(url) {
        Some(p) => Some(last_segment(p.as_str())),
        None => None,
    }
}

/// Composes the destination path: the target directory, a `/`, and the
/// derived file name.
pub fn destination_path(directory: &str, file_name: &str) -> (r: String)
    ensures
        r@ == directory@ + "/"@ + file_name@,
{
    let mut path = directory.to_owned();
    path.append("/");
    path.append(file_name);
    path
}

/// The downloader's scheduler accounting: `total` tasks overall, at most
/// `width` of them in flight at any instant, launched in index order, and
/// an aggregate counter of completed tasks.
pub struct DownloadScheduler {
    pub total: usize,
    pub width: usize,
    pub launched: usize,
    pub in_flight: usize,
    pub completed: usize,
}

impl DownloadScheduler {
    /// The accounting invariant: the concurrency width is positive, no more
    /// tasks were launched than exist, every launched task is either in
    /// flight or completed, and the in-flight tasks never exceed the width.
    pub open spec fn wf(self) -> bool {
        &&& self.width >= 1
        &&& self.launched <= self.total
        &&& self.completed + self.in_flight == self.launched
        &&& self.in_flight <= self.width
    }

    /// A fresh scheduler for `total` tasks under concurrency width `width`:
    /// nothing launched, nothing in flight, the aggregate counter at zero.
    pub fn new(total: usize, width: usize) -> (s: DownloadScheduler)
        requires
            width >= 1,
        ensures
            s.wf(),
            s.total == total,
            s.width == width,
            s.launched == 0,
            s.in_flight == 0,
            s.completed == 0,
    {
        DownloadScheduler { total, width, launched: 0, in_flight: 0, completed: 0 }
    }

    /// Whether a further task may start now: one is still pending and the
    /// concurrency width is not yet filled.
    pub fn can_launch(&self) -> (b: bool)
        ensures
            b == (self.launched < self.total && self.in_flight < self.width),
    {
        self.launched < self.total && self.in_flight < self.width
    }

    /// Launches the next pending task and hands back its index: tasks start
    /// in index order, each exactly once, and the in-flight count stays
    /// within the width.
    pub fn launch(&mut self) -> (index: usize)
        requires
            old(self).wf(),
            old(self).launched < old(self).total,
            old(self).in_flight < old(self).width,
        ensures
            final(self).wf(),
            index == old(self).launched,
            final(self).launched == old(self).launched + 1,
            final(self).in_flight == old(self).in_flight + 1,
            final(self).completed == old(self).completed,
            final(self).total == old(self).total,
            final(self).width == old(self).width,
    {
        let index = self.launched;
        self.launched = self.launched + 1;
        self.in_flight = self.in_flight + 1;
        index
    }

    /// Records one finished task, in whatever order tasks complete: the
    /// aggregate counter grows by exactly one.
    pub fn complete(&mut self)
        requires
            old(self).wf(),
            old(self).in_flight >= 1,
        ensures
            final(self).wf(),
            final(self).completed == old(self).completed + 1,
            final(self).in_flight == old(self).in_flight - 1,
            final(self).launched == old(self).launched,
            final(self).total == old(self).total,
            final(self).width == old(self).width,
    {
        self.in_flight = self.in_flight - 1;
        self.completed = self.completed + 1;
    }

    /// Whether the whole batch is done: every task launched and completed.
    pub fn is_done(&self) -> (b: bool)
        requires
            self.wf(),
        ensures
            b == (self.launched == self.total && self.in_flight == 0),
            b ==> self.completed == self.total,
    {
        self.launched == self.total && self.in_flight == 0
    }
}

/// Law: when every task has been launched and none is left in flight, the
/// aggregate counter stands at exactly the total — every one of the batch's
/// tasks was completed, no more and no fewer.
pub proof fn lemma_scheduler_completes_all(s: DownloadScheduler)
    requires
        s.wf(),
        s.launched == s.total,
        s.in_flight == 0,
    ensures
        s.completed == s.total,
{
}

} // verus!

