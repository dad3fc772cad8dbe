//! The timeline crawler: a paginated-retrieval state machine.
//!
//! The crawler asks an external source for ever older pages of timeline
//! entries, applies the media filter to each entry in page order, and stops
//! on the first failed fetch (keeping what it has), on cursor exhaustion, or
//! as soon as a positive image bound is reached — even mid-entry, before the
//! entry's remaining attachments are looked at.
//!
//! The page fetch itself is I/O and happens outside the library; the caller
//! hands each fetch outcome to [`crawl_step`] as a [`PageFetch`] value.
//! [`crawl`] runs the same machine over an already materialized trace of
//! fetch outcomes.

use vstd::prelude::*;

verus! {

use crate::filter::MediaAttachment;
use crate::filter::TimelineEntry;
use crate::filter::attachment_eligible;
use crate::filter::eligible_urls;
use crate::filter::eligible_urls_from;
use crate::filter::is_eligible;
use crate::filter::url_views;

/// The outcome of one paginated fetch from the timeline source.
///
/// `has_older` reports whether the source's cursor still points at older
/// content after this page; when it does not, the timeline is exhausted.
pub enum PageFetch {
    Success { entries: Vec<TimelineEntry>, has_older: bool },
    Failure,
}

/// The crawler's state: the URLs collected so far in discovery order, the
/// number of fully processed entries, and whether the crawl has stopped.
pub struct CrawlState {
    pub collected: Vec<String>,
    pub tweet_count: u64,
    pub finished: bool,
}

/// How many entries a fetch outcome carries.
pub open spec fn page_entry_count(p: PageFetch) -> int {
    match p {
        PageFetch::Failure => 0,
        PageFetch::Success { entries, has_older } => entries@.len() as int,
    }
}

/// The entries carried by the fetch outcomes `pages[i..]`, in total.
pub open spec fn entry_count_from(pages: Seq<PageFetch>, i: int) -> int
    decreases pages.len() - i,
{
    if i < 0 || i >= pages.len() {
        0
    } else {
        page_entry_count(pages[i]) + entry_count_from(pages, i + 1)
    }
}

/// Processing the attachments `atts[i..]` of one entry against the image
/// bound `max`: each eligible media URL is appended in order, and as soon as
/// a bound of `max > 0` is reached the crawl stops mid-entry. Yields the new
/// collection and whether the bound was hit.
pub open spec fn run_attachments(
    collected: Seq<Seq<char>>,
    atts: Seq<MediaAttachment>,
    i: int,
    max: u32,
) -> (Seq<Seq<char>>, bool)
    decreases atts.len() - i,
{
    if i < 0 || i >= atts.len() {
        (collected, false)
    } else if attachment_eligible(atts[i]) {
        let pushed = collected.push(atts[i].media_url@);
        if max > 0 && pushed.len() >= max {
            (pushed, true)
        } else {
            run_attachments(pushed, atts, i + 1, max)
        }
    } else {
        run_attachments(collected, atts, i + 1, max)
    }
}

/// Processing the entries `entries[i..]` of one page: attachments run in
/// entry order, the entry count grows once per fully processed entry, and an
/// entry cut short by the image bound is not counted. Yields the new
/// collection, the new entry count, and whether the bound was hit.
pub open spec fn run_entries(
    collected: Seq<Seq<char>>,
    count: int,
    entries: Seq<TimelineEntry>,
    i: int,
    max: u32,
) -> (Seq<Seq<char>>, int, bool)
    decreases entries.len() - i,
{
    if i < 0 || i >= entries.len() {
        (collected, count, false)
    } else {
        let after = run_attachments(collected, entries[i].media@, 0, max);
        if after.1 {
            (after.0, count, true)
        } else {
            run_entries(after.0, count + 1, entries, i + 1, max)
        }
    }
}

/// What one fetch outcome does to the crawl: a failed fetch stops the crawl
/// and changes nothing else; a fetched page has its entries processed, and
/// the crawl stops when the image bound was hit or the cursor is exhausted.
/// Yields the new collection, the new entry count, and whether the crawl
/// has stopped.
pub open spec fn page_result(
    collected: Seq<Seq<char>>,
    count: int,
    page: PageFetch,
    max: u32,
) -> (Seq<Seq<char>>, int, bool) {
    match page {
        PageFetch::Failure => (collected, count, true),
        PageFetch::Success { entries, has_older } => {
            let run = run_entries(collected, count, entries@, 0, max);
            (run.0, run.1, run.2 || !has_older)
        },
    }
}

/// A whole crawl over the fetch outcomes `pages[i..]`: pages are consumed in
/// order until one stops the crawl or the trace runs out. Yields the final
/// collection, the final entry count, whether the crawl stopped of its own
/// accord, and the position just past the last page consumed.
pub open spec fn run_crawl(
    collected: Seq<Seq<char>>,
    count: int,
    pages: Seq<PageFetch>,
    i: int,
    max: u32,
) -> (Seq<Seq<char>>, int, bool, int)
    decreases pages.len() - i,
{
    if i < 0 || i >= pages.len() {
        (collected, count, false, i)
    } else {
        let r = page_result(collected, count, pages[i], max);
        if r.2 {
            (r.0, r.1, true, i + 1)
        } else {
            run_crawl(r.0, r.1, pages, i + 1, max)
        }
    }
}

impl CrawlState {
    /// The state a crawl starts from: nothing collected, nothing counted.
    pub fn new() -> (s: CrawlState)
        ensures
            s.collected@.len() == 0,
            s.tweet_count == 0,
            !s.finished,
    {
        CrawlState { collected: Vec::new(), tweet_count: 0, finished: false }
    }
}

/// Feeds one fetch outcome to the crawler: applies the media filter to each
/// entry in page order, appends every eligible URL, counts fully processed
/// entries, and stops the crawl on a failed fetch, on a reached image bound
/// (mid-entry, leaving the entry's remaining attachments unprocessed and the
/// entry uncounted), or on cursor exhaustion.
pub fn crawl_step(state: &mut CrawlState, page: &PageFetch, max_image_count: u32)
    requires
        !old(state).finished,
        old(state).tweet_count + page_entry_count(*page) <= u64::MAX,
    ensures
        url_views(final(state).collected@) == page_result(
            url_views(old(state).collected@),
            old(state).tweet_count as int,
            *page,
            max_image_count,
        ).0,
        final(state).tweet_count as int == page_result(
            url_views(old(state).collected@),
            old(state).tweet_count as int,
            *page,
            max_image_count,
        ).1,
        final(state).finished == page_result(
            url_views(old(state).collected@),
            old(state).tweet_count as int,
            *page,
            max_image_count,
        ).2,
{
    let ghost c0 = url_views(old(state).collected@);
    let ghost n0 = old(state).tweet_count as int;
    match page {
        PageFetch::Failure => {
            state.finished = true;
        },
        PageFetch::Success { entries, has_older } => {
            let mut i: usize = 0;
            let mut hit = false;
            while i < entries.len() && !hit
                invariant
                    i <= entries@.len(),
                    n0 + entries@.len() <= u64::MAX,
                    !hit ==> state.tweet_count == n0 + i,
                    !hit ==> run_entries(c0, n0, entries@, 0, max_image_count) == run_entries(
                        url_views(state.collected@),
                        state.tweet_count as int,
                        entries@,
                        i as int,
                        max_image_count,
                    ),
                    hit ==> run_entries(c0, n0, entries@, 0, max_image_count) == (
                        url_views(state.collected@),
                        state.tweet_count as int,
                        true,
                    ),
                decreases entries@.len() - i,
            {
                let atts = &entries[i].media;
                let ghost c_entry = url_views(state.collected@);
                let mut j: usize = 0;
                while j < atts.len() && !hit
                    invariant
                        j <= atts@.len(),
                        i < entries@.len(),
                        atts@ == entries@[i as int].media@,
                        n0 + entries@.len() <= u64::MAX,
                        state.tweet_count == n0 + i,
                        run_entries(c0, n0, entries@, 0, max_image_count) == run_entries(
                            c_entry,
                            n0 + i,
                            entries@,
                            i as int,
                            max_image_count,
                        ),
                        !hit ==> run_attachments(c_entry, atts@, 0, max_image_count)
                            == run_attachments(
                            url_views(state.collected@),
                            atts@,
                            j as int,
                            max_image_count,
                        ),
                        hit ==> run_attachments(c_entry, atts@, 0, max_image_count) == (
                            url_views(state.collected@),
                            true,
                        ),
                    decreases atts@.len() - j,
                {
                    let a = &atts[j];
                    if is_eligible(a) {
                        let ghost before = url_views(state.collected@);
                        state.collected.push(a.media_url.clone());
                        proof {
                            assert(url_views(state.collected@) =~= before.push(
                                atts@[j as int].media_url@,
                            ));
                        }
                        if max_image_count > 0 && state.collected.len()
                            >= max_image_count as usize {
                            hit = true;
                        }
                    }
                    j += 1;
                }
                if hit {
                    proof {
                        assert(run_attachments(
                            c_entry,
                            entries@[i as int].media@,
                            0,
                            max_image_count,
                        ) == (url_views(state.collected@), true));
                        assert(run_entries(c0, n0, entries@, 0, max_image_count) == (
                            url_views(state.collected@),
                            state.tweet_count as int,
                            true,
                        ));
                    }
                } else {
                    proof {
                        assert(run_attachments(
                            c_entry,
                            entries@[i as int].media@,
                            0,
                            max_image_count,
                        ) == (url_views(state.collected@), false));
                        assert(run_entries(c_entry, n0 + i, entries@, i as int, max_image_count)
                            == run_entries(
                            url_views(state.collected@),
                            n0 + i + 1,
                            entries@,
                            i + 1,
                            max_image_count,
                        ));
                    }
                    state.tweet_count = state.tweet_count + 1;
                }
                i += 1;
            }
            if hit {
                state.finished = true;
            } else {
                state.finished = !*has_older;
            }
        },
    }
}

/// Runs a whole crawl over an already materialized trace of fetch outcomes,
/// starting from a fresh state: pages are consumed in order until one stops
/// the crawl or the trace runs out. With a positive bound the collection
/// never exceeds it.
pub fn crawl(pages: &Vec<PageFetch>, max_image_count: u32) -> (state: CrawlState)
    requires
        entry_count_from(pages@, 0) <= u64::MAX,
    ensures
        url_views(state.collected@) == run_crawl(Seq::empty(), 0, pages@, 0, max_image_count).0,
        state.tweet_count as int == run_crawl(Seq::empty(), 0, pages@, 0, max_image_count).1,
        state.finished == run_crawl(Seq::empty(), 0, pages@, 0, max_image_count).2,
        max_image_count > 0 ==> state.collected@.len() <= max_image_count,
{
    let mut state = CrawlState::new();
    proof {
        assert(url_views(state.collected@) =~= Seq::<Seq<char>>::empty());
    }
    let mut i: usize = 0;
    while i < pages.len() && !state.finished
        invariant
            i <= pages@.len(),
            !state.finished ==> run_crawl(Seq::empty(), 0, pages@, 0, max_image_count)
                == run_crawl(
                url_views(state.collected@),
                state.tweet_count as int,
                pages@,
                i as int,
                max_image_count,
            ),
            state.finished ==> run_crawl(Seq::empty(), 0, pages@, 0, max_image_count) == (
                url_views(state.collected@),
                state.tweet_count as int,
                true,
                i as int,
            ),
            !state.finished ==> state.tweet_count + entry_count_from(pages@, i as int)
                <= u64::MAX,
        decreases pages@.len() - i,
    {
        proof {
            lemma_entry_count_nonneg(pages@, i + 1);
            lemma_page_count_bound(
                url_views(state.collected@),
                state.tweet_count as int,
                pages@[i as int],
                max_image_count,
            );
        }
        crawl_step(&mut state, &pages[i], max_image_count);
        i += 1;
    }
    proof {
        if max_image_count > 0 {
            lemma_run_crawl_bound(Seq::empty(), 0, pages@, 0, max_image_count);
            assert(state.collected@.len() == url_views(state.collected@).len());
        }
    }
    state
}

/// The entries of a fetch-outcome suffix number at least zero.
proof fn lemma_entry_count_nonneg(pages: Seq<PageFetch>, i: int)
    ensures
        entry_count_from(pages, i) >= 0,
    decreases pages.len() - i,
{
    if 0 <= i && i < pages.len() {
        lemma_entry_count_nonneg(pages, i + 1);
    }
}

/// Processing a page raises the entry count by at most the page's entries.
proof fn lemma_page_count_bound(c: Seq<Seq<char>>, n: int, page: PageFetch, max: u32)
    ensures
        n <= page_result(c, n, page, max).1 <= n + page_entry_count(page),
{
    match page {
        PageFetch::Failure => {},
        PageFetch::Success { entries, has_older } => {
            lemma_run_entries_count_bound(c, n, entries@, 0, max);
        },
    }
}

/// Processing entries raises the entry count by at most their number.
proof fn lemma_run_entries_count_bound(
    c: Seq<Seq<char>>,
    n: int,
    entries: Seq<TimelineEntry>,
    i: int,
    max: u32,
)
    requires
        0 <= i <= entries.len(),
    ensures
        n <= run_entries(c, n, entries, i, max).1 <= n + entries.len() - i,
    decreases entries.len() - i,
{
    if i < entries.len() {
        let after = run_attachments(c, entries[i].media@, 0, max);
        if !after.1 {
            lemma_run_entries_count_bound(after.0, n + 1, entries, i + 1, max);
        }
    }
}

/// Attachment processing under a positive bound: starting below the bound,
/// it ends exactly at the bound when it reports a hit and below it when not.
proof fn lemma_run_attachments_bound(
    c: Seq<Seq<char>>,
    atts: Seq<MediaAttachment>,
    i: int,
    max: u32,
)
    requires
        max > 0,
        c.len() < max,
    ensures
        run_attachments(c, atts, i, max).1 ==> run_attachments(c, atts, i, max).0.len() == max,
        !run_attachments(c, atts, i, max).1 ==> run_attachments(c, atts, i, max).0.len() < max,
    decreases atts.len() - i,
{
    if i < 0 || i >= atts.len() {
    } else if attachment_eligible(atts[i]) {
        let pushed = c.push(atts[i].media_url@);
        if !(pushed.len() >= max) {
            lemma_run_attachments_bound(pushed, atts, i + 1, max);
        }
    } else {
        lemma_run_attachments_bound(c, atts, i + 1, max);
    }
}

/// Entry processing under a positive bound: starting below the bound, it
/// ends exactly at the bound when it reports a hit and below it when not.
proof fn lemma_run_entries_bound(
    c: Seq<Seq<char>>,
    n: int,
    entries: Seq<TimelineEntry>,
    i: int,
    max: u32,
)
    requires
        max > 0,
        c.len() < max,
    ensures
        run_entries(c, n, entries, i, max).2 ==> run_entries(c, n, entries, i, max).0.len()
            == max,
        !run_entries(c, n, entries, i, max).2 ==> run_entries(c, n, entries, i, max).0.len()
            < max,
    decreases entries.len() - i,
{
    if i < 0 || i >= entries.len() {
    } else {
        lemma_run_attachments_bound(c, entries[i].media@, 0, max);
        let after = run_attachments(c, entries[i].media@, 0, max);
        if !after.1 {
            lemma_run_entries_bound(after.0, n + 1, entries, i + 1, max);
        }
    }
}

/// A whole crawl under a positive bound: starting below the bound, it never
/// ends above it, and reaching it means the crawl has stopped.
proof fn lemma_run_crawl_bound(
    c: Seq<Seq<char>>,
    n: int,
    pages: Seq<PageFetch>,
    i: int,
    max: u32,
)
    requires
        max > 0,
        c.len() < max,
    ensures
        run_crawl(c, n, pages, i, max).0.len() <= max,
        run_crawl(c, n, pages, i, max).0.len() == max ==> run_crawl(c, n, pages, i, max).2,
    decreases pages.len() - i,
{
    if i < 0 || i >= pages.len() {
    } else {
        match pages[i] {
            PageFetch::Failure => {},
            PageFetch::Success { entries, has_older } => {
                lemma_run_entries_bound(c, n, entries@, 0, max);
                let run = run_entries(c, n, entries@, 0, max);
                if !run.2 && has_older {
                    lemma_run_crawl_bound(run.0, run.1, pages, i + 1, max);
                }
            },
        }
    }
}

/// Law: with a positive image bound, the crawl never collects more than the
/// bound, and the moment the collection reaches the bound the crawl has
/// stopped — no further attachment of the triggering entry, nor any later
/// entry or page, is processed.
pub proof fn lemma_crawl_respects_bound(pages: Seq<PageFetch>, max: u32)
    requires
        max > 0,
    ensures
        run_crawl(Seq::empty(), 0, pages, 0, max).0.len() <= max,
        run_crawl(Seq::empty(), 0, pages, 0, max).0.len() == max ==> run_crawl(
            Seq::empty(),
            0,
            pages,
            0,
            max,
        ).2,
{
    lemma_run_crawl_bound(Seq::empty(), 0, pages, 0, max);
}

/// Whether a fetch outcome stops an unbounded crawl: a failed fetch, or a
/// fetched page whose cursor reports no older content.
pub open spec fn page_terminal(p: PageFetch) -> bool {
    match p {
        PageFetch::Failure => true,
        PageFetch::Success { entries, has_older } => !has_older,
    }
}

/// The position of the first crawl-stopping outcome in `pages[i..]`, or the
/// trace length when there is none.
pub open spec fn first_terminal(pages: Seq<PageFetch>, i: int) -> int
    decreases pages.len() - i,
{
    if i < 0 || i >= pages.len() {
        pages.len() as int
    } else if page_terminal(pages[i]) {
        i
    } else {
        first_terminal(pages, i + 1)
    }
}

/// Every eligible URL of every entry of `entries[i..]`, in order.
pub open spec fn all_entry_urls(entries: Seq<TimelineEntry>, i: int) -> Seq<Seq<char>>
    decreases entries.len() - i,
{
    if i < 0 || i >= entries.len() {
        Seq::empty()
    } else {
        eligible_urls(entries[i].media@) + all_entry_urls(entries, i + 1)
    }
}

/// What an unbounded crawl gathers from `pages[i..]`: every eligible URL of
/// every entry of every fetched page up to and including the exhausted one,
/// and nothing from a failed fetch on.
pub open spec fn unbounded_urls_from(pages: Seq<PageFetch>, i: int) -> Seq<Seq<char>>
    decreases pages.len() - i,
{
    if i < 0 || i >= pages.len() {
        Seq::empty()
    } else {
        match pages[i] {
            PageFetch::Failure => Seq::empty(),
            PageFetch::Success { entries, has_older } => all_entry_urls(entries@, 0) + (
            if has_older {
                unbounded_urls_from(pages, i + 1)
            } else {
                Seq::<Seq<char>>::empty()
            }),
        }
    }
}

/// Unbounded attachment processing appends every eligible URL and never
/// reports a hit.
proof fn lemma_run_attachments_unbounded(c: Seq<Seq<char>>, atts: Seq<MediaAttachment>, i: int)
    ensures
        run_attachments(c, atts, i, 0).0 == c + eligible_urls_from(atts, i),
        !run_attachments(c, atts, i, 0).1,
    decreases atts.len() - i,
{
    if i < 0 || i >= atts.len() {
        assert(c + eligible_urls_from(atts, i) =~= c);
    } else if attachment_eligible(atts[i]) {
        let pushed = c.push(atts[i].media_url@);
        lemma_run_attachments_unbounded(pushed, atts, i + 1);
        assert(pushed + eligible_urls_from(atts, i + 1) =~= c + (seq![atts[i].media_url@]
            + eligible_urls_from(atts, i + 1)));
    } else {
        lemma_run_attachments_unbounded(c, atts, i + 1);
    }
}

/// Unbounded entry processing appends every entry's eligible URLs, counts
/// every entry, and never reports a hit.
proof fn lemma_run_entries_unbounded(c: Seq<Seq<char>>, n: int, entries: Seq<TimelineEntry>, i: int)
    requires
        0 <= i <= entries.len(),
    ensures
        run_entries(c, n, entries, i, 0) == (
            c + all_entry_urls(entries, i),
            n + entries.len() - i,
            false,
        ),
    decreases entries.len() - i,
{
    if i == entries.len() {
        assert(c + all_entry_urls(entries, i) =~= c);
    } else {
        lemma_run_attachments_unbounded(c, entries[i].media@, 0);
        let mid = c + eligible_urls(entries[i].media@);
        lemma_run_entries_unbounded(mid, n + 1, entries, i + 1);
        assert(mid + all_entry_urls(entries, i + 1) =~= c + (eligible_urls(entries[i].media@)
            + all_entry_urls(entries, i + 1)));
    }
}

/// An unbounded crawl consumes pages exactly up to the first crawl-stopping
/// outcome and gathers every eligible URL on the way.
proof fn lemma_run_crawl_unbounded(c: Seq<Seq<char>>, n: int, pages: Seq<PageFetch>, i: int)
    requires
        0 <= i <= pages.len(),
    ensures
        run_crawl(c, n, pages, i, 0).0 == c + unbounded_urls_from(pages, i),
        run_crawl(c, n, pages, i, 0).2 == (first_terminal(pages, i) < pages.len()),
        run_crawl(c, n, pages, i, 0).3 == (if first_terminal(pages, i) < pages.len() {
            first_terminal(pages, i) + 1
        } else {
            pages.len() as int
        }),
    decreases pages.len() - i,
{
    if i == pages.len() {
        assert(c + unbounded_urls_from(pages, i) =~= c);
    } else {
        match pages[i] {
            PageFetch::Failure => {
                assert(c + unbounded_urls_from(pages, i) =~= c);
            },
            PageFetch::Success { entries, has_older } => {
                lemma_run_entries_unbounded(c, n, entries@, 0);
                let mid = c + all_entry_urls(entries@, 0);
                if !has_older {
                    assert(c + unbounded_urls_from(pages, i) =~= mid);
                } else {
                    lemma_run_crawl_unbounded(mid, n + entries@.len(), pages, i + 1);
                    assert(mid + unbounded_urls_from(pages, i + 1) =~= c + (all_entry_urls(
                        entries@,
                        0,
                    ) + unbounded_urls_from(pages, i + 1)));
                }
            },
        }
    }
}

/// Law: with bound zero the crawl is unbounded — it consumes pages until
/// the first failed fetch or the first exhausted cursor, whichever comes
/// first, gathers every eligible URL of every entry fetched on the way, and
/// stops exactly when such a terminal outcome exists in the trace.
pub proof fn lemma_crawl_unbounded_exhausts(pages: Seq<PageFetch>)
    ensures
        run_crawl(Seq::empty(), 0, pages, 0, 0).0 == unbounded_urls_from(pages, 0),
        run_crawl(Seq::empty(), 0, pages, 0, 0).2 == (first_terminal(pages, 0) < pages.len()),
        run_crawl(Seq::empty(), 0, pages, 0, 0).3 == (if first_terminal(pages, 0) < pages.len() {
            first_terminal(pages, 0) + 1
        } else {
            pages.len() as int
        }),
{
    lemma_run_crawl_unbounded(Seq::empty(), 0, pages, 0);
    assert(Seq::<Seq<char>>::empty() + unbounded_urls_from(pages, 0) =~= unbounded_urls_from(
        pages,
        0,
    ));
}

} // verus!
