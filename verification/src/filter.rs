//! The media filter: decides which attachments of a timeline entry yield a
//! downloadable photo URL.
//!
//! An attachment is eligible exactly when its kind is `Photo` and its
//! expanded URL does not contain the literal substring `/video/` — the
//! timeline source mislabels video thumbnails as photos, and that URL
//! pattern is the compensating heuristic.

use vstd::prelude::*;

verus! {

use crate::text::contains_seq;
use crate::text::contains_substr;

/// The kind a media attachment is reported with.
pub enum MediaKind {
    Photo,
    Video,
    Other,
}

/// One media attachment of a timeline entry.
pub struct MediaAttachment {
    pub kind: MediaKind,
    pub expanded_url: String,
    pub media_url: String,
}

/// One post record of the timeline: zero or more media attachments.
pub struct TimelineEntry {
    pub media: Vec<MediaAttachment>,
}

/// The URL pattern that marks a mislabeled video thumbnail.
pub open spec fn video_marker() -> Seq<char> {
    "/video/"@
}

/// An attachment yields a URL exactly when it is a photo and its expanded
/// URL carries no video marker.
pub open spec fn attachment_eligible(a: MediaAttachment) -> bool {
    a.kind is Photo && !contains_seq(a.expanded_url@, video_marker())
}

/// The media URLs of the eligible attachments among `atts[i..]`, in
/// attachment order.
pub open spec fn eligible_urls_from(atts: Seq<MediaAttachment>, i: int) -> Seq<Seq<char>>
    decreases atts.len() - i,
{
    if i < 0 || i >= atts.len() {
        Seq::empty()
    } else if attachment_eligible(atts[i]) {
        seq![atts[i].media_url@] + eligible_urls_from(atts, i + 1)
    } else {
        eligible_urls_from(atts, i + 1)
    }
}

/// The media URLs of all eligible attachments, in attachment order.
pub open spec fn eligible_urls(atts: Seq<MediaAttachment>) -> Seq<Seq<char>> {
    eligible_urls_from(atts, 0)
}

/// The views of a sequence of owned strings.
pub open spec fn url_views(v: Seq<String>) -> Seq<Seq<char>> {
    v.map_values(|s: String| s@)
}

/// Whether `url` is the media URL of some eligible attachment of `atts`.
pub open spec fn yielded_by_eligible(atts: Seq<MediaAttachment>, url: Seq<char>) -> bool {
    exists|i: int|
        0 <= i < atts.len() && #[trigger] attachment_eligible(atts[i]) && url == atts[i].media_url@
}

/// Decides one attachment: a photo whose expanded URL carries no video
/// marker is eligible, anything else is not.
pub fn is_eligible(a: &MediaAttachment) -> (r: bool)
    ensures
        r == attachment_eligible(*a),
{
    match a.kind {
        MediaKind::Photo => !contains_substr(a.expanded_url.as_str(), "/video/"),
        _ => false,
    }
}

/// Evaluates the media filter on one entry: the media URLs of its eligible
/// attachments, in attachment order.
pub fn evaluate(entry: &TimelineEntry) -> (urls: Vec<String>)
    ensures
        url_views(urls@) == eligible_urls(entry.media@),
{
    let atts = &entry.media;
    let mut urls: Vec<String> = Vec::new();
    let mut i: usize = 0;
    while i < atts.len()
        invariant
            i <= atts@.len(),
            url_views(urls@) + eligible_urls_from(atts@, i as int) == eligible_urls(atts@),
        decreases atts@.len() - i,
    {
        let a = &atts[i];
        if is_eligible(a) {
            let ghost before = urls@;
            urls.push(a.media_url.clone());
            proof {
                assert(url_views(urls@) =~= url_views(before).push(atts@[i as int].media_url@));
                assert(url_views(urls@) + eligible_urls_from(atts@, i + 1) =~= url_views(before)
                    + eligible_urls_from(atts@, i as int));
            }
        }
        i += 1;
    }
    urls
}

/// Law: the media filter is a pure function of the entry — evaluating equal
/// entries, or the same entry twice, yields the same sequence of URLs.
pub proof fn lemma_filter_deterministic(e1: TimelineEntry, e2: TimelineEntry)
    requires
        e1.media@ == e2.media@,
    ensures
        eligible_urls(e1.media@) == eligible_urls(e2.media@),
{
}

/// Law: every URL the media filter yields comes from an eligible attachment.
/// An attachment of a non-photo kind, or a photo attachment whose expanded
/// URL carries the video marker, contributes no URL.
pub proof fn lemma_filter_yields_only_eligible(atts: Seq<MediaAttachment>)
    ensures
        forall|j: int|
            0 <= j < eligible_urls(atts).len() ==> yielded_by_eligible(atts, eligible_urls(atts)[j]),
{
    lemma_filter_from_yields_only_eligible(atts, 0);
}

proof fn lemma_filter_from_yields_only_eligible(atts: Seq<MediaAttachment>, i: int)
    ensures
        forall|j: int|
            0 <= j < eligible_urls_from(atts, i).len() ==> yielded_by_eligible(
                atts,
                eligible_urls_from(atts, i)[j],
            ),
    decreases atts.len() - i,
{
    if i < 0 || i >= atts.len() {
    } else {
        lemma_filter_from_yields_only_eligible(atts, i + 1);
        let tail = eligible_urls_from(atts, i + 1);
        let here = eligible_urls_from(atts, i);
        if attachment_eligible(atts[i]) {
            assert(here == seq![atts[i].media_url@] + tail);
            assert forall|j: int| 0 <= j < here.len() implies yielded_by_eligible(
                atts,
                here[j],
            ) by {
                if j == 0 {
                    assert(here[0] == atts[i].media_url@);
                } else {
                    assert(here[j] == tail[j - 1]);
                    assert(yielded_by_eligible(atts, tail[j - 1]));
                }
            }
        } else {
            assert(here == tail);
            assert forall|j: int| 0 <= j < here.len() implies yielded_by_eligible(
                atts,
                here[j],
            ) by {
                assert(here[j] == tail[j]);
                assert(yielded_by_eligible(atts, tail[j]));
            }
        }
    }
}

/// Law: when no attachment of the entry is eligible, the filter yields
/// nothing at all.
pub proof fn lemma_filter_rejects_all(atts: Seq<MediaAttachment>)
    requires
        forall|i: int| 0 <= i < atts.len() ==> !#[trigger] attachment_eligible(atts[i]),
    ensures
        eligible_urls(atts).len() == 0,
{
    lemma_filter_from_rejects_all(atts, 0);
}

proof fn lemma_filter_from_rejects_all(atts: Seq<MediaAttachment>, i: int)
    requires
        forall|k: int| 0 <= k < atts.len() ==> !#[trigger] attachment_eligible(atts[k]),
    ensures
        eligible_urls_from(atts, i).len() == 0,
    decreases atts.len() - i,
{
    if i < 0 || i >= atts.len() {
    } else {
        lemma_filter_from_rejects_all(atts, i + 1);
    }
}

} // verus!
