use timeline_media::crawler::crawl;
use timeline_media::crawler::crawl_step;
use timeline_media::crawler::CrawlState;
use timeline_media::crawler::PageFetch;
use timeline_media::filter::MediaAttachment;
use timeline_media::filter::MediaKind;
use timeline_media::filter::TimelineEntry;

fn attachment(kind: MediaKind, expanded: &str, media: &str) -> MediaAttachment {
    MediaAttachment {
        kind,
        expanded_url: expanded.to_string(),
        media_url: media.to_string(),
    }
}

fn photo_entry(expanded: &str, media: &str) -> TimelineEntry {
    TimelineEntry {
        media: vec![attachment(MediaKind::Photo, expanded, media)],
    }
}

#[test]
fn mixed_entries_single_url() {
    let entry_a = photo_entry("https://x/y/video/z", "https://cdn/thumb.jpg");
    let entry_b = photo_entry("https://x/photo/1", "https://cdn/a.jpg");
    let entry_c = TimelineEntry {
        media: vec![attachment(MediaKind::Video, "https://x/v/1", "https://cdn/v.mp4")],
    };
    let pages = vec![PageFetch::Success {
        entries: vec![entry_a, entry_b, entry_c],
        has_older: false,
    }];
    let state = crawl(&pages, 0);
    assert_eq!(state.collected, vec!["https://cdn/a.jpg".to_string()]);
    assert_eq!(state.tweet_count, 3);
    assert!(state.finished);
}

#[test]
fn bound_stops_mid_entry() {
    let big_entry = TimelineEntry {
        media: vec![
            attachment(MediaKind::Photo, "https://x/p/1", "https://cdn/a.jpg"),
            attachment(MediaKind::Photo, "https://x/p/2", "https://cdn/b.jpg"),
            attachment(MediaKind::Photo, "https://x/p/3", "https://cdn/c.jpg"),
        ],
    };
    let later_page = PageFetch::Success {
        entries: vec![photo_entry("https://x/p/4", "https://cdn/d.jpg")],
        has_older: false,
    };
    let pages = vec![
        PageFetch::Success { entries: vec![big_entry], has_older: true },
        later_page,
    ];
    let state = crawl(&pages, 2);
    // The third attachment of the triggering entry and the whole second page
    // stay unprocessed, and the cut-short entry is not counted.
    assert_eq!(
        state.collected,
        vec!["https://cdn/a.jpg".to_string(), "https://cdn/b.jpg".to_string()]
    );
    assert_eq!(state.tweet_count, 0);
    assert!(state.finished);
}

#[test]
fn bound_zero_crawls_until_exhaustion() {
    let pages = vec![
        PageFetch::Success {
            entries: vec![
                photo_entry("https://x/p/1", "https://cdn/a.jpg"),
                photo_entry("https://x/p/2", "https://cdn/b.jpg"),
            ],
            has_older: true,
        },
        PageFetch::Success {
            entries: vec![photo_entry("https://x/p/3", "https://cdn/c.jpg")],
            has_older: false,
        },
    ];
    let state = crawl(&pages, 0);
    assert_eq!(
        state.collected,
        vec![
            "https://cdn/a.jpg".to_string(),
            "https://cdn/b.jpg".to_string(),
            "https://cdn/c.jpg".to_string(),
        ]
    );
    assert_eq!(state.tweet_count, 3);
    assert!(state.finished);
}

#[test]
fn failure_keeps_partial_results() {
    let first_page_entries: Vec<TimelineEntry> = (1..=5)
        .map(|k| photo_entry(&format!("https://x/p/{}", k), &format!("https://cdn/{}.jpg", k)))
        .collect();
    let pages = vec![
        PageFetch::Success { entries: first_page_entries, has_older: true },
        PageFetch::Failure,
    ];
    let state = crawl(&pages, 0);
    let expected: Vec<String> = (1..=5).map(|k| format!("https://cdn/{}.jpg", k)).collect();
    assert_eq!(state.collected, expected);
    assert_eq!(state.tweet_count, 5);
    assert!(state.finished);
}

#[test]
fn step_on_failure_changes_nothing_but_stops() {
    let mut state = CrawlState::new();
    crawl_step(&mut state, &PageFetch::Failure, 0);
    assert_eq!(state.collected, Vec::<String>::new());
    assert_eq!(state.tweet_count, 0);
    assert!(state.finished);
}

#[test]
fn step_counts_entries_without_media() {
    let mut state = CrawlState::new();
    let page = PageFetch::Success {
        entries: vec![
            TimelineEntry { media: vec![] },
            photo_entry("https://x/p/1", "https://cdn/a.jpg"),
            TimelineEntry { media: vec![] },
        ],
        has_older: true,
    };
    crawl_step(&mut state, &page, 0);
    assert_eq!(state.collected, vec!["https://cdn/a.jpg".to_string()]);
    assert_eq!(state.tweet_count, 3);
    assert!(!state.finished);
}

#[test]
fn step_stops_on_exhausted_cursor() {
    let mut state = CrawlState::new();
    let page = PageFetch::Success { entries: vec![], has_older: false };
    crawl_step(&mut state, &page, 0);
    assert_eq!(state.tweet_count, 0);
    assert!(state.finished);
}

#[test]
fn bound_reached_exactly_at_page_end_stops() {
    let pages = vec![
        PageFetch::Success {
            entries: vec![photo_entry("https://x/p/1", "https://cdn/a.jpg")],
            has_older: true,
        },
        PageFetch::Success {
            entries: vec![photo_entry("https://x/p/2", "https://cdn/b.jpg")],
            has_older: true,
        },
    ];
    let state = crawl(&pages, 1);
    assert_eq!(state.collected, vec!["https://cdn/a.jpg".to_string()]);
    assert!(state.finished);
}

#[test]
fn duplicate_urls_are_kept() {
    let pages = vec![PageFetch::Success {
        entries: vec![
            photo_entry("https://x/p/1", "https://cdn/same.jpg"),
            photo_entry("https://x/p/2", "https://cdn/same.jpg"),
        ],
        has_older: false,
    }];
    let state = crawl(&pages, 0);
    assert_eq!(
        state.collected,
        vec!["https://cdn/same.jpg".to_string(), "https://cdn/same.jpg".to_string()]
    );
}

#[test]
fn empty_trace_leaves_crawl_unfinished() {
    let state = crawl(&vec![], 0);
    assert_eq!(state.collected, Vec::<String>::new());
    assert_eq!(state.tweet_count, 0);
    assert!(!state.finished);
}
