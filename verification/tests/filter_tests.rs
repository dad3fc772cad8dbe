use timeline_media::filter::evaluate;
use timeline_media::filter::is_eligible;
use timeline_media::filter::MediaAttachment;
use timeline_media::filter::MediaKind;
use timeline_media::filter::TimelineEntry;

fn attachment(kind: MediaKind, expanded: &str, media: &str) -> MediaAttachment {
    MediaAttachment {
        kind,
        expanded_url: expanded.to_string(),
        media_url: media.to_string(),
    }
}

#[test]
fn photo_with_video_marker_yields_nothing() {
    let entry = TimelineEntry {
        media: vec![attachment(MediaKind::Photo, "https://x/y/video/z", "https://cdn/t.jpg")],
    };
    assert_eq!(evaluate(&entry), Vec::<String>::new());
}

#[test]
fn non_photo_kinds_yield_nothing() {
    let entry = TimelineEntry {
        media: vec![
            attachment(MediaKind::Video, "https://x/photo/1", "https://cdn/v.mp4"),
            attachment(MediaKind::Other, "https://x/photo/2", "https://cdn/o.bin"),
        ],
    };
    assert_eq!(evaluate(&entry), Vec::<String>::new());
}

#[test]
fn eligible_photo_yields_media_url() {
    let entry = TimelineEntry {
        media: vec![attachment(MediaKind::Photo, "https://x/photo/1", "https://cdn/a.jpg")],
    };
    assert_eq!(evaluate(&entry), vec!["https://cdn/a.jpg".to_string()]);
}

#[test]
fn empty_media_yields_nothing() {
    let entry = TimelineEntry { media: vec![] };
    assert_eq!(evaluate(&entry), Vec::<String>::new());
}

#[test]
fn attachment_order_is_kept() {
    let entry = TimelineEntry {
        media: vec![
            attachment(MediaKind::Photo, "https://x/photo/1", "https://cdn/a.jpg"),
            attachment(MediaKind::Video, "https://x/photo/2", "https://cdn/v.mp4"),
            attachment(MediaKind::Photo, "https://x/photo/3", "https://cdn/b.jpg"),
        ],
    };
    assert_eq!(
        evaluate(&entry),
        vec!["https://cdn/a.jpg".to_string(), "https://cdn/b.jpg".to_string()]
    );
}

#[test]
fn video_marker_match_is_case_sensitive() {
    let upper = TimelineEntry {
        media: vec![attachment(MediaKind::Photo, "https://x/y/VIDEO/z", "https://cdn/a.jpg")],
    };
    assert_eq!(evaluate(&upper), vec!["https://cdn/a.jpg".to_string()]);
    let lower = TimelineEntry {
        media: vec![attachment(MediaKind::Photo, "https://x/y/video/z", "https://cdn/a.jpg")],
    };
    assert_eq!(evaluate(&lower), Vec::<String>::new());
}

#[test]
fn video_marker_match_is_unanchored() {
    let entry = TimelineEntry {
        media: vec![attachment(
            MediaKind::Photo,
            "https://x/a/b/video/thumb/1",
            "https://cdn/a.jpg",
        )],
    };
    assert_eq!(evaluate(&entry), Vec::<String>::new());
}

#[test]
fn eligibility_decision_per_attachment() {
    assert!(is_eligible(&attachment(
        MediaKind::Photo,
        "https://x/photo/1",
        "https://cdn/a.jpg"
    )));
    assert!(!is_eligible(&attachment(
        MediaKind::Video,
        "https://x/photo/1",
        "https://cdn/v.mp4"
    )));
    assert!(!is_eligible(&attachment(
        MediaKind::Other,
        "https://x/photo/1",
        "https://cdn/o.bin"
    )));
    assert!(!is_eligible(&attachment(
        MediaKind::Photo,
        "https://x/y/video/z",
        "https://cdn/t.jpg"
    )));
}

#[test]
fn filter_is_pure() {
    let entry = TimelineEntry {
        media: vec![
            attachment(MediaKind::Photo, "https://x/photo/1", "https://cdn/a.jpg"),
            attachment(MediaKind::Photo, "https://x/y/video/z", "https://cdn/t.jpg"),
        ],
    };
    let first = evaluate(&entry);
    let second = evaluate(&entry);
    assert_eq!(first, second);
    assert_eq!(first, vec!["https://cdn/a.jpg".to_string()]);
}
