use apod_wallpaper::nasa_api::{
    blank_to_none, download_status, is_video_file, metadata_status, push, youtube_size, Apod,
    ApiError, Source, chunk_fits, declared_too_large, reserve_hint, MAX_DOWNLOAD_BYTES,
};

fn apod(media_type: &str, url: Option<&str>, hdurl: Option<&str>, thumbnail: Option<&str>) -> Apod {
    Apod {
        date: "2026-08-19".to_string(),
        title: "Somewhere".to_string(),
        explanation: "...".to_string(),
        url: url.map(str::to_string),
        hdurl: hdurl.map(str::to_string),
        media_type: media_type.to_string(),
        copyright: None,
        thumbnail_url: thumbnail.map(str::to_string),
    }
}

#[test]
fn rewrites_standard_youtube_thumbnails_to_another_size() {
    assert_eq!(
        youtube_size("https://img.youtube.com/vi/abc123/0.jpg", "maxresdefault").as_deref(),
        Some("https://img.youtube.com/vi/abc123/maxresdefault.jpg")
    );
    assert_eq!(
        youtube_size("https://i.ytimg.com/vi/abc123/hqdefault.jpg", "sddefault").as_deref(),
        Some("https://i.ytimg.com/vi/abc123/sddefault.jpg")
    );
}

#[test]
fn leaves_other_urls_untouched() {
    assert_eq!(youtube_size("https://vimeo.com/thumb/42.jpg", "sddefault"), None);
    assert_eq!(
        youtube_size("https://img.youtube.com/vi/abc123/maxresdefault.jpg", "maxresdefault"),
        None
    );
    assert_eq!(youtube_size("https://img.youtube.com/vi/abc123/0.png", "sddefault"), None);
}

#[test]
fn a_size_the_thumbnail_already_is_adds_nothing() {
    assert_eq!(
        youtube_size("https://img.youtube.com/vi/abc123/sddefault.jpg", "sddefault"),
        None
    );
}

#[test]
fn a_self_hosted_video_is_downloaded_for_its_frame() {
    let apod = Apod {
        date: "2026-08-19".to_string(),
        title: "The Case of the Mysterious Maybe Meteor".to_string(),
        explanation: "Whatdunit?".to_string(),
        url: Some("https://apod.nasa.gov/apod/image/2608/perseids_eclipse_mystery.mp4".to_string()),
        hdurl: None,
        media_type: "video".to_string(),
        copyright: None,
        thumbnail_url: Some("".to_string()),
    }
    .normalize();

    // The empty thumbnail must not survive as a URL to download.
    assert_eq!(apod.thumbnail_url, None);
    assert!(apod.has_wallpaper());
    assert_eq!(
        apod.sources(),
        vec![Source::Video(
            "https://apod.nasa.gov/apod/image/2608/perseids_eclipse_mystery.mp4".to_string()
        )]
    );
}

#[test]
fn an_embed_with_no_thumbnail_yields_nothing() {
    let apod = Apod {
        date: "2026-01-01".to_string(),
        ..apod("video", Some("https://www.youtube.com/embed/abc123"), None, Some(""))
    }
    .normalize();

    assert!(!apod.has_wallpaper());
    assert_eq!(apod.sources(), vec![]);
}

#[test]
fn a_youtube_video_tries_the_larger_sizes_before_the_published_one() {
    let apod = Apod {
        date: "2026-01-02".to_string(),
        ..apod(
            "video",
            Some("https://www.youtube.com/embed/abc123"),
            None,
            Some("https://img.youtube.com/vi/abc123/0.jpg"),
        )
    }
    .normalize();

    assert_eq!(
        apod.sources(),
        vec![
            Source::Image("https://img.youtube.com/vi/abc123/maxresdefault.jpg".to_string()),
            Source::Image("https://img.youtube.com/vi/abc123/sddefault.jpg".to_string()),
            Source::Image("https://img.youtube.com/vi/abc123/0.jpg".to_string()),
        ]
    );
}

#[test]
fn a_blank_hdurl_leaves_only_the_standard_url() {
    let apod = Apod {
        date: "2026-08-18".to_string(),
        ..apod("image", Some("https://apod.nasa.gov/apod/image/2608/some.jpg"), Some(""), None)
    }
    .normalize();

    assert_eq!(
        apod.sources(),
        vec![Source::Image("https://apod.nasa.gov/apod/image/2608/some.jpg".to_string())]
    );
}

#[test]
fn an_image_listed_twice_is_only_downloaded_once() {
    let apod = Apod {
        date: "2026-08-17".to_string(),
        ..apod(
            "image",
            Some("https://apod.nasa.gov/apod/image/2608/some.jpg"),
            Some("https://apod.nasa.gov/apod/image/2608/some.jpg"),
            None,
        )
    }
    .normalize();

    assert_eq!(apod.sources().len(), 1);
}

#[test]
fn an_unknown_media_type_falls_back_to_what_the_url_looks_like() {
    let apod = Apod {
        date: "2026-08-20".to_string(),
        ..apod("interactive", Some("https://apod.nasa.gov/apod/image/2608/thing.mov"), None, None)
    }
    .normalize();

    assert_eq!(
        apod.sources().first(),
        Some(&Source::Video("https://apod.nasa.gov/apod/image/2608/thing.mov".to_string()))
    );
}

#[test]
fn video_files_are_told_apart_from_embed_links() {
    assert!(is_video_file("https://apod.nasa.gov/apod/image/2608/a.mp4"));
    assert!(is_video_file("https://apod.nasa.gov/apod/image/2608/A.MOV"));
    assert!(is_video_file("https://example.com/a.mp4?v=2#t=10"));
    assert!(!is_video_file("https://www.youtube.com/embed/abc123"));
    assert!(!is_video_file("https://player.vimeo.com/video/12345"));
    assert!(!is_video_file("https://apod.nasa.gov/apod/image/2608/a.jpg"));
    // A dot in a directory name is not an extension.
    assert!(!is_video_file("https://example.com/v1.2/watch"));
}

#[test]
fn an_image_apod_offers_hdurl_before_url() {
    let a = apod(
        "image",
        Some("https://apod.nasa.gov/apod/image/2608/small.jpg"),
        Some("https://apod.nasa.gov/apod/image/2608/large.jpg"),
        None,
    );
    assert_eq!(
        a.sources(),
        vec![
            Source::Image("https://apod.nasa.gov/apod/image/2608/large.jpg".to_string()),
            Source::Image("https://apod.nasa.gov/apod/image/2608/small.jpg".to_string()),
        ]
    );
}

#[test]
fn a_video_file_with_a_thumbnail_keeps_the_file_as_the_last_resort() {
    let a = apod(
        "video",
        Some("https://apod.nasa.gov/apod/image/2608/clip.m4v"),
        None,
        Some("https://apod.nasa.gov/apod/image/2608/clip.jpg"),
    );
    assert_eq!(
        a.sources(),
        vec![
            Source::Image("https://apod.nasa.gov/apod/image/2608/clip.jpg".to_string()),
            Source::Video("https://apod.nasa.gov/apod/image/2608/clip.m4v".to_string()),
        ]
    );
}

#[test]
fn normalize_collapses_the_copyright_and_drops_an_empty_one() {
    let mut a = apod("image", Some("u"), None, None);
    a.copyright = Some("\n  Jane   Doe \n and\tJohn ".to_string());
    assert_eq!(a.normalize().copyright.as_deref(), Some("Jane Doe and John"));

    let mut b = apod("image", Some("u"), None, None);
    b.copyright = Some(" \n\t ".to_string());
    assert_eq!(b.normalize().copyright, None);
}

#[test]
fn blank_to_none_keeps_real_urls() {
    let mut kept = Some("https://example.com/a.jpg".to_string());
    blank_to_none(&mut kept);
    assert_eq!(kept.as_deref(), Some("https://example.com/a.jpg"));
    let mut blank = Some("   ".to_string());
    blank_to_none(&mut blank);
    assert_eq!(blank, None);
}

#[test]
fn push_skips_absent_and_listed_candidates() {
    let mut list = vec![Source::Image("a".to_string())];
    push(&mut list, None);
    push(&mut list, Some(Source::Image("a".to_string())));
    push(&mut list, Some(Source::Video("a".to_string())));
    assert_eq!(list, vec![Source::Image("a".to_string()), Source::Video("a".to_string())]);
}

#[test]
fn source_url_is_the_url_of_either_kind() {
    assert_eq!(Source::Image("x".to_string()).url(), "x");
    assert_eq!(Source::Video("y".to_string()).url(), "y");
}

#[test]
fn outages_are_told_apart_from_hard_failures() {
    assert!(ApiError::Network("down".to_string()).is_offline());
    assert!(ApiError::RateLimited.is_offline());
    assert!(ApiError::Http(500).is_offline());
    assert!(ApiError::Http(599).is_offline());
    assert!(!ApiError::Http(600).is_offline());
    assert!(!ApiError::Http(404).is_offline());
    assert!(!ApiError::NotFound.is_offline());
    assert!(!ApiError::Parse("x".to_string()).is_offline());
    assert!(!ApiError::TooLarge.is_offline());
}

#[test]
fn every_error_has_its_message() {
    assert_eq!(ApiError::Network("timed out".to_string()).message(), "Network error: timed out");
    assert_eq!(
        ApiError::RateLimited.message(),
        "API key quota exceeded (DEMO_KEY allows 30 requests/hour). Will retry automatically."
    );
    assert_eq!(
        ApiError::NotFound.message(),
        "No APOD was published on that date (the archive has a few days with no entry)."
    );
    assert_eq!(ApiError::Http(503).message(), "HTTP error 503 from the NASA API.");
    assert_eq!(ApiError::Parse("eof".to_string()).message(), "Unreadable API response: eof");
    assert_eq!(
        ApiError::TooLarge.message(),
        "The file is larger than 128 MB and was not downloaded."
    );
}

#[test]
fn statuses_map_to_errors() {
    assert!(metadata_status(200).is_none());
    assert!(matches!(metadata_status(429), Some(ApiError::RateLimited)));
    assert!(matches!(metadata_status(404), Some(ApiError::NotFound)));
    assert!(matches!(metadata_status(400), Some(ApiError::NotFound)));
    assert!(matches!(metadata_status(502), Some(ApiError::Http(502))));
    assert!(download_status(204).is_none());
    assert!(matches!(download_status(301), Some(ApiError::Http(301))));
}

#[test]
fn downloads_stop_at_the_ceiling() {
    assert!(!declared_too_large(None));
    assert!(!declared_too_large(Some(MAX_DOWNLOAD_BYTES as u64)));
    assert!(declared_too_large(Some(MAX_DOWNLOAD_BYTES as u64 + 1)));
    assert!(chunk_fits(MAX_DOWNLOAD_BYTES - 10, 10));
    assert!(!chunk_fits(MAX_DOWNLOAD_BYTES - 10, 11));
    assert_eq!(reserve_hint(None), 0);
    assert_eq!(reserve_hint(Some(1000)), 1000);
    assert_eq!(reserve_hint(Some(u64::MAX)), 16 * 1024 * 1024);
}
