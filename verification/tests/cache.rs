use apod_wallpaper::cache::{cache_entry, default_media_type, Cache, CacheEntry, MAX_ENTRIES};
use apod_wallpaper::nasa_api::Apod;
use apod_wallpaper::settings::FitMode;

fn entry(date: &str, fetched_at: &str) -> CacheEntry {
    CacheEntry {
        date: date.into(),
        title: "t".into(),
        explanation: "e".into(),
        copyright: None,
        media_type: default_media_type(),
        video_url: None,
        source_url: "u".into(),
        image_file: format!("{date}.jpg"),
        fetched_at: fetched_at.into(),
    }
}

#[test]
fn entries_are_found_by_date_and_the_latest_by_publication() {
    let cache = Cache::new(
        "/c",
        vec![entry("2020-01-02", "b"), entry("2021-05-05", "a"), entry("2019-12-31", "c")],
    );
    assert_eq!(cache.get("2021-05-05").map(|e| e.fetched_at.as_str()), Some("a"));
    assert!(cache.get("2000-01-01").is_none());
    assert_eq!(cache.latest().map(|e| e.date.as_str()), Some("2021-05-05"));
    assert!(Cache::new("/c", vec![]).latest().is_none());
    assert!(Cache::new("/c", vec![]).random().is_none());
    let picked = cache.random().unwrap();
    assert!(cache.entries().iter().any(|e| e.date == picked.date));
}

#[test]
fn of_equal_dates_the_last_is_the_latest() {
    let cache = Cache::new("/c", vec![entry("2021-05-05", "first"), entry("2021-05-05", "second")]);
    assert_eq!(cache.latest().map(|e| e.fetched_at.as_str()), Some("second"));
}

#[test]
fn paths_follow_the_layout() {
    let cache = Cache::new("/data/cache", vec![]);
    assert_eq!(cache.images_dir(), "/data/cache/images");
    assert_eq!(cache.wallpapers_dir(), "/data/cache/wallpapers");
    assert_eq!(cache.image_path(&entry("2020-01-02", "x")), "/data/cache/images/2020-01-02.jpg");
    assert_eq!(
        cache.wallpaper_path("2020-01-02", FitMode::CropFill),
        "/data/cache/wallpapers/wall-2020-01-02-crop.jpg"
    );
}

#[test]
fn storing_replaces_the_day_and_prunes_the_oldest_downloads() {
    let mut entries = Vec::new();
    for i in 0..MAX_ENTRIES {
        entries.push(entry(&format!("2000-01-{:02}", i % 28 + 1), &format!("t{:03}", 100 + i)));
    }
    let mut cache = Cache::new("/c", entries);
    // Replacing a day adds nothing.
    let removed = cache.insert(entry("2000-01-01", "t999"));
    assert!(removed.is_empty());
    assert_eq!(cache.entries().len(), MAX_ENTRIES - 2);

    let mut cache = Cache::new("/c", (0..MAX_ENTRIES).map(|i| entry(&format!("1999-{:03}", i), &format!("t{:03}", 500 - i))).collect());
    // The new entry is the oldest download of all, and still survives.
    let removed = cache.insert(entry("2024-01-01", "a000"));
    assert_eq!(cache.entries().len(), MAX_ENTRIES);
    assert_eq!(removed.len(), 1);
    assert_eq!(removed[0].date, "1999-059");
    assert_eq!(cache.entries()[0].date, "2024-01-01");
    assert!(cache.get("2024-01-01").is_some());
}

#[test]
fn an_entry_records_where_the_image_came_from() {
    let apod = Apod {
        date: "2026-01-02".into(),
        title: "Thumb".into(),
        explanation: "...".into(),
        url: Some("https://www.youtube.com/embed/x".into()),
        hdurl: None,
        media_type: "video".into(),
        copyright: Some("C".into()),
        thumbnail_url: Some("https://img.youtube.com/vi/x/0.jpg".into()),
    };
    let e = cache_entry(&apod, "https://img.youtube.com/vi/x/0.jpg", b"GIF89a..", "2026-01-02T10:00:00+00:00");
    assert_eq!(e.image_file, "2026-01-02.gif");
    assert_eq!(e.video_url.as_deref(), Some("https://www.youtube.com/embed/x"));
    assert_eq!(e.fetched_at, "2026-01-02T10:00:00+00:00");
    assert_eq!(e.copyright.as_deref(), Some("C"));
}
