use apod_wallpaper::settings::FitMode;
use apod_wallpaper::store::{join, Applied, Store};

fn applied() -> Applied {
    Applied {
        date: "2026-07-28".into(),
        title: "t".into(),
        explanation: "e".into(),
        copyright: None,
        media_type: "image".into(),
        video_url: None,
        source_url: "u".into(),
        image_file: "2026-07-28.jpg".into(),
        wallpaper_file: "wall-2026-07-28-blur-1920x1080.jpg".into(),
        fit: FitMode::BlurFill,
        width: 1920,
        height: 1080,
        applied_on: "2026-07-28".into(),
    }
}

#[test]
fn the_layout_hangs_off_the_root() {
    let store = Store::new("/data/apod", None);
    assert_eq!(store.dir(), "/data/apod/current");
    assert_eq!(store.state_path(), "/data/apod/state.json");
    assert_eq!(store.legacy_cache_dir(), "/data/apod/cache");
    assert!(store.applied().is_none());
    let a = applied();
    assert_eq!(store.image_path(&a), "/data/apod/current/2026-07-28.jpg");
    assert_eq!(store.wallpaper_path(&a), "/data/apod/current/wall-2026-07-28-blur-1920x1080.jpg");
    assert_eq!(join("/data/", "x"), "/data/x");
}

#[test]
fn only_the_files_of_the_record_survive_a_commit() {
    let mut store = Store::new("/data", None);
    let names: Vec<String> = vec![
        "2026-07-27.jpg".into(),
        "2026-07-28.jpg".into(),
        ".incoming-wallpaper".into(),
        "wall-2026-07-28-blur-1920x1080.jpg".into(),
    ];
    assert!(store.files_to_prune(&names).is_empty());
    store.set_applied(applied());
    assert_eq!(store.applied().map(|a| a.date.as_str()), Some("2026-07-28"));
    assert_eq!(
        store.files_to_prune(&names),
        vec!["2026-07-27.jpg".to_string(), ".incoming-wallpaper".to_string()]
    );
}
