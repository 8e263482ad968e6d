use apod_wallpaper::settings::FitMode;
use apod_wallpaper::store::Applied;
use apod_wallpaper::tray::{info_label, title_label, truncate};

#[test]
fn truncate_keeps_short_titles_and_bounds_long_ones() {
    assert_eq!(truncate("Andromeda", 20), "Andromeda");
    assert_eq!(truncate("Andromeda", 6), "And...");
    // Counted in characters, not bytes: a title cut mid-character would
    // reach the tray as broken text.
    assert_eq!(truncate("\u{e9}\u{e9}\u{e9}\u{e9}\u{e9}\u{e9}", 4), "\u{e9}...");
}

#[test]
fn truncate_below_the_ellipsis_keeps_only_the_ellipsis() {
    assert_eq!(truncate("Andromeda", 2), "...");
    assert_eq!(truncate("Andromeda", 9), "Andromeda");
}

fn applied(title: &str, media_type: &str, copyright: Option<&str>) -> Applied {
    Applied {
        date: "2026-07-28".into(),
        title: title.into(),
        explanation: "e".into(),
        copyright: copyright.map(str::to_string),
        media_type: media_type.into(),
        video_url: None,
        source_url: "u".into(),
        image_file: "i.jpg".into(),
        wallpaper_file: "w.jpg".into(),
        fit: FitMode::BlurFill,
        width: 1,
        height: 1,
        applied_on: "2026-07-28".into(),
    }
}

#[test]
fn the_labels_show_title_date_and_credit() {
    assert_eq!(title_label(&None), "No image loaded");
    assert_eq!(info_label(&None), "-");
    let image = Some(applied("Andromeda", "image", None));
    assert_eq!(title_label(&image), "Andromeda");
    assert_eq!(info_label(&image), "2026-07-28 -- NASA (public domain)");
    let video = Some(applied("Meteor", "video", Some("Jane Doe")));
    assert_eq!(title_label(&video), "Meteor (video)");
    assert_eq!(info_label(&video), "2026-07-28 -- (c) Jane Doe");
}
