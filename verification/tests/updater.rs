use apod_wallpaper::dates::{
    apod_start_date, archive_days, check_apod_date, date_in_archive, format_date, format_date_dmy, pick_random_date,
    today_string, validate_apod_date, ApodDate,
};
use apod_wallpaper::settings::{FitMode, Mode, Settings};
use apod_wallpaper::store::Applied;
use apod_wallpaper::updater::{image_extension, note, on_target, wallpaper_file_name};

fn record(date: &str, applied_on: &str) -> Applied {
    Applied {
        date: date.to_string(),
        title: "t".into(),
        explanation: "e".into(),
        copyright: None,
        media_type: "image".into(),
        video_url: None,
        source_url: "u".into(),
        image_file: "i.jpg".into(),
        wallpaper_file: "w.jpg".into(),
        fit: FitMode::BlurFill,
        width: 100,
        height: 100,
        applied_on: applied_on.to_string(),
    }
}

fn settings(mode: Mode, specific: &str) -> Settings {
    Settings {
        mode,
        specific_date: specific.to_string(),
        ..Settings::default()
    }
}

#[test]
fn daily_is_on_target_only_for_todays_publication() {
    let s = settings(Mode::Daily, "");
    assert!(on_target(&s, &record("2026-07-28", "2026-07-28"), "2026-07-28"));
    // Yesterday's picture applied today: today's is still awaited.
    assert!(!on_target(&s, &record("2026-07-27", "2026-07-28"), "2026-07-28"));
}

#[test]
fn random_is_on_target_for_any_image_drawn_today() {
    let s = settings(Mode::Random, "");
    assert!(on_target(&s, &record("1999-01-01", "2026-07-28"), "2026-07-28"));
    assert!(!on_target(&s, &record("1999-01-01", "2026-07-27"), "2026-07-28"));
}

#[test]
fn specific_is_on_target_for_the_chosen_date_only() {
    let s = settings(Mode::Specific, "2001-02-03");
    assert!(on_target(&s, &record("2001-02-03", "2026-07-01"), "2026-07-28"));
    assert!(!on_target(&s, &record("2001-02-04", "2026-07-28"), "2026-07-28"));
}

#[test]
fn wallpaper_name_carries_fit_and_screen_size() {
    assert_eq!(
        wallpaper_file_name("2026-07-28", FitMode::CropFill, 3456, 2234),
        "wall-2026-07-28-crop-3456x2234.jpg"
    );
    assert_eq!(
        wallpaper_file_name("2026-07-28", FitMode::BlurFill, 640, 400),
        "wall-2026-07-28-blur-640x400.jpg"
    );
}

#[test]
fn rejects_dates_outside_the_archive() {
    assert!(validate_apod_date("1995-06-15").is_err());
    assert!(validate_apod_date("1995-06-16").is_ok());
    assert!(validate_apod_date("not a date").is_err());
    assert!(validate_apod_date("").is_err());
    assert!(validate_apod_date("2999-01-01").is_err());
}

#[test]
fn every_date_rejection_says_why() {
    let today = ApodDate { year: 2026, month: 7, day: 28 };
    assert_eq!(check_apod_date("   ", today).unwrap_err(), "Pick a date first.");
    assert_eq!(
        check_apod_date(" 2001-02-30 ", today).unwrap_err(),
        "Invalid date: \"2001-02-30\" (expected format: YYYY-MM-DD)."
    );
    assert_eq!(
        check_apod_date("1995-06-15", today).unwrap_err(),
        "The first APOD dates from 16 June 1995: pick a date from that day on."
    );
    assert_eq!(
        check_apod_date("2026-07-29", today).unwrap_err(),
        "That date is in the future: pick today or an earlier date."
    );
    assert_eq!(
        check_apod_date(" 2026-07-28\n", today),
        Ok(ApodDate { year: 2026, month: 7, day: 28 })
    );
    assert_eq!(check_apod_date("1995-06-16", today), Ok(apod_start_date()));
}

#[test]
fn dates_are_written_the_way_chrono_writes_them() {
    assert_eq!(format_date(ApodDate { year: 2001, month: 2, day: 3 }), "2001-02-03");
    assert_eq!(format_date(ApodDate { year: 999, month: 12, day: 31 }), "0999-12-31");
    assert_eq!(format_date(ApodDate { year: 12345, month: 1, day: 1 }), "+12345-01-01");
    assert_eq!(format_date(ApodDate { year: -44, month: 3, day: 15 }), "-0044-03-15");
    assert_eq!(format_date_dmy(ApodDate { year: 2001, month: 2, day: 3 }), "03/02/2001");
    assert_eq!(today_string().len(), 10);
}

#[test]
fn a_random_date_lies_inside_the_archive() {
    let start = apod_start_date();
    let today = validate_apod_date(&today_string()).unwrap();
    for _ in 0..50 {
        let d = pick_random_date();
        assert!((d.year, d.month, d.day) >= (start.year, start.month, start.day));
        assert!((d.year, d.month, d.day) <= (today.year, today.month, today.day));
    }
}

#[test]
fn the_stored_extension_follows_the_content() {
    assert_eq!(image_extension(b"\x89PNG\r\n\x1a\nrest"), "png");
    assert_eq!(image_extension(b"GIF89a...."), "gif");
    assert_eq!(image_extension(b"GIF87a...."), "gif");
    assert_eq!(image_extension(b"RIFF\x10\x00\x00\x00WEBPVP8 "), "webp");
    assert_eq!(image_extension(&[0xff, 0xd8, 0xff, 0xe0]), "jpg");
    assert_eq!(image_extension(b"<html>404</html>"), "jpg");
}

#[test]
fn notes_say_when_the_picture_is_late_or_a_video() {
    let daily = settings(Mode::Daily, "");
    assert_eq!(note(&daily, &record("2026-07-28", "2026-07-28"), "2026-07-28"), None);
    assert_eq!(
        note(&daily, &record("2026-07-27", "2026-07-28"), "2026-07-28").as_deref(),
        Some("Today's APOD is not published yet -- showing the most recent one (2026-07-27).")
    );
    let mut video = record("2026-07-27", "2026-07-28");
    video.media_type = "video".to_string();
    assert_eq!(
        note(&daily, &video, "2026-07-28").as_deref(),
        Some(
            "Today's APOD is not published yet -- showing the most recent one (2026-07-27). \
             The APOD for 2026-07-27 is a video: its thumbnail is used as the wallpaper."
        )
    );
    let random = settings(Mode::Random, "");
    assert_eq!(
        note(&random, &video, "2026-07-28").as_deref(),
        Some("The APOD for 2026-07-27 is a video: its thumbnail is used as the wallpaper.")
    );
}

#[test]
fn the_archive_is_counted_in_calendar_days() {
    let today = ApodDate { year: 2026, month: 7, day: 28 };
    assert_eq!(archive_days(today), 11365);
    assert_eq!(archive_days(apod_start_date()), 0);
    // A day before the archive began counts as an empty archive.
    assert_eq!(archive_days(ApodDate { year: 1990, month: 1, day: 1 }), 0);
}

#[test]
fn offsets_are_counted_from_the_first_apod() {
    let today = ApodDate { year: 2026, month: 7, day: 28 };
    assert_eq!(date_in_archive(today, 0), apod_start_date());
    // 1996 is a leap year: a year on from 16 June 1995 is 366 days.
    assert_eq!(date_in_archive(today, 365), ApodDate { year: 1996, month: 6, day: 15 });
    assert_eq!(date_in_archive(today, 10000), ApodDate { year: 2022, month: 11, day: 1 });
    // Beyond anything a date can hold, the draw falls back on today.
    assert_eq!(date_in_archive(today, u64::MAX), today);
}
