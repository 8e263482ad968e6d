use apod_wallpaper::commands::{
    restore_specific_date, set_api_key, set_fit_mode, set_mode, set_specific_date,
    specific_date_failure,
};
use apod_wallpaper::dates::ApodDate;
use apod_wallpaper::settings::{FitMode, Mode, Settings};

const TODAY: ApodDate = ApodDate { year: 2026, month: 7, day: 28 };

#[test]
fn random_mode_always_draws_again() {
    let s = Settings { mode: Mode::Random, ..Settings::default() };
    let c = set_mode(&s, Mode::Random, TODAY).unwrap();
    assert!(!c.changed && c.update && c.force);
    let c = set_mode(&s, Mode::Daily, TODAY).unwrap();
    assert!(c.changed && c.update && c.force);
    assert_eq!(c.settings.mode, Mode::Daily);
    let d = Settings::default();
    let c = set_mode(&d, Mode::Daily, TODAY).unwrap();
    assert!(!c.changed && !c.update);
}

#[test]
fn specific_mode_needs_a_stored_date() {
    let s = Settings::default();
    assert_eq!(set_mode(&s, Mode::Specific, TODAY).unwrap_err(), "Pick a date first.");
    let s = Settings { specific_date: "2001-02-03".into(), ..Settings::default() };
    assert!(set_mode(&s, Mode::Specific, TODAY).unwrap().changed);
}

#[test]
fn a_chosen_date_is_stored_canonically_and_can_be_rolled_back() {
    let s = Settings { mode: Mode::Daily, api_key: "k".into(), ..Settings::default() };
    let (c, parsed) = set_specific_date(&s, " 2001-2-3 ", TODAY).unwrap();
    assert_eq!(parsed, ApodDate { year: 2001, month: 2, day: 3 });
    assert_eq!(c.settings.mode, Mode::Specific);
    assert_eq!(c.settings.specific_date, "2001-02-03");
    assert_eq!(c.settings.api_key, "k");
    let back = restore_specific_date(&c.settings, &s);
    assert_eq!(back.mode, Mode::Daily);
    assert_eq!(back.specific_date, "");
    assert_eq!(
        specific_date_failure(parsed, "No APOD was published on that date."),
        "Could not apply the APOD for 03/02/2001: No APOD was published on that date. The current wallpaper is kept."
    );
    assert!(set_specific_date(&s, "1990-01-01", TODAY).is_err());
}

#[test]
fn the_fit_mode_recomposes_without_forcing() {
    let s = Settings::default();
    let c = set_fit_mode(&s, FitMode::BlurFill);
    assert!(!c.changed && !c.update);
    let c = set_fit_mode(&s, FitMode::CropFill);
    assert!(c.changed && c.update && !c.force);
    assert_eq!(c.settings.fit_mode, FitMode::CropFill);
}

#[test]
fn a_key_is_stored_trimmed_and_put_to_use() {
    let s = Settings { api_key: "abc".into(), ..Settings::default() };
    let c = set_api_key(&s, "  abc  ");
    assert!(!c.changed && !c.update);
    let c = set_api_key(&s, " xyz ");
    assert!(c.changed && c.update && c.force);
    assert_eq!(c.settings.api_key, "xyz");
}
