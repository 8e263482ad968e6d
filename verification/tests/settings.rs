use apod_wallpaper::settings::{FitMode, Mode, Settings, DEMO_KEY};

#[test]
fn a_key_of_only_spaces_falls_back_to_the_demo_key() {
    let settings = Settings {
        api_key: "   ".to_string(),
        ..Settings::default()
    };
    assert_eq!(settings.effective_api_key(), DEMO_KEY);
}

#[test]
fn a_key_is_trimmed_where_it_is_used() {
    let settings = Settings {
        api_key: "  spaced-key  ".to_string(),
        ..Settings::default()
    };
    assert_eq!(settings.effective_api_key(), "spaced-key");
    assert_eq!(settings.api_key, "  spaced-key  ");
}

#[test]
fn the_defaults_are_daily_blurred_and_keyless() {
    let s = Settings::default();
    assert_eq!(s.mode, Mode::Daily);
    assert_eq!(s.fit_mode, FitMode::BlurFill);
    assert_eq!(s.api_key, "");
    assert_eq!(s.specific_date, "");
    assert_eq!(s.effective_api_key(), "DEMO_KEY");
}
