use apod_wallpaper::settings::{FitMode, Mode, Settings};
use apod_wallpaper::store::Store;
use apod_wallpaper::{ui_state, AppData};

#[test]
fn the_panel_sees_the_settings_and_the_status() {
    let mut d = AppData {
        settings: Settings { mode: Mode::Random, api_key: "k".into(), ..Settings::default() },
        settings_path: "/d/settings.json".into(),
        store: Store::new("/d", None),
        offline: true,
        status_message: Some("old".into()),
        last_check: None,
    };
    let u = ui_state(&d);
    assert_eq!(u.mode, Mode::Random);
    assert_eq!(u.fit_mode, FitMode::BlurFill);
    assert_eq!(u.api_key, "k");
    assert!(u.offline);
    assert_eq!(u.status_message.as_deref(), Some("old"));
    assert!(u.current.is_none());

    d.conclude_update("28/07 10:00".into(), None, Some("new".into()));
    assert!(d.offline);
    d.conclude_update("28/07 10:30".into(), Some(false), None);
    let u = ui_state(&d);
    assert!(!u.offline);
    assert_eq!(u.status_message, None);
    assert_eq!(u.last_check.as_deref(), Some("28/07 10:30"));
}
