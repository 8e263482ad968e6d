use apod_wallpaper::screen::{
    clamp_to_min_screen, current_resolution, size, DisplayMode, LogicalMonitor, Monitor,
};

#[test]
fn small_screens_are_raised_to_the_smallest_wallpaper() {
    assert_eq!(clamp_to_min_screen(320, 200), (640, 400));
    assert_eq!(clamp_to_min_screen(2560, 300), (2560, 400));
    assert_eq!(size(Some((1024, 768))), Some((1024, 768)));
    assert_eq!(size(None), None);
}

fn mode(current: bool, w: i32, h: i32) -> DisplayMode {
    DisplayMode { current, width: Some(w), height: Some(h) }
}

#[test]
fn the_primary_monitors_current_mode_is_measured() {
    let logical = vec![
        LogicalMonitor { primary: false, connector: Some("HDMI-1".into()) },
        LogicalMonitor { primary: true, connector: Some("eDP-1".into()) },
    ];
    let monitors = vec![
        Monitor { connector: Some("HDMI-1".into()), modes: vec![mode(true, 1920, 1080)] },
        Monitor {
            connector: Some("eDP-1".into()),
            modes: vec![mode(false, 3840, 2400), mode(true, 1920, 1200)],
        },
    ];
    assert_eq!(current_resolution(&logical, &monitors), Some((1920, 1200)));
}

#[test]
fn with_no_primary_the_first_logical_monitor_is_used() {
    let logical = vec![LogicalMonitor { primary: false, connector: Some("HDMI-1".into()) }];
    let monitors = vec![Monitor { connector: Some("HDMI-1".into()), modes: vec![mode(true, 2560, 1440)] }];
    assert_eq!(current_resolution(&logical, &monitors), Some((2560, 1440)));
    assert_eq!(current_resolution(&vec![], &monitors), None);
    let broken = vec![Monitor { connector: Some("HDMI-1".into()), modes: vec![mode(true, 0, 1440)] }];
    assert_eq!(current_resolution(&logical, &broken), None);
}
