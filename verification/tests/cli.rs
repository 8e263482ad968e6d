use apod_wallpaper::{cli_action, usage, CliAction};

#[test]
fn the_usage_text_matches_the_options_that_are_parsed() {
    let text = usage("1.2.3");
    assert!(text.contains("--help"));
    assert!(text.contains("--version"));
    // Starting quietly is the only behaviour now, not something a flag asks
    // for. A `--background` left in the help text would send users to a
    // launch agent they no longer need.
    assert!(!text.contains("--background"));
    assert!(text.starts_with("APOD Wallpaper 1.2.3\n"));
}

fn args(list: &[&str]) -> Vec<String> {
    list.iter().map(|s| s.to_string()).collect()
}

#[test]
fn the_first_known_option_decides() {
    assert_eq!(cli_action(&args(&[])), CliAction::Start);
    assert_eq!(cli_action(&args(&["--background"])), CliAction::Start);
    assert_eq!(cli_action(&args(&["-h"])), CliAction::Help);
    assert_eq!(cli_action(&args(&["--foo", "--version", "-h"])), CliAction::Version);
    assert_eq!(cli_action(&args(&["-V"])), CliAction::Version);
    assert_eq!(cli_action(&args(&["--help", "-V"])), CliAction::Help);
}
