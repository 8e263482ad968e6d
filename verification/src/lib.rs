//! The verified core of the APOD wallpaper application: choosing what to
//! download for a day, the rules that decide whether an update is due, the
//! file names and records it keeps, and the retry schedule.

pub mod text;
pub mod dates;
pub mod settings;
pub mod nasa_api;
pub mod store;
pub mod updater;
pub mod update_run;
mod chance;
pub mod scheduler;
pub mod tray;
pub mod commands;
pub mod screen;
pub mod video_frame;
pub mod cache;

use vstd::prelude::*;
use crate::settings::{FitMode, Mode, Settings};
use crate::store::{Applied, Store};
use crate::text::{clone_opt, concat, eq_chars};

verus! {

/// Everything the application holds in memory between updates.
pub struct AppData {
    pub settings: Settings,
    pub settings_path: String,
    pub store: Store,
    pub offline: bool,
    pub status_message: Option<String>,
    pub last_check: Option<String>,
}

/// State pushed to the settings panel (frontend).
#[derive(Debug)]
pub struct UiState {
    pub mode: Mode,
    pub fit_mode: FitMode,
    pub api_key: String,
    pub specific_date: String,
    pub offline: bool,
    pub status_message: Option<String>,
    pub last_check: Option<String>,
    pub current: Option<Applied>,
}

/// What the panel is shown of the application's state: the settings as they
/// stand, the status, and the wallpaper in place.
pub open spec fn is_ui_state_of(u: UiState, d: AppData) -> bool {
    &&& u.mode == d.settings.mode
    &&& u.fit_mode == d.settings.fit_mode
    &&& u.api_key == d.settings.api_key
    &&& u.specific_date == d.settings.specific_date
    &&& u.offline == d.offline
    &&& u.status_message == d.status_message
    &&& u.last_check == d.last_check
    &&& u.current == d.store.spec_applied()
}

pub fn ui_state(d: &AppData) -> (u: UiState)
    ensures
        is_ui_state_of(u, *d),
{
    UiState {
        mode: d.settings.mode,
        fit_mode: d.settings.fit_mode,
        api_key: d.settings.api_key.clone(),
        specific_date: d.settings.specific_date.clone(),
        offline: d.offline,
        status_message: clone_opt(&d.status_message),
        last_check: clone_opt(&d.last_check),
        current: match d.store.applied() {
            Some(a) => Some(a.clone()),
            None => None,
        },
    }
}

impl AppData {
    /// Records how an update ended: when it was checked, the offline flag
    /// (left alone when `offline` is `None`) and the status line.
    pub fn conclude_update(&mut self, last_check: String, offline: Option<bool>, status: Option<String>)
        ensures
            final(self).last_check == Some(last_check),
            final(self).offline == (match offline {
                Some(o) => o,
                None => old(self).offline,
            }),
            final(self).status_message == status,
            final(self).settings == old(self).settings,
            final(self).settings_path == old(self).settings_path,
            final(self).store == old(self).store,
    {
        self.last_check = Some(last_check);
        if let Some(o) = offline {
            self.offline = o;
        }
        self.status_message = status;
    }
}

/// What a command line asks for.
#[derive(Debug, Clone, Copy, PartialEq, Eq, Structural)]
pub enum CliAction {
    /// `-h` or `--help`: print the usage text.
    Help,
    /// `-V` or `--version`: print the version.
    Version,
    /// Anything else: start the application.
    Start,
}

pub open spec fn arg_action(a: Seq<char>) -> Option<CliAction> {
    if a == seq!['-', 'h'] || a == seq!['-', '-', 'h', 'e', 'l', 'p'] {
        Some(CliAction::Help)
    } else if a == seq!['-', 'V'] || a == seq!['-', '-', 'v', 'e', 'r', 's', 'i', 'o', 'n'] {
        Some(CliAction::Version)
    } else {
        None
    }
}

/// The first argument that asks for something decides; unknown arguments
/// are passed over.
pub open spec fn cli_action_of(args: Seq<Seq<char>>) -> CliAction
    decreases args.len(),
{
    if args.len() == 0 {
        CliAction::Start
    } else {
        match arg_action(args[0]) {
            Some(a) => a,
            None => cli_action_of(args.drop_first()),
        }
    }
}

/// What the arguments after the program name ask for.
pub fn cli_action(args: &Vec<String>) -> (a: CliAction)
    ensures
        a == cli_action_of(args@.map_values(|s: String| s@)),
{
    let ghost all = args@.map_values(|s: String| s@);
    let mut i: usize = 0;
    assert(all.skip(0) =~= all);
    while i < args.len()
        invariant
            i <= args@.len(),
            all == args@.map_values(|s: String| s@),
            cli_action_of(all) == cli_action_of(all.skip(i as int)),
        decreases args@.len() - i,
    {
        let arg = args[i].as_str();
        assert(all.skip(i as int)[0] == arg@);
        if eq_chars(arg, &vec!['-', 'h']) || eq_chars(arg, &vec!['-', '-', 'h', 'e', 'l', 'p']) {
            return CliAction::Help;
        }
        if eq_chars(arg, &vec!['-', 'V']) || eq_chars(
            arg,
            &vec!['-', '-', 'v', 'e', 'r', 's', 'i', 'o', 'n'],
        ) {
            return CliAction::Version;
        }
        assert(all.skip(i as int).drop_first() =~= all.skip(i + 1));
        i = i + 1;
    }
    CliAction::Start
}

/// What the binary answers to `--help`, after its name and version. Short on
/// purpose: this application has no options that change how it behaves.
/// Starting it never puts anything on screen, so there is no flag asking it
/// not to.
pub const USAGE_BODY: &'static str = "\n\nSets NASA's Astronomy Picture of the Day as your desktop wallpaper.\nStarts in the background and stays there; the tray icon opens the\nsettings panel.\n\nUsage: apod-wallpaper [OPTIONS]\n\nOptions:\n  -h, --help    Show this message\n  -V, --version Show the version\n";

/// The text printed for `--help`.
pub fn usage(version: &str) -> (u: String)
    ensures
        u@ == "APOD Wallpaper "@ + version@ + USAGE_BODY@,
{
    let mut u = concat("APOD Wallpaper ", version);
    u.append(USAGE_BODY);
    u
}

} // verus!
