//! What the panel's commands change in the settings, and whether an update
//! has to follow.
//!
//! Each command waits for the operation to fully finish before answering, and
//! every one of them answers with a whole `UiState`: the panel adopts what it
//! is handed and derives nothing of its own. What is decided here is the part
//! that needs no disk, network or window.

use vstd::prelude::*;
use crate::dates::{check_apod_date, date_check, dmy_text, format_date, format_date_dmy, iso_text, result_view, ApodDate};
use crate::settings::{FitMode, Mode, Settings};
use crate::text::{concat3, eq_str, trim, trim_str};

verus! {

/// A change of settings asked for by the panel.
#[derive(Debug)]
pub struct SettingsChange {
    /// The settings to adopt.
    pub settings: Settings,
    /// They differ from the ones in place, and have to be saved.
    pub changed: bool,
    /// An update has to run afterwards.
    pub update: bool,
    /// That update skips the "is anything due?" check.
    pub force: bool,
}

/// Switches mode.
///
/// Specific-date mode requires a valid date already stored; the panel
/// normally goes through `set_specific_date`. The new mode is applied by a
/// forced update when it changed -- and in random mode always, since asking
/// for it again means "draw another one".
pub fn set_mode(current: &Settings, mode: Mode, today: ApodDate) -> (r: Result<SettingsChange, String>)
    ensures
        mode == Mode::Specific ==> (date_check(current.specific_date@, today) matches Err(m) ==> (r matches Err(e) && e@ == m)),
        (mode != Mode::Specific || date_check(current.specific_date@, today) is Ok) ==> (r matches Ok(c) && {
            &&& c.settings == (Settings { mode, ..*current })
            &&& c.changed == (current.mode != mode)
            &&& c.update == (current.mode != mode || mode == Mode::Random)
            &&& c.force
        }),
{
    if mode == Mode::Specific {
        if let Err(e) = check_apod_date(current.specific_date.as_str(), today) {
            return Err(e);
        }
    }
    let changed = current.mode != mode;
    let mut settings = current.clone();
    settings.mode = mode;
    Ok(SettingsChange { settings, changed, update: changed || mode == Mode::Random, force: true })
}

/// Switches to a date of the user's choosing, validated against the archive
/// and stored in its canonical `YYYY-MM-DD` form. The previous settings are
/// handed back so a failed update can restore them: a date the archive has no
/// entry for is wrong permanently, and retrying it forever would pin the app
/// to a request that can never succeed.
pub fn set_specific_date(current: &Settings, date: &str, today: ApodDate) -> (r: Result<(SettingsChange, ApodDate), String>)
    ensures
        match date_check(date@, today) {
            Err(m) => (r matches Err(e) && e@ == m),
            Ok(d) => (r matches Ok((c, parsed)) && {
                &&& parsed == d
                &&& c.settings.mode == Mode::Specific
                &&& c.settings.specific_date@ == iso_text(d)
                &&& c.settings.api_key == current.api_key
                &&& c.settings.fit_mode == current.fit_mode
                &&& c.changed
                &&& c.update
                &&& c.force
            }),
        },
{
    let parsed = match check_apod_date(date, today) {
        Ok(d) => d,
        Err(e) => return Err(e),
    };
    let mut settings = current.clone();
    settings.mode = Mode::Specific;
    settings.specific_date = format_date(parsed);
    Ok((SettingsChange { settings, changed: true, update: true, force: true }, parsed))
}

/// The settings in place before `set_specific_date`, restored after its
/// update failed.
pub fn restore_specific_date(current: &Settings, previous: &Settings) -> (s: Settings)
    ensures
        s == (Settings { mode: previous.mode, specific_date: previous.specific_date, ..*current }),
{
    let mut s = current.clone();
    s.mode = previous.mode;
    s.specific_date = previous.specific_date.clone();
    s
}

/// What the panel is told when the chosen date could not be applied.
pub fn specific_date_failure(date: ApodDate, message: &str) -> (m: String)
    ensures
        m@ == "Could not apply the APOD for "@ + dmy_text(date) + ": "@ + message@
            + " The current wallpaper is kept."@,
{
    let d = format_date_dmy(date);
    let mut m = concat3("Could not apply the APOD for ", d.as_str(), ": ");
    m.append(message);
    m.append(" The current wallpaper is kept.");
    m
}

/// Switches the fit mode. Nothing happens when it is already the one in
/// place; otherwise the update that follows is not forced, since the image on
/// disk still matches the mode and only needs recomposing.
pub fn set_fit_mode(current: &Settings, fit: FitMode) -> (c: SettingsChange)
    ensures
        c.settings == (Settings { fit_mode: fit, ..*current }),
        c.changed == (current.fit_mode != fit),
        c.update == c.changed,
        !c.force,
{
    let changed = current.fit_mode != fit;
    let mut settings = current.clone();
    settings.fit_mode = fit;
    SettingsChange { settings, changed, update: changed, force: false }
}

/// Saves a key, trimmed, and puts it to use at once with a forced update: the
/// whole point of typing a key is usually that DEMO_KEY's quota ran out.
pub fn set_api_key(current: &Settings, key: &str) -> (c: SettingsChange)
    ensures
        c.settings.api_key@ == trim(key@),
        c.settings.mode == current.mode,
        c.settings.fit_mode == current.fit_mode,
        c.settings.specific_date == current.specific_date,
        c.changed == (current.api_key@ != trim(key@)),
        c.update == c.changed,
        c.force,
{
    let key = trim_str(key);
    let changed = !eq_str(current.api_key.as_str(), key);
    let mut settings = current.clone();
    settings.api_key = String::from_str(key);
    SettingsChange { settings, changed, update: changed, force: true }
}

} // verus!
