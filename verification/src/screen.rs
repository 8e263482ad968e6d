//! Measuring the display the wallpaper is composed for.
//!
//! The main display, the one carrying the menu bar or the top bar. The others
//! get the same image. `None` is a meaningful answer and not a failure: it
//! means the desktop reports no main display at all, the lid closed with no
//! external screen being the usual way.

use vstd::prelude::*;
use crate::text::eq_str;

verus! {

/// Smallest wallpaper the composition produces, and therefore the floor a
/// monitor report is clamped to. Declared once because the two must agree: a
/// screen measured below it would otherwise be recorded at one size and
/// composed at another, and every later comparison would see a resolution
/// change that never happened.
pub const MIN_SCREEN_WIDTH: u32 = 640;
pub const MIN_SCREEN_HEIGHT: u32 = 400;

pub open spec fn clamped(w: u32, h: u32) -> (u32, u32) {
    (if w < MIN_SCREEN_WIDTH { MIN_SCREEN_WIDTH } else { w }, if h < MIN_SCREEN_HEIGHT {
        MIN_SCREEN_HEIGHT
    } else {
        h
    })
}

/// A measured size raised to the smallest wallpaper composed.
pub fn clamp_to_min_screen(w: u32, h: u32) -> (r: (u32, u32))
    ensures
        r == clamped(w, h),
        r.0 >= MIN_SCREEN_WIDTH,
        r.1 >= MIN_SCREEN_HEIGHT,
{
    (if w < MIN_SCREEN_WIDTH { MIN_SCREEN_WIDTH } else { w }, if h < MIN_SCREEN_HEIGHT {
        MIN_SCREEN_HEIGHT
    } else {
        h
    })
}

/// Physical resolution of the main display as measured, clamped.
pub fn size(measured: Option<(u32, u32)>) -> (r: Option<(u32, u32)>)
    ensures
        r == (match measured {
            Some((w, h)) => Some(clamped(w, h)),
            None => None,
        }),
{
    match measured {
        Some((w, h)) => Some(clamp_to_min_screen(w, h)),
        None => None,
    }
}

/// A logical monitor of Mutter's display configuration, reduced to what the
/// choice reads: whether it is flagged primary, and the connector of the
/// first physical monitor it spans, when that can be read.
#[derive(Debug)]
pub struct LogicalMonitor {
    pub primary: bool,
    pub connector: Option<String>,
}

/// A physical monitor: its connector, when it can be read, and its modes.
#[derive(Debug)]
pub struct Monitor {
    pub connector: Option<String>,
    pub modes: Vec<DisplayMode>,
}

/// A display mode: whether it is the one in use, and its size in pixels
/// when those can be read.
#[derive(Debug)]
pub struct DisplayMode {
    pub current: bool,
    pub width: Option<i32>,
    pub height: Option<i32>,
}

/// The index of the first primary logical monitor.
pub open spec fn first_primary(ls: Seq<LogicalMonitor>) -> Option<int>
    decreases ls.len(),
{
    if ls.len() == 0 {
        None
    } else if ls[0].primary {
        Some(0)
    } else {
        match first_primary(ls.drop_first()) {
            Some(i) => Some(i + 1),
            None => None,
        }
    }
}

/// The logical monitor to measure: the primary one, and with none flagged --
/// which happens on some multi-head layouts -- the first, which matches what
/// GNOME itself puts first.
pub open spec fn chosen_logical(ls: Seq<LogicalMonitor>) -> Option<int> {
    match first_primary(ls) {
        Some(i) => Some(i),
        None => if ls.len() > 0 {
            Some(0)
        } else {
            None
        },
    }
}

/// The index of the first monitor plugged into `connector`.
pub open spec fn monitor_on(ms: Seq<Monitor>, connector: Seq<char>) -> Option<int>
    decreases ms.len(),
{
    if ms.len() == 0 {
        None
    } else if ms[0].connector is Some && ms[0].connector->0@ == connector {
        Some(0)
    } else {
        match monitor_on(ms.drop_first(), connector) {
            Some(i) => Some(i + 1),
            None => None,
        }
    }
}

/// The index of the first mode in use.
pub open spec fn current_mode(modes: Seq<DisplayMode>) -> Option<int>
    decreases modes.len(),
{
    if modes.len() == 0 {
        None
    } else if modes[0].current {
        Some(0)
    } else {
        match current_mode(modes.drop_first()) {
            Some(i) => Some(i + 1),
            None => None,
        }
    }
}

/// The real pixels of the main display: the mode in use on the monitor that
/// the chosen logical monitor names, when its size is known and positive.
pub open spec fn resolution(ls: Seq<LogicalMonitor>, ms: Seq<Monitor>) -> Option<(u32, u32)> {
    match chosen_logical(ls) {
        None => None,
        Some(li) => match ls[li].connector {
            None => None,
            Some(c) => match monitor_on(ms, c@) {
                None => None,
                Some(mi) => match current_mode(ms[mi].modes@) {
                    None => None,
                    Some(k) => {
                        let m = ms[mi].modes@[k];
                        match (m.width, m.height) {
                            (Some(w), Some(h)) => if w > 0 && h > 0 {
                                Some((w as u32, h as u32))
                            } else {
                                None
                            },
                            _ => None,
                        }
                    },
                },
            },
        },
    }
}

pub proof fn lemma_first_primary_bound(ls: Seq<LogicalMonitor>)
    ensures
        first_primary(ls) matches Some(i) ==> 0 <= i < ls.len(),
    decreases ls.len(),
{
    if ls.len() > 0 && !ls[0].primary {
        lemma_first_primary_bound(ls.drop_first());
    }
}

fn find_primary(ls: &Vec<LogicalMonitor>) -> (r: Option<usize>)
    ensures
        r matches Some(i) ==> first_primary(ls@) == Some(i as int) && i < ls@.len(),
        r is None ==> first_primary(ls@) is None,
{
    let mut i: usize = 0;
    assert(ls@.skip(0) =~= ls@);
    while i < ls.len()
        invariant
            i <= ls@.len(),
            first_primary(ls@) == (match first_primary(ls@.skip(i as int)) {
                Some(k) => Some(k + i),
                None => None,
            }),
        decreases ls@.len() - i,
    {
        if ls[i].primary {
            return Some(i);
        }
        assert(ls@.skip(i as int).drop_first() =~= ls@.skip(i + 1));
        i = i + 1;
    }
    None
}

fn find_monitor(ms: &Vec<Monitor>, connector: &str) -> (r: Option<usize>)
    ensures
        r matches Some(i) ==> monitor_on(ms@, connector@) == Some(i as int) && i < ms@.len(),
        r is None ==> monitor_on(ms@, connector@) is None,
{
    let mut i: usize = 0;
    assert(ms@.skip(0) =~= ms@);
    while i < ms.len()
        invariant
            i <= ms@.len(),
            monitor_on(ms@, connector@) == (match monitor_on(ms@.skip(i as int), connector@) {
                Some(k) => Some(k + i),
                None => None,
            }),
        decreases ms@.len() - i,
    {
        let found = match &ms[i].connector {
            Some(c) => eq_str(c.as_str(), connector),
            None => false,
        };
        if found {
            return Some(i);
        }
        assert(ms@.skip(i as int).drop_first() =~= ms@.skip(i + 1));
        i = i + 1;
    }
    None
}

fn find_current_mode(modes: &Vec<DisplayMode>) -> (r: Option<usize>)
    ensures
        r matches Some(i) ==> current_mode(modes@) == Some(i as int) && i < modes@.len(),
        r is None ==> current_mode(modes@) is None,
{
    let mut i: usize = 0;
    assert(modes@.skip(0) =~= modes@);
    while i < modes.len()
        invariant
            i <= modes@.len(),
            current_mode(modes@) == (match current_mode(modes@.skip(i as int)) {
                Some(k) => Some(k + i),
                None => None,
            }),
        decreases modes@.len() - i,
    {
        if modes[i].current {
            return Some(i);
        }
        assert(modes@.skip(i as int).drop_first() =~= modes@.skip(i + 1));
        i = i + 1;
    }
    None
}

/// The main display's resolution read out of Mutter's `GetCurrentState`
/// reply. Mutter is asked rather than the toolkit because under Wayland with
/// fractional scaling GTK reports the logical size, and composing from that
/// would hand GNOME an image it then has to enlarge.
pub fn current_resolution(logical: &Vec<LogicalMonitor>, monitors: &Vec<Monitor>) -> (r: Option<(u32, u32)>)
    ensures
        r == resolution(logical@, monitors@),
{
    let li = match find_primary(logical) {
        Some(i) => i,
        None => if logical.len() > 0 {
            0
        } else {
            return None;
        },
    };
    let connector = match &logical[li].connector {
        Some(c) => c,
        None => return None,
    };
    let mi = match find_monitor(monitors, connector.as_str()) {
        Some(i) => i,
        None => return None,
    };
    let modes = &monitors[mi].modes;
    let k = match find_current_mode(modes) {
        Some(k) => k,
        None => return None,
    };
    let m = &modes[k];
    match (m.width, m.height) {
        (Some(w), Some(h)) => if w > 0 && h > 0 {
            Some((w as u32, h as u32))
        } else {
            None
        },
        _ => None,
    }
}

} // verus!
