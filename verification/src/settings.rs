//! The user's settings: which picture to show and how to fit it.

use vstd::prelude::*;
use crate::text::{trim, trim_str};

verus! {

/// Key used when the user has not supplied their own.
/// DEMO_KEY limits: 30 requests/hour, 50/day.
pub const DEMO_KEY: &'static str = "DEMO_KEY";

#[derive(Debug, Clone, Copy, PartialEq, Eq, Structural)]
pub enum Mode {
    /// Today's APOD.
    Daily,
    /// A random date from the APOD archive.
    Random,
    /// A fixed date chosen by the user (see `specific_date`).
    Specific,
}

#[derive(Debug, Clone, Copy, PartialEq, Eq, Structural)]
pub enum FitMode {
    /// Whole image centred over a blurred fill of itself (default).
    BlurFill,
    /// Image cropped to fill the screen, no blur.
    CropFill,
}

#[derive(Debug)]
pub struct Settings {
    /// Personal NASA API key. Empty string means DEMO_KEY.
    pub api_key: String,
    pub mode: Mode,
    pub fit_mode: FitMode,
    /// Date for `Specific` mode, formatted YYYY-MM-DD. Empty until the user
    /// picks one.
    pub specific_date: String,
}

impl Clone for Settings {
    fn clone(&self) -> (r: Self)
        ensures
            r == *self,
    {
        Settings {
            api_key: self.api_key.clone(),
            mode: self.mode,
            fit_mode: self.fit_mode,
            specific_date: self.specific_date.clone(),
        }
    }
}

impl Default for Settings {
    fn default() -> (s: Settings)
        ensures
            s.api_key@ == Seq::<char>::empty(),
            s.mode == Mode::Daily,
            s.fit_mode == FitMode::BlurFill,
            s.specific_date@ == Seq::<char>::empty(),
    {
        Settings {
            api_key: String::new(),
            mode: Mode::Daily,
            fit_mode: FitMode::BlurFill,
            specific_date: String::new(),
        }
    }
}

/// The key a request is sent with: the user's own, trimmed, or the demo key
/// when there is none.
pub open spec fn effective_key(api_key: Seq<char>) -> Seq<char> {
    if trim(api_key).len() == 0 {
        DEMO_KEY@
    } else {
        trim(api_key)
    }
}

impl Settings {
    pub fn effective_api_key(&self) -> (k: &str)
        ensures
            k@ == effective_key(self.api_key@),
    {
        let trimmed = trim_str(self.api_key.as_str());
        if trimmed.unicode_len() == 0 {
            DEMO_KEY
        } else {
            trimmed
        }
    }
}

} // verus!
