//! One update, as a sequence of decisions between pieces of outside work.
//!
//! The work itself -- measuring the screen, asking the API, downloading,
//! decoding, composing, setting the wallpaper, writing the state file -- is
//! done by whoever drives the run. Each method here takes the result of the
//! last piece of work and says what to do next, until a `Step::Done` tells the
//! driver how the update ended and what to show the user.
//!
//! Failures leave the desktop as it was: once a step has failed, the only work
//! asked for is a further candidate of the same day, never a composition or a
//! wallpaper change. The one failure that can come after a new wallpaper was
//! set is its record failing to persist, and then the wallpaper in place
//! before the update is put back (`Step::Restore`) whenever its files are
//! there; only a first wallpaper, with none before it, stays unrecorded.

use vstd::prelude::*;
use crate::dates::{format_date, is_calendar_date, iso_text, date_check, result_view, check_apod_date, ApodDate};
use crate::nasa_api::{opt_view, source_url, source_views, sources_of, video_type, Apod, ApiError, Source, SourceView};
use crate::settings::{FitMode, Mode, Settings};
use crate::store::Applied;
use crate::text::{clone_opt, concat, concat3, eq_str, push_char, seq_less, str_less};
use crate::updater::{
    decode_bytes, decodes_as_image, image_kind, sniffed_kind, extension_of, is_on_target, kind_extension, note, notes_for, on_target, opt_text,
    wallpaper_file_name, wallpaper_name, ImageKind, Outcome, ASSUMED_SCREEN_HEIGHT,
    ASSUMED_SCREEN_WIDTH, MAX_RANDOM_ATTEMPTS,
};

verus! {

/// Why one candidate download yielded no usable image.
///
/// Download and decode failures are kept apart because they mean different
/// things to the app -- one may be an outage worth flagging as offline, the
/// other never is -- but both are worth retrying on the next candidate.
#[derive(Debug)]
pub enum FetchFailure {
    Download(ApiError),
    Decode(String),
}

/// A downloaded candidate made a still, or the reason it could not be: the
/// bytes to store, the picture they decode to, and the format they are
/// stored under. A payload that does not decode is a `Decode` failure, which
/// sends the run on to the next candidate before anything is written.
pub fn still_from_decoded(bytes: Vec<u8>, decoded: Result<image::DynamicImage, String>)
    -> (r: Result<(Vec<u8>, image::DynamicImage, ImageKind), FetchFailure>)
    ensures
        match decoded {
            Ok(picture) => r matches Ok((b, p, k)) && b@ == bytes@ && p == picture && k
                == sniffed_kind(bytes@),
            Err(e) => r matches Err(FetchFailure::Decode(m)) && m@ == unusable_text(e@),
        },
{
    match decoded {
        Ok(picture) => {
            let kind = image_kind(bytes.as_slice());
            Ok((bytes, picture, kind))
        },
        Err(e) => Err(FetchFailure::Decode(concat("The downloaded file is unusable: ", e.as_str()))),
    }
}

pub open spec fn unusable_text(e: Seq<char>) -> Seq<char> {
    "The downloaded file is unusable: "@ + e
}

/// Decodes a downloaded candidate in memory: a still when it decodes, a
/// `Decode` failure when it does not.
pub fn still_from_download(bytes: Vec<u8>) -> (r: Result<(Vec<u8>, image::DynamicImage, ImageKind), FetchFailure>)
    ensures
        r is Ok <==> decodes_as_image(bytes@),
        r matches Ok((b, _, k)) ==> b@ == bytes@ && k == sniffed_kind(bytes@),
        r matches Err(f) ==> f is Decode,
{
    let decoded = decode_bytes(bytes.as_slice());
    still_from_decoded(bytes, decoded)
}

/// What an update starts from.
pub struct UpdateInputs {
    pub settings: Settings,
    /// The wallpaper currently applied, if any.
    pub applied: Option<Applied>,
    /// Both files backing `applied` are still on disk and not empty.
    pub usable: bool,
    /// Today's date on the local clock.
    pub today: ApodDate,
    /// The main screen's size, when a screen is reported at all.
    pub screen: Option<(u32, u32)>,
    /// Skip the "is anything due?" check, as the panel's actions do.
    pub force: bool,
}

/// The next piece of work, or the end of the update.
#[derive(Debug)]
pub enum Step {
    /// Recompose the stored original for another fit or screen size into
    /// `record.wallpaper_file` and set that as the wallpaper. No network
    /// involved, and nothing recorded yet: a `Commit` follows.
    Reapply { record: Applied },
    /// Draw a random date from the archive.
    DrawDate,
    /// Ask the API for the APOD of `date`, or for the latest one.
    Fetch { date: Option<ApodDate> },
    /// Download one candidate and turn it into a still: decode an image, or
    /// take a frame out of a video. Nothing is written to disk yet.
    Obtain { source: Source },
    /// Store the still obtained last as `record.image_file`, compose it into
    /// `record.wallpaper_file` and set that as the wallpaper. Nothing is
    /// recorded yet: a `Commit` follows.
    Install { record: Applied },
    /// Persist `record` as the applied wallpaper.
    Commit { record: Applied },
    /// Put `record`, the wallpaper in place before this update, back on the
    /// desktop: the new one was set but could not be recorded. Its files are
    /// still on disk, since only a successful commit prunes them.
    Restore { record: Applied },
    /// The update is over. `offline` is the new offline flag, or `None` to
    /// leave it as it was; `status` is the new status line for the panel.
    Done { offline: Option<bool>, status: Option<String>, result: Result<Outcome, String> },
}

/// Which result a run is waiting for.
#[derive(Debug, Clone, Copy, PartialEq, Eq, Structural)]
pub enum Phase {
    ReapplyOnTarget,
    ReapplyFound,
    Drawing,
    Fetching,
    Obtaining,
    Installing,
    Committing,
    Restoring,
    Finished,
}

/// The phase a step leaves its run in.
pub open spec fn phase_after(s: Step) -> Phase {
    match s {
        Step::Reapply { .. } => Phase::ReapplyOnTarget,
        Step::DrawDate => Phase::Drawing,
        Step::Fetch { .. } => Phase::Fetching,
        Step::Obtain { .. } => Phase::Obtaining,
        Step::Install { .. } => Phase::Installing,
        Step::Commit { .. } => Phase::Committing,
        Step::Restore { .. } => Phase::Restoring,
        Step::Done { .. } => Phase::Finished,
    }
}

/// A step and the phase of the run agree: the driver answers each step with
/// the method of the same name.
pub open spec fn step_agrees(s: Step, p: Phase) -> bool {
    match s {
        Step::Reapply { .. } => p == Phase::ReapplyOnTarget || p == Phase::ReapplyFound,
        _ => p == phase_after(s),
    }
}

pub open spec fn result_text(r: Result<Outcome, String>) -> Result<Outcome, Seq<char>> {
    match r {
        Ok(o) => Ok(o),
        Err(e) => Err(e@),
    }
}

/// The step ends the update with these effects.
pub open spec fn is_done(
    s: Step,
    offline: Option<bool>,
    status: Option<Seq<char>>,
    result: Result<Outcome, Seq<char>>,
) -> bool {
    match s {
        Step::Done { offline: o, status: st, result: r } => o == offline && opt_text(st) == status
            && result_text(r) == result,
        _ => false,
    }
}

/// An error handed back as is: the offline flag is left alone and the
/// message becomes the status line.
pub open spec fn is_failure(s: Step, message: Seq<char>) -> bool {
    is_done(s, None, Some(message), Err(message))
}

/// What the scheduler is told once the wallpaper shows `date`: daily mode
/// still waits for today's publication when it is showing an earlier day.
pub open spec fn outcome_for(settings: Settings, date: Seq<char>, today: Seq<char>) -> Outcome {
    if settings.mode == Mode::Daily && seq_less(date, today) {
        Outcome::AwaitingPublication
    } else {
        Outcome::Satisfied
    }
}

/// The message for an API error, prefixed with what is kept when the error
/// is an outage and a wallpaper is in place.
pub open spec fn offline_text(e: ApiError, applied: Option<Applied>) -> Seq<char> {
    match applied {
        Some(a) => if e.spec_offline() {
            "Offline -- keeping the image from "@ + a.date@ + ". "@ + e.spec_message()
        } else {
            e.spec_message()
        },
        None => e.spec_message(),
    }
}

pub open spec fn no_image_text(date: Seq<char>) -> Seq<char> {
    "The APOD for "@ + date + " has no usable image -- current wallpaper kept."@
}

pub open spec fn exhausted_text() -> Seq<char> {
    "No usable image found after several random draws. Will try again later."@
}

/// The screen size to compose for: the one measured, else the one the
/// applied wallpaper was composed for, else a guess.
pub open spec fn target_size(screen: Option<(u32, u32)>, applied: Option<Applied>) -> (u32, u32) {
    match screen {
        Some(s) => s,
        None => match applied {
            Some(a) => (a.width, a.height),
            None => (ASSUMED_SCREEN_WIDTH, ASSUMED_SCREEN_HEIGHT),
        },
    }
}

/// `record` recomposed for `fit` at `width` x `height`: a new composition
/// name and the new composition inputs, everything else unchanged.
pub open spec fn is_reapplied(r: Applied, record: Applied, fit: FitMode, width: u32, height: u32) -> bool {
    &&& r.wallpaper_file@ == wallpaper_name(record.date@, fit, width, height)
    &&& r.fit == fit
    &&& r.width == width
    &&& r.height == height
    &&& Applied { wallpaper_file: record.wallpaper_file, fit: record.fit, width: record.width, height: record.height, ..r } == record
}

/// `record` marked as applied on `today`, everything else unchanged.
pub open spec fn is_restamped(r: Applied, record: Applied, today: Seq<char>) -> bool {
    &&& r.applied_on@ == today
    &&& Applied { applied_on: record.applied_on, ..r } == record
}

/// The record of a fresh installation: the APOD's metadata, the candidate it
/// came from, the original stored as `<date>.<ext>` and the composition's
/// name, applied today.
pub open spec fn is_install_record(
    r: Applied,
    apod: Apod,
    url: Seq<char>,
    kind: ImageKind,
    fit: FitMode,
    width: u32,
    height: u32,
    today: Seq<char>,
) -> bool {
    &&& r.date == apod.date
    &&& r.title == apod.title
    &&& r.explanation == apod.explanation
    &&& r.copyright == apod.copyright
    &&& r.media_type == apod.media_type
    &&& r.video_url == (if apod.media_type@ == video_type() {
        apod.url
    } else {
        None
    })
    &&& r.source_url@ == url
    &&& r.image_file@ == apod.date@ + seq!['.'] + kind_extension(kind)
    &&& r.wallpaper_file@ == wallpaper_name(apod.date@, fit, width, height)
    &&& r.fit == fit
    &&& r.width == width
    &&& r.height == height
    &&& r.applied_on@ == today
}

/// `record` recomposed for another fit mode or screen size.
pub fn reapplied_record(record: &Applied, fit: FitMode, width: u32, height: u32) -> (r: Applied)
    ensures
        is_reapplied(r, *record, fit, width, height),
{
    let mut r = record.clone();
    r.wallpaper_file = wallpaper_file_name(record.date.as_str(), fit, width, height);
    r.fit = fit;
    r.width = width;
    r.height = height;
    r
}

/// The record of a fresh installation.
pub fn install_record(
    apod: &Apod,
    url: &str,
    kind: ImageKind,
    fit: FitMode,
    width: u32,
    height: u32,
    today: &str,
) -> (r: Applied)
    ensures
        is_install_record(r, *apod, url@, kind, fit, width, height, today@),
{
    let mut image_file = apod.date.clone();
    push_char(&mut image_file, '.');
    let ext = extension_of(kind);
    image_file.append(ext);
    assert(image_file@ =~= apod.date@ + seq!['.'] + kind_extension(kind));
    Applied {
        date: apod.date.clone(),
        title: apod.title.clone(),
        explanation: apod.explanation.clone(),
        copyright: clone_opt(&apod.copyright),
        media_type: apod.media_type.clone(),
        video_url: if apod.is_video() {
            clone_opt(&apod.url)
        } else {
            None
        },
        source_url: String::from_str(url),
        image_file,
        wallpaper_file: wallpaper_file_name(apod.date.as_str(), fit, width, height),
        fit,
        width,
        height,
        applied_on: String::from_str(today),
    }
}

/// The status line for an API error, and whether it puts the app offline.
pub fn offline_message(e: &ApiError, applied: &Option<Applied>) -> (r: (String, bool))
    ensures
        r.0@ == offline_text(*e, *applied),
        r.1 == e.spec_offline(),
{
    let message = e.message();
    let offline = e.is_offline();
    let full = match applied {
        Some(a) => if offline {
            let mut m = concat3("Offline -- keeping the image from ", a.date.as_str(), ". ");
            m.append(message.as_str());
            m
        } else {
            message
        },
        None => message,
    };
    (full, offline)
}

fn failure(message: String) -> (s: Step)
    ensures
        is_failure(s, message@),
{
    Step::Done { offline: None, status: Some(message.clone()), result: Err(message) }
}

fn outcome(settings: &Settings, date: &str, today: &str) -> (o: Outcome)
    ensures
        o == outcome_for(*settings, date@, today@),
{
    if settings.mode == Mode::Daily && str_less(date, today) {
        Outcome::AwaitingPublication
    } else {
        Outcome::Satisfied
    }
}

/// One update in progress.
pub struct UpdateRun {
    settings: Settings,
    applied: Option<Applied>,
    usable: bool,
    today: String,
    width: u32,
    height: u32,
    phase: Phase,
    fetches: usize,
    apod: Option<Apod>,
    candidates: Vec<Source>,
    next: usize,
    first_failure: Option<FetchFailure>,
    pending: Option<Applied>,
    desktop_changed: bool,
    commit_error: Option<String>,
}

impl UpdateRun {
    pub closed spec fn spec_settings(&self) -> Settings {
        self.settings
    }

    pub closed spec fn spec_applied(&self) -> Option<Applied> {
        self.applied
    }

    pub closed spec fn spec_usable(&self) -> bool {
        self.usable
    }

    pub closed spec fn spec_today(&self) -> Seq<char> {
        self.today@
    }

    pub closed spec fn spec_width(&self) -> u32 {
        self.width
    }

    pub closed spec fn spec_height(&self) -> u32 {
        self.height
    }

    pub closed spec fn spec_phase(&self) -> Phase {
        self.phase
    }

    /// Which result the run is waiting for: the driver answers with the
    /// method that matches it.
    pub fn phase(&self) -> (p: Phase)
        ensures
            p == self.spec_phase(),
    {
        self.phase
    }

    /// How many times the API has been asked so far.
    pub closed spec fn spec_fetches(&self) -> nat {
        self.fetches as nat
    }

    /// The APOD chosen for installation, once one has been found.
    pub closed spec fn spec_apod(&self) -> Option<Apod> {
        self.apod
    }

    /// The candidates of the chosen APOD, best first.
    pub closed spec fn spec_candidates(&self) -> Seq<SourceView> {
        source_views(self.candidates@)
    }

    /// The candidate being tried.
    pub closed spec fn spec_next(&self) -> nat {
        self.next as nat
    }

    /// The record the work in progress will persist.
    pub closed spec fn spec_pending(&self) -> Option<Applied> {
        self.pending
    }

    /// The run's own bookkeeping holds together: the API is never asked more
    /// than `MAX_RANDOM_ATTEMPTS` times, a candidate is only ever tried from
    /// the chosen APOD's own list, and work that persists a record has one.
    pub closed spec fn wf(&self) -> bool {
        &&& self.fetches <= MAX_RANDOM_ATTEMPTS
        &&& self.phase == Phase::Drawing ==> self.fetches < MAX_RANDOM_ATTEMPTS
        &&& self.phase == Phase::Fetching ==> 1 <= self.fetches <= MAX_RANDOM_ATTEMPTS
        &&& self.phase == Phase::Obtaining ==> {
            &&& self.apod is Some
            &&& source_views(self.candidates@) == sources_of(self.apod->0@)
            &&& self.next < self.candidates@.len()
        }
        &&& (self.phase == Phase::Installing || self.phase == Phase::Committing || self.phase
            == Phase::ReapplyOnTarget || self.phase == Phase::ReapplyFound) ==> self.pending is Some
        &&& self.phase == Phase::Restoring ==> self.commit_error is Some
    }

    /// The update's inputs carried from one step to the next.
    pub open spec fn same_inputs(&self, other: &UpdateRun) -> bool {
        &&& self.spec_settings() == other.spec_settings()
        &&& self.spec_applied() == other.spec_applied()
        &&& self.spec_usable() == other.spec_usable()
        &&& self.spec_today() == other.spec_today()
        &&& self.spec_width() == other.spec_width()
        &&& self.spec_height() == other.spec_height()
    }

    /// The end of the update once `record` is the wallpaper in place.
    pub open spec fn is_settled_on(&self, s: Step, record: Applied) -> bool {
        is_done(
            s,
            Some(false),
            notes_for(self.spec_settings(), record, self.spec_today()),
            Ok(outcome_for(self.spec_settings(), record.date@, self.spec_today())),
        )
    }

    fn settled(&mut self, record: &Applied) -> (s: Step)
        requires
            old(self).wf(),
        ensures
            final(self).spec_fetches() == old(self).spec_fetches(),
            final(self).spec_apod() == old(self).spec_apod(),
            old(self).is_settled_on(s, *record),
            final(self).spec_phase() == Phase::Finished,
            final(self).same_inputs(old(self)),
            final(self).spec_fetches() == old(self).spec_fetches(),
            final(self).wf(),
    {
        self.phase = Phase::Finished;
        let o = outcome(&self.settings, record.date.as_str(), self.today.as_str());
        Step::Done { offline: Some(false), status: note(&self.settings, record, self.today.as_str()), result: Ok(o) }
    }
}

impl UpdateRun {
    /// A wallpaper of this update has been set on the desktop.
    pub closed spec fn spec_desktop_changed(&self) -> bool {
        self.desktop_changed
    }

    /// Why the record of a wallpaper already set could not be persisted.
    pub closed spec fn spec_commit_error(&self) -> Option<String> {
        self.commit_error
    }

    pub closed spec fn spec_first_failure(&self) -> Option<FetchFailure> {
        self.first_failure
    }

    /// The step after `record`, the wallpaper in place, was found to be the
    /// APOD just fetched: it is marked as applied today when it was not yet,
    /// since random mode decides from that whether today's draw has happened.
    pub open spec fn is_restamp_step(&self, s: Step, after: &UpdateRun, record: Applied) -> bool {
        if record.applied_on@ != self.spec_today() {
            &&& s matches Step::Commit { record: r }
            &&& is_restamped(r, record, self.spec_today())
            &&& after.spec_pending() == Some(r)
        } else {
            self.is_settled_on(s, record)
        }
    }

    /// The step after an APOD with a wallpaper to offer was fetched.
    pub open spec fn is_found_step(&self, s: Step, after: &UpdateRun, apod: Apod) -> bool {
        let settings = self.spec_settings();
        if self.spec_applied() is Some && self.spec_usable() && self.spec_applied()->0.date@
            == apod.date@ {
            // The API returned the image already applied: typical in daily
            // mode just after the local day change, before the new APOD is out.
            let a = self.spec_applied()->0;
            if a.fit != settings.fit_mode || a.width != self.spec_width() || a.height
                != self.spec_height() {
                &&& s matches Step::Reapply { record }
                &&& is_reapplied(record, a, settings.fit_mode, self.spec_width(), self.spec_height())
                &&& after.spec_phase() == Phase::ReapplyFound
                &&& after.spec_pending() == Some(record)
            } else {
                self.is_restamp_step(s, after, a)
            }
        } else {
            &&& s matches Step::Obtain { source }
            &&& source@ == sources_of(apod@)[0]
            &&& after.spec_next() == 0
            &&& after.spec_candidates() == sources_of(apod@)
        }
    }

    /// The step after a draw came to nothing: another draw while attempts are
    /// left, and the end of the update otherwise.
    pub open spec fn is_redraw_step(&self, s: Step) -> bool {
        if self.spec_fetches() < MAX_RANDOM_ATTEMPTS {
            s is DrawDate
        } else {
            is_done(s, Some(false), Some(exhausted_text()), Err(exhausted_text()))
        }
    }

    /// The end of the update on an API error.
    pub open spec fn is_api_failure(&self, s: Step, e: ApiError) -> bool {
        let m = offline_text(e, self.spec_applied());
        is_done(s, Some(e.spec_offline()), Some(m), Err(m))
    }

    /// Starts an update: decides whether anything is due at all, and if so
    /// what to ask the API for.
    pub fn start(inputs: UpdateInputs) -> (r: (UpdateRun, Step))
        ensures
            r.0.wf(),
            step_agrees(r.1, r.0.spec_phase()),
            r.0.spec_settings() == inputs.settings,
            r.0.spec_applied() == inputs.applied,
            r.0.spec_usable() == inputs.usable,
            r.0.spec_today() == iso_text(inputs.today),
            (r.0.spec_width(), r.0.spec_height()) == target_size(inputs.screen, inputs.applied),
            ({
                let settings = inputs.settings;
                let today = iso_text(inputs.today);
                let (w, h) = target_size(inputs.screen, inputs.applied);
                if !inputs.force && inputs.applied is Some && inputs.usable && is_on_target(
                    settings,
                    inputs.applied->0,
                    today,
                ) {
                    // Nothing due: the image on disk already answers the settings.
                    let a = inputs.applied->0;
                    if a.fit == settings.fit_mode && a.width == w && a.height == h {
                        is_done(r.1, Some(false), notes_for(settings, a, today), Ok(Outcome::Satisfied))
                    } else {
                        // Right image, wrong screen size or fit mode.
                        &&& r.1 matches Step::Reapply { record }
                        &&& is_reapplied(record, a, settings.fit_mode, w, h)
                        &&& r.0.spec_pending() == Some(record)
                    }
                } else {
                    match settings.mode {
                        // Daily mode sends no date: the API returns the most
                        // recently published image.
                        Mode::Daily => r.1 matches Step::Fetch { date } && date is None
                            && r.0.spec_fetches() == 1,
                        Mode::Random => r.1 is DrawDate && r.0.spec_fetches() == 0,
                        Mode::Specific => match date_check(settings.specific_date@, inputs.today) {
                            Ok(d) => r.1 matches Step::Fetch { date } && date == Some(d)
                                && r.0.spec_fetches() == 1,
                            Err(m) => is_failure(r.1, m),
                        },
                    }
                }
            }),
    {
        let UpdateInputs { settings, applied, usable, today, screen, force } = inputs;
        let (width, height) = match screen {
            Some(s) => s,
            None => match &applied {
                Some(a) => (a.width, a.height),
                None => (ASSUMED_SCREEN_WIDTH, ASSUMED_SCREEN_HEIGHT),
            },
        };
        let today_text = format_date(today);
        let mut run = UpdateRun {
            settings,
            applied,
            usable,
            today: today_text,
            width,
            height,
            phase: Phase::Finished,
            fetches: 0,
            apod: None,
            candidates: Vec::new(),
            next: 0,
            first_failure: None,
            pending: None,
            desktop_changed: false,
            commit_error: None,
        };
        if !force && usable {
            if let Some(a) = &run.applied {
                if on_target(&run.settings, a, run.today.as_str()) {
                    if a.fit == run.settings.fit_mode && a.width == width && a.height == height {
                        let status = note(&run.settings, a, run.today.as_str());
                        return (
                            run,
                            Step::Done { offline: Some(false), status, result: Ok(Outcome::Satisfied) },
                        );
                    }
                    let record = reapplied_record(a, run.settings.fit_mode, width, height);
                    run.pending = Some(record.clone());
                    run.phase = Phase::ReapplyOnTarget;
                    return (run, Step::Reapply { record });
                }
            }
        }
        match run.settings.mode {
            Mode::Daily => {
                run.fetches = 1;
                run.phase = Phase::Fetching;
                (run, Step::Fetch { date: None })
            },
            Mode::Random => {
                run.phase = Phase::Drawing;
                (run, Step::DrawDate)
            },
            Mode::Specific => match check_apod_date(run.settings.specific_date.as_str(), today) {
                Ok(d) => {
                    run.fetches = 1;
                    run.phase = Phase::Fetching;
                    (run, Step::Fetch { date: Some(d) })
                },
                Err(m) => (run, failure(m)),
            },
        }
    }

    /// Ends the update on an error met outside the steps, such as an HTTP
    /// client that could not be built.
    pub fn abort(&mut self, message: String) -> (s: Step)
        requires
            old(self).wf(),
        ensures
            final(self).spec_fetches() == old(self).spec_fetches(),
            final(self).spec_apod() == old(self).spec_apod(),
            final(self).wf(),
            final(self).same_inputs(old(self)),
            final(self).spec_phase() == Phase::Finished,
            final(self).spec_desktop_changed() == old(self).spec_desktop_changed(),
            final(self).spec_pending() == old(self).spec_pending(),
            is_failure(s, message@),
    {
        self.phase = Phase::Finished;
        failure(message)
    }

    /// A random date was drawn: ask the API for it.
    pub fn on_date_drawn(&mut self, date: ApodDate) -> (s: Step)
        requires
            old(self).wf(),
            old(self).spec_phase() == Phase::Drawing,
        ensures
            final(self).wf(),
            final(self).same_inputs(old(self)),
            step_agrees(s, final(self).spec_phase()),
            s == (Step::Fetch { date: Some(date) }),
            final(self).spec_fetches() == old(self).spec_fetches() + 1,
    {
        self.fetches = self.fetches + 1;
        self.phase = Phase::Fetching;
        Step::Fetch { date: Some(date) }
    }

    fn redraw(&mut self) -> (s: Step)
        requires
            old(self).wf(),
            old(self).spec_phase() == Phase::Fetching,
        ensures
            final(self).spec_fetches() == old(self).spec_fetches(),
            final(self).spec_apod() == old(self).spec_apod(),
            final(self).wf(),
            final(self).same_inputs(old(self)),
            step_agrees(s, final(self).spec_phase()),
            old(self).is_redraw_step(s),
            final(self).spec_fetches() == old(self).spec_fetches(),
    {
        if self.fetches < MAX_RANDOM_ATTEMPTS {
            self.phase = Phase::Drawing;
            Step::DrawDate
        } else {
            self.phase = Phase::Finished;
            let m = String::from_str(
                "No usable image found after several random draws. Will try again later.",
            );
            Step::Done { offline: Some(false), status: Some(m.clone()), result: Err(m) }
        }
    }

    fn api_failure(&mut self, e: ApiError) -> (s: Step)
        requires
            old(self).wf(),
        ensures
            final(self).spec_fetches() == old(self).spec_fetches(),
            final(self).spec_apod() == old(self).spec_apod(),
            final(self).wf(),
            final(self).same_inputs(old(self)),
            final(self).spec_phase() == Phase::Finished,
            old(self).is_api_failure(s, e),
    {
        self.phase = Phase::Finished;
        let (m, offline) = offline_message(&e, &self.applied);
        Step::Done { offline: Some(offline), status: Some(m.clone()), result: Err(m) }
    }

    fn restamp(&mut self, record: Applied) -> (s: Step)
        requires
            old(self).wf(),
        ensures
            final(self).spec_fetches() == old(self).spec_fetches(),
            final(self).spec_apod() == old(self).spec_apod(),
            final(self).wf(),
            final(self).same_inputs(old(self)),
            step_agrees(s, final(self).spec_phase()),
            old(self).is_restamp_step(s, final(self), record),
    {
        if !eq_str(record.applied_on.as_str(), self.today.as_str()) {
            let mut r = record;
            r.applied_on = self.today.clone();
            self.pending = Some(r.clone());
            self.phase = Phase::Committing;
            Step::Commit { record: r }
        } else {
            self.settled(&record)
        }
    }

    /// The API answered.
    pub fn on_fetched(&mut self, response: Result<Apod, ApiError>) -> (s: Step)
        requires
            old(self).wf(),
            old(self).spec_phase() == Phase::Fetching,
        ensures
            final(self).wf(),
            final(self).same_inputs(old(self)),
            step_agrees(s, final(self).spec_phase()),
            final(self).spec_fetches() == old(self).spec_fetches(),
            match response {
                Ok(apod) => if sources_of(apod@).len() > 0 {
                    &&& final(self).spec_apod() == Some(apod)
                    &&& old(self).is_found_step(s, final(self), apod)
                } else if old(self).spec_settings().mode == Mode::Random {
                    // A real publication with no usable image: random mode
                    // simply draws again.
                    old(self).is_redraw_step(s)
                } else {
                    is_done(
                        s,
                        Some(false),
                        Some(no_image_text(apod.date@)),
                        Ok(outcome_for(old(self).spec_settings(), apod.date@, old(self).spec_today())),
                    )
                },
                Err(e) => if e is NotFound && old(self).spec_settings().mode == Mode::Random {
                    old(self).is_redraw_step(s)
                } else {
                    old(self).is_api_failure(s, e)
                },
            },
    {
        match response {
            Ok(apod) => {
                if apod.has_wallpaper() {
                    self.found(apod)
                } else if self.settings.mode == Mode::Random {
                    self.redraw()
                } else {
                    self.phase = Phase::Finished;
                    let m = concat3(
                        "The APOD for ",
                        apod.date.as_str(),
                        " has no usable image -- current wallpaper kept.",
                    );
                    let o = outcome(&self.settings, apod.date.as_str(), self.today.as_str());
                    Step::Done { offline: Some(false), status: Some(m), result: Ok(o) }
                }
            },
            Err(e) => {
                let not_found = match &e {
                    ApiError::NotFound => true,
                    _ => false,
                };
                if not_found && self.settings.mode == Mode::Random {
                    self.redraw()
                } else {
                    self.api_failure(e)
                }
            },
        }
    }

    fn found(&mut self, apod: Apod) -> (s: Step)
        requires
            old(self).wf(),
            old(self).spec_phase() == Phase::Fetching,
            sources_of(apod@).len() > 0,
        ensures
            final(self).wf(),
            final(self).same_inputs(old(self)),
            step_agrees(s, final(self).spec_phase()),
            final(self).spec_fetches() == old(self).spec_fetches(),
            final(self).spec_apod() == Some(apod),
            old(self).is_found_step(s, final(self), apod),
    {
        let same = match &self.applied {
            Some(a) => self.usable && eq_str(a.date.as_str(), apod.date.as_str()),
            None => false,
        };
        if same {
            let a = match &self.applied {
                Some(a) => a.clone(),
                None => {
                    assert(false);
                    return self.abort(String::new());
                },
            };
            self.apod = Some(apod);
            if a.fit != self.settings.fit_mode || a.width != self.width || a.height != self.height {
                let record = reapplied_record(&a, self.settings.fit_mode, self.width, self.height);
                self.pending = Some(record.clone());
                self.phase = Phase::ReapplyFound;
                Step::Reapply { record }
            } else {
                self.restamp(a)
            }
        } else {
            let candidates = apod.sources();
            let first = candidates[0].clone();
            self.apod = Some(apod);
            self.candidates = candidates;
            self.next = 0;
            self.phase = Phase::Obtaining;
            Step::Obtain { source: first }
        }
    }

    /// The recomposition finished and, when it succeeded, is on the desktop:
    /// its record is persisted next, marked as applied today when the run
    /// found it through the API.
    pub fn on_reapplied(&mut self, result: Result<(), String>) -> (s: Step)
        requires
            old(self).wf(),
            old(self).spec_phase() == Phase::ReapplyOnTarget || old(self).spec_phase()
                == Phase::ReapplyFound,
        ensures
            final(self).wf(),
            final(self).same_inputs(old(self)),
            step_agrees(s, final(self).spec_phase()),
            final(self).spec_fetches() == old(self).spec_fetches(),
            match result {
                Err(m) => is_failure(s, m@) && final(self).spec_desktop_changed() == old(self).spec_desktop_changed(),
                Ok(()) => {
                    let record = old(self).spec_pending()->0;
                    &&& s matches Step::Commit { record: r }
                    &&& (if old(self).spec_phase() == Phase::ReapplyOnTarget {
                        r == record
                    } else {
                        is_restamped(r, record, old(self).spec_today())
                    })
                    &&& final(self).spec_pending() == Some(r)
                    &&& final(self).spec_desktop_changed()
                },
            },
    {
        let record = match &self.pending {
            Some(r) => r.clone(),
            None => return self.abort(String::new()),
        };
        match result {
            Err(m) => self.abort(m),
            Ok(()) => {
                let mut r = record;
                if self.phase == Phase::ReapplyFound {
                    r.applied_on = self.today.clone();
                }
                self.pending = Some(r.clone());
                self.desktop_changed = true;
                self.phase = Phase::Committing;
                Step::Commit { record: r }
            },
        }
    }

    /// A candidate was downloaded and turned into a still, or failed to be.
    pub fn on_obtained(&mut self, result: Result<ImageKind, FetchFailure>) -> (s: Step)
        requires
            old(self).wf(),
            old(self).spec_phase() == Phase::Obtaining,
        ensures
            final(self).wf(),
            final(self).same_inputs(old(self)),
            step_agrees(s, final(self).spec_phase()),
            ({
                let apod = old(self).spec_apod()->0;
                let tried = old(self).spec_candidates()[old(self).spec_next() as int];
                match result {
                    Ok(kind) => {
                        &&& s matches Step::Install { record }
                        &&& is_install_record(
                            record,
                            apod,
                            source_url(tried),
                            kind,
                            old(self).spec_settings().fit_mode,
                            old(self).spec_width(),
                            old(self).spec_height(),
                            old(self).spec_today(),
                        )
                        &&& final(self).spec_pending() == Some(record)
                    },
                    Err(f) => {
                        // The first failure is the one worth reporting: the
                        // others are fallbacks for it.
                        let first = match old(self).spec_first_failure() {
                            Some(g) => g,
                            None => f,
                        };
                        if old(self).spec_next() + 1 < old(self).spec_candidates().len() {
                            &&& s matches Step::Obtain { source }
                            &&& source@ == old(self).spec_candidates()[old(self).spec_next() + 1int]
                            &&& final(self).spec_next() == old(self).spec_next() + 1
                            &&& final(self).spec_first_failure() == Some(first)
                        } else {
                            match first {
                                FetchFailure::Download(e) => old(self).is_api_failure(s, e),
                                FetchFailure::Decode(m) => is_done(s, Some(false), Some(m@), Err(m@)),
                            }
                        }
                    },
                }
            }),
    {
        let ghost views = source_views(self.candidates@);
        assert(views[self.next as int] == self.candidates@[self.next as int]@);
        match result {
            Ok(kind) => {
                let apod = match &self.apod {
                    Some(a) => a,
                    None => return self.abort(String::new()),
                };
                let record = install_record(
                    apod,
                    self.candidates[self.next].url(),
                    kind,
                    self.settings.fit_mode,
                    self.width,
                    self.height,
                    self.today.as_str(),
                );
                self.pending = Some(record.clone());
                self.phase = Phase::Installing;
                Step::Install { record }
            },
            Err(f) => {
                let next = self.next;
                let count = self.candidates.len();
                let first = match self.first_failure.take() {
                    Some(g) => g,
                    None => f,
                };
                if next + 1 < count {
                    self.next = next + 1;
                    self.first_failure = Some(first);
                    assert(views[self.next as int] == self.candidates@[self.next as int]@);
                    Step::Obtain { source: self.candidates[self.next].clone() }
                } else {
                    match first {
                        FetchFailure::Download(e) => self.api_failure(e),
                        FetchFailure::Decode(m) => {
                            self.phase = Phase::Finished;
                            Step::Done { offline: Some(false), status: Some(m.clone()), result: Err(m) }
                        },
                    }
                }
            },
        }
    }

    /// The installation finished and, when it succeeded, the new wallpaper is
    /// on the desktop: its record is persisted next, marked as applied on
    /// `today`, the local date once the wallpaper is set.
    pub fn on_installed(&mut self, result: Result<(), String>, today: ApodDate) -> (s: Step)
        requires
            old(self).wf(),
            old(self).spec_phase() == Phase::Installing,
        ensures
            final(self).wf(),
            final(self).same_inputs(old(self)),
            step_agrees(s, final(self).spec_phase()),
            final(self).spec_fetches() == old(self).spec_fetches(),
            match result {
                Ok(()) => {
                    &&& s matches Step::Commit { record: r }
                    &&& is_restamped(r, old(self).spec_pending()->0, iso_text(today))
                    &&& final(self).spec_pending() == Some(r)
                    &&& final(self).spec_desktop_changed()
                },
                Err(m) => is_failure(s, m@) && final(self).spec_desktop_changed() == old(self).spec_desktop_changed(),
            },
    {
        let record = match &self.pending {
            Some(r) => r.clone(),
            None => return self.abort(String::new()),
        };
        match result {
            Err(m) => self.abort(m),
            Ok(()) => {
                let mut r = record;
                r.applied_on = format_date(today);
                self.pending = Some(r.clone());
                self.desktop_changed = true;
                self.phase = Phase::Committing;
                Step::Commit { record: r }
            },
        }
    }

    /// The record was persisted, or could not be. When it could not and this
    /// update had already set a wallpaper, the one in place before it is put
    /// back, if its files are there to put back.
    pub fn on_committed(&mut self, result: Result<(), String>) -> (s: Step)
        requires
            old(self).wf(),
            old(self).spec_phase() == Phase::Committing,
        ensures
            final(self).wf(),
            final(self).same_inputs(old(self)),
            step_agrees(s, final(self).spec_phase()),
            final(self).spec_fetches() == old(self).spec_fetches(),
            match result {
                Ok(()) => old(self).is_settled_on(s, old(self).spec_pending()->0),
                Err(m) => if old(self).spec_desktop_changed() && old(self).spec_applied() is Some
                    && old(self).spec_usable() {
                    &&& s == (Step::Restore { record: old(self).spec_applied()->0 })
                    &&& final(self).spec_commit_error() == Some(m)
                } else {
                    is_failure(s, m@)
                },
            },
    {
        match result {
            Err(m) => {
                if self.desktop_changed && self.usable {
                    if let Some(a) = &self.applied {
                        let previous = a.clone();
                        self.commit_error = Some(m);
                        self.phase = Phase::Restoring;
                        return Step::Restore { record: previous };
                    }
                }
                self.abort(m)
            },
            Ok(()) => {
                let record = match &self.pending {
                    Some(r) => r.clone(),
                    None => return self.abort(String::new()),
                };
                self.settled(&record)
            },
        }
    }

    /// The previous wallpaper was put back, or could not be: either way the
    /// update ends on the error that stopped its record being persisted.
    pub fn on_restored(&mut self, result: Result<(), String>) -> (s: Step)
        requires
            old(self).wf(),
            old(self).spec_phase() == Phase::Restoring,
        ensures
            final(self).wf(),
            final(self).same_inputs(old(self)),
            final(self).spec_phase() == Phase::Finished,
            is_failure(s, old(self).spec_commit_error()->0@),
    {
        self.phase = Phase::Finished;
        let m = match self.commit_error.take() {
            Some(m) => m,
            None => String::new(),
        };
        let _ = result;
        self.abort(m)
    }
}

/// An update asks the API at most `MAX_RANDOM_ATTEMPTS` times: random mode
/// draws again on a day with nothing to show, but not for ever.
pub proof fn law_at_most_six_fetches(run: UpdateRun)
    requires
        run.wf(),
    ensures
        run.spec_fetches() <= MAX_RANDOM_ATTEMPTS,
        run.spec_phase() == Phase::Drawing ==> run.spec_fetches() + 1 <= MAX_RANDOM_ATTEMPTS,
{
}

} // verus!
