use apod_wallpaper::dates::ApodDate;
use apod_wallpaper::nasa_api::{Apod, ApiError, Source};
use apod_wallpaper::settings::{FitMode, Mode, Settings};
use apod_wallpaper::store::Applied;
use apod_wallpaper::update_run::{
    install_record, offline_message, reapplied_record, FetchFailure, Step, UpdateInputs,
    UpdateRun,
};
use apod_wallpaper::updater::{ImageKind, Outcome};

const TODAY: ApodDate = ApodDate { year: 2026, month: 7, day: 28 };

fn applied(date: &str, applied_on: &str) -> Applied {
    Applied {
        date: date.into(),
        title: "t".into(),
        explanation: "e".into(),
        copyright: None,
        media_type: "image".into(),
        video_url: None,
        source_url: "u".into(),
        image_file: format!("{date}.jpg"),
        wallpaper_file: format!("wall-{date}-blur-1920x1080.jpg"),
        fit: FitMode::BlurFill,
        width: 1920,
        height: 1080,
        applied_on: applied_on.into(),
    }
}

fn apod(date: &str) -> Apod {
    Apod {
        date: date.into(),
        title: "A galaxy".into(),
        explanation: "Far away.".into(),
        url: Some(format!("https://apod.nasa.gov/{date}.jpg")),
        hdurl: Some(format!("https://apod.nasa.gov/{date}-hd.jpg")),
        media_type: "image".into(),
        copyright: Some("Jane Doe".into()),
        thumbnail_url: None,
    }
}

fn inputs(mode: Mode, applied: Option<Applied>, force: bool) -> UpdateInputs {
    UpdateInputs {
        settings: Settings { mode, specific_date: "2001-02-03".into(), ..Settings::default() },
        applied,
        usable: true,
        today: TODAY,
        screen: Some((1920, 1080)),
        force,
    }
}

fn done(step: Step) -> (Option<bool>, Option<String>, Result<Outcome, String>) {
    match step {
        Step::Done { offline, status, result } => (offline, status, result),
        other => panic!("expected the end of the update, got {other:?}"),
    }
}

#[test]
fn nothing_is_due_when_the_wallpaper_answers_the_settings() {
    let (_, step) = UpdateRun::start(inputs(Mode::Daily, Some(applied("2026-07-28", "2026-07-28")), false));
    assert_eq!(done(step), (Some(false), None, Ok(Outcome::Satisfied)));
}

#[test]
fn a_new_screen_size_recomposes_without_the_network() {
    let mut i = inputs(Mode::Daily, Some(applied("2026-07-28", "2026-07-28")), false);
    i.screen = Some((2560, 1440));
    let (mut run, step) = UpdateRun::start(i);
    match step {
        Step::Reapply { record } => {
            assert_eq!(record.wallpaper_file, "wall-2026-07-28-blur-2560x1440.jpg");
            assert_eq!((record.width, record.height), (2560, 1440));
        }
        other => panic!("expected a recomposition, got {other:?}"),
    }
    // The recomposition is on the desktop; its record is persisted next.
    let step = run.on_reapplied(Ok(()));
    assert!(matches!(step, Step::Commit { ref record } if record.width == 2560));
    assert_eq!(done(run.on_committed(Ok(()))), (Some(false), None, Ok(Outcome::Satisfied)));
}

#[test]
fn a_forced_update_asks_the_api_even_when_on_target() {
    let (_, step) = UpdateRun::start(inputs(Mode::Daily, Some(applied("2026-07-28", "2026-07-28")), true));
    assert!(matches!(step, Step::Fetch { date: None }));
}

#[test]
fn a_fresh_image_is_obtained_best_candidate_first_and_installed() {
    let (mut run, step) = UpdateRun::start(inputs(Mode::Daily, Some(applied("2026-07-27", "2026-07-27")), false));
    assert!(matches!(step, Step::Fetch { date: None }));
    let step = run.on_fetched(Ok(apod("2026-07-28")));
    match step {
        Step::Obtain { source } => assert_eq!(source, Source::Image("https://apod.nasa.gov/2026-07-28-hd.jpg".into())),
        other => panic!("expected a download, got {other:?}"),
    }
    // The large original is unusable: the standard one is tried next.
    let step = run.on_obtained(Err(FetchFailure::Decode("too large".into())));
    assert!(matches!(step, Step::Obtain { source: Source::Image(ref u) } if u == "https://apod.nasa.gov/2026-07-28.jpg"));
    let step = run.on_obtained(Ok(ImageKind::Png));
    let record = match step {
        Step::Install { record } => record,
        other => panic!("expected an installation, got {other:?}"),
    };
    assert_eq!(record.image_file, "2026-07-28.png");
    assert_eq!(record.wallpaper_file, "wall-2026-07-28-blur-1920x1080.jpg");
    assert_eq!(record.source_url, "https://apod.nasa.gov/2026-07-28.jpg");
    assert_eq!(record.copyright.as_deref(), Some("Jane Doe"));
    assert_eq!(record.applied_on, "2026-07-28");
    let step = run.on_installed(Ok(()), TODAY);
    assert!(matches!(step, Step::Commit { record: ref r } if r.image_file == "2026-07-28.png"));
    assert_eq!(done(run.on_committed(Ok(()))), (Some(false), None, Ok(Outcome::Satisfied)));
}

#[test]
fn when_every_candidate_fails_the_first_failure_is_reported() {
    let (mut run, _) = UpdateRun::start(inputs(Mode::Daily, None, false));
    run.on_fetched(Ok(apod("2026-07-28")));
    run.on_obtained(Err(FetchFailure::Download(ApiError::Network("reset".into()))));
    let end = done(run.on_obtained(Err(FetchFailure::Decode("garbage".into()))));
    assert_eq!(end, (Some(true), Some("Network error: reset".into()), Err("Network error: reset".into())));
}

#[test]
fn yesterdays_picture_awaits_todays_publication() {
    let (mut run, _) = UpdateRun::start(inputs(Mode::Daily, Some(applied("2026-07-27", "2026-07-27")), false));
    let step = run.on_fetched(Ok(apod("2026-07-27")));
    // Already applied, but not yet on today's date: marked as applied today.
    let record = match step {
        Step::Commit { record } => record,
        other => panic!("expected a commit, got {other:?}"),
    };
    assert_eq!(record.applied_on, "2026-07-28");
    assert_eq!(
        done(run.on_committed(Ok(()))),
        (
            Some(false),
            Some("Today's APOD is not published yet -- showing the most recent one (2026-07-27).".into()),
            Ok(Outcome::AwaitingPublication)
        )
    );
}

#[test]
fn an_outage_keeps_the_wallpaper_and_says_so() {
    let (mut run, _) = UpdateRun::start(inputs(Mode::Daily, Some(applied("2026-07-27", "2026-07-27")), false));
    let end = done(run.on_fetched(Err(ApiError::RateLimited)));
    let message = "Offline -- keeping the image from 2026-07-27. API key quota exceeded (DEMO_KEY allows 30 requests/hour). Will retry automatically.";
    assert_eq!(end, (Some(true), Some(message.into()), Err(message.into())));
}

#[test]
fn random_mode_draws_again_and_gives_up_after_six_fetches() {
    let (mut run, step) = UpdateRun::start(inputs(Mode::Random, None, false));
    assert!(matches!(step, Step::DrawDate));
    let mut fetches = 0;
    let mut step = run.on_date_drawn(ApodDate { year: 2000, month: 1, day: 1 });
    loop {
        match step {
            Step::Fetch { date: Some(_) } => {
                fetches += 1;
                step = run.on_fetched(Err(ApiError::NotFound));
            }
            Step::DrawDate => step = run.on_date_drawn(ApodDate { year: 2000, month: 1, day: 2 }),
            other => {
                let message = "No usable image found after several random draws. Will try again later.";
                assert_eq!(done(other), (Some(false), Some(message.into()), Err(message.into())));
                break;
            }
        }
    }
    assert_eq!(fetches, 6);
}

#[test]
fn specific_mode_needs_a_valid_date() {
    let mut i = inputs(Mode::Specific, None, false);
    let (_, step) = UpdateRun::start(UpdateInputs { ..inputs(Mode::Specific, None, false) });
    assert!(matches!(step, Step::Fetch { date: Some(ApodDate { year: 2001, month: 2, day: 3 }) }));
    i.settings.specific_date = "tomorrow".into();
    let end = done(UpdateRun::start(i).1);
    let message = "Invalid date: \"tomorrow\" (expected format: YYYY-MM-DD).";
    assert_eq!(end, (None, Some(message.into()), Err(message.into())));
}

#[test]
fn a_day_with_nothing_to_show_keeps_the_wallpaper() {
    let (mut run, _) = UpdateRun::start(inputs(Mode::Specific, None, false));
    let mut video = apod("2001-02-03");
    video.media_type = "video".into();
    video.url = Some("https://www.youtube.com/embed/x".into());
    video.hdurl = None;
    let end = done(run.on_fetched(Ok(video)));
    let message = "The APOD for 2001-02-03 has no usable image -- current wallpaper kept.";
    assert_eq!(end, (Some(false), Some(message.into()), Ok(Outcome::Satisfied)));
}

#[test]
fn a_failed_installation_is_handed_back_as_is() {
    let (mut run, _) = UpdateRun::start(inputs(Mode::Daily, None, false));
    run.on_fetched(Ok(apod("2026-07-28")));
    run.on_obtained(Ok(ImageKind::Other));
    let end = done(run.on_installed(Err("disk full".into()), TODAY));
    assert_eq!(end, (None, Some("disk full".into()), Err("disk full".into())));
}

#[test]
fn without_a_screen_the_applied_size_is_kept() {
    let mut a = applied("2026-07-28", "2026-07-28");
    a.width = 3000;
    a.height = 2000;
    a.wallpaper_file = "wall-2026-07-28-blur-3000x2000.jpg".into();
    let mut i = inputs(Mode::Daily, Some(a), false);
    i.screen = None;
    let (_, step) = UpdateRun::start(i);
    assert_eq!(done(step), (Some(false), None, Ok(Outcome::Satisfied)));
}

#[test]
fn records_are_built_from_what_was_decided() {
    let a = applied("2026-07-28", "2026-07-28");
    let r = reapplied_record(&a, FitMode::CropFill, 800, 600);
    assert_eq!(r.wallpaper_file, "wall-2026-07-28-crop-800x600.jpg");
    assert_eq!(r.fit, FitMode::CropFill);
    assert_eq!(r.image_file, a.image_file);

    let mut v = apod("2026-07-28");
    v.media_type = "video".into();
    let r = install_record(&v, "https://x/frame", ImageKind::WebP, FitMode::BlurFill, 640, 400, "2026-07-29");
    assert_eq!(r.image_file, "2026-07-28.webp");
    assert_eq!(r.video_url, v.url);
    assert_eq!(r.applied_on, "2026-07-29");

    let (m, offline) = offline_message(&ApiError::Http(404), &Some(a));
    assert_eq!((m.as_str(), offline), ("HTTP error 404 from the NASA API.", false));
}

#[test]
fn a_record_that_cannot_be_saved_puts_the_previous_wallpaper_back() {
    let (mut run, _) = UpdateRun::start(inputs(Mode::Daily, Some(applied("2026-07-27", "2026-07-27")), false));
    run.on_fetched(Ok(apod("2026-07-28")));
    run.on_obtained(Ok(ImageKind::Other));
    assert!(matches!(run.on_installed(Ok(()), TODAY), Step::Commit { .. }));
    let step = run.on_committed(Err("disk full".into()));
    match step {
        Step::Restore { record } => assert_eq!(record.date, "2026-07-27"),
        other => panic!("expected the previous wallpaper back, got {other:?}"),
    }
    let end = done(run.on_restored(Ok(())));
    assert_eq!(end, (None, Some("disk full".into()), Err("disk full".into())));
}

#[test]
fn with_no_wallpaper_before_there_is_nothing_to_put_back() {
    let (mut run, _) = UpdateRun::start(inputs(Mode::Daily, None, false));
    run.on_fetched(Ok(apod("2026-07-28")));
    run.on_obtained(Ok(ImageKind::Other));
    run.on_installed(Ok(()), TODAY);
    let end = done(run.on_committed(Err("disk full".into())));
    assert_eq!(end, (None, Some("disk full".into()), Err("disk full".into())));
}

#[test]
fn a_failed_restamp_changed_nothing_on_the_desktop() {
    let (mut run, _) = UpdateRun::start(inputs(Mode::Daily, Some(applied("2026-07-27", "2026-07-27")), false));
    assert!(matches!(run.on_fetched(Ok(apod("2026-07-27"))), Step::Commit { .. }));
    let end = done(run.on_committed(Err("read-only".into())));
    assert_eq!(end, (None, Some("read-only".into()), Err("read-only".into())));
}

#[test]
fn the_installed_record_is_dated_when_the_wallpaper_was_set() {
    let (mut run, _) = UpdateRun::start(inputs(Mode::Daily, None, false));
    run.on_fetched(Ok(apod("2026-07-28")));
    run.on_obtained(Ok(ImageKind::Other));
    // The update started late on the 28th and the wallpaper went up after
    // midnight.
    let step = run.on_installed(Ok(()), ApodDate { year: 2026, month: 7, day: 29 });
    match step {
        Step::Commit { record } => {
            assert_eq!(record.applied_on, "2026-07-29");
            assert_eq!(record.date, "2026-07-28");
        }
        other => panic!("expected a commit, got {other:?}"),
    }
}
