use apod_wallpaper::scheduler::{
    apply_jitter, next_backoff, next_wait, with_jitter, Schedule, UpdateEnd, BACKOFF_MAX_MS,
    BACKOFF_START_MS, RECHECK_MS,
};
use apod_wallpaper::updater::Outcome;

#[test]
fn backoff_doubles_up_to_the_cap() {
    let mut backoff = BACKOFF_START_MS;
    let mut seen = vec![];
    for _ in 0..12 {
        seen.push(backoff);
        backoff = next_backoff(backoff);
    }
    assert_eq!(seen[0], 10_000);
    assert_eq!(seen[1], 20_000);
    assert_eq!(seen[2], 40_000);
    assert_eq!(*seen.last().unwrap(), BACKOFF_MAX_MS);
}

#[test]
fn jitter_stays_within_twenty_percent() {
    let base = 100_000;
    for _ in 0..100 {
        let d = with_jitter(base);
        assert!(d >= 80_000 && d <= 120_000);
    }
}

#[test]
fn jitter_scales_by_thousandths() {
    assert_eq!(apply_jitter(100_000, 800), 80_000);
    assert_eq!(apply_jitter(100_000, 1199), 119_900);
}

#[test]
fn a_success_sleeps_until_the_day_changes_and_forgets_the_backoff() {
    let w = next_wait(UpdateEnd::Succeeded(Outcome::Satisfied), 640_000, 600_000, 1000);
    assert_eq!((w.sleep_ms, w.backoff_ms), (600_000, BACKOFF_START_MS));
    // Nine hours to midnight: one timer of nine hours, not instalments.
    let w = next_wait(UpdateEnd::Succeeded(Outcome::Satisfied), 640_000, 32_400_000, 1000);
    assert_eq!(w.sleep_ms, 32_400_000);
}

#[test]
fn an_unpublished_picture_is_looked_for_again_at_the_next_wake() {
    let w = next_wait(UpdateEnd::Succeeded(Outcome::AwaitingPublication), 40_000, 5_000_000, 1000);
    assert_eq!((w.sleep_ms, w.backoff_ms), (RECHECK_MS, BACKOFF_START_MS));
}

#[test]
fn a_failure_waits_the_jittered_backoff_and_doubles_it() {
    let w = next_wait(UpdateEnd::Failed, 40_000, 5_000_000, 1100);
    assert_eq!((w.sleep_ms, w.backoff_ms), (44_000, 80_000));
    let w = next_wait(UpdateEnd::Failed, BACKOFF_MAX_MS, 5_000_000, 1199);
    assert_eq!((w.sleep_ms, w.backoff_ms), (1_079_100, BACKOFF_MAX_MS));
}

#[test]
fn any_duration_is_jittered_within_twenty_percent() {
    let base = 3_600_000_000;
    for _ in 0..20 {
        let d = with_jitter(base);
        assert!(d >= 2_880_000_000 && d <= 4_320_000_000);
    }
    assert_eq!(apply_jitter(u64::MAX / 2, 1000), u64::MAX / 2);
}

#[test]
fn a_backoff_beyond_the_ceiling_comes_back_to_it() {
    assert_eq!(next_backoff(BACKOFF_MAX_MS * 4), BACKOFF_MAX_MS);
    assert_eq!(next_backoff(449_999), 899_998);
    assert_eq!(next_backoff(450_000), BACKOFF_MAX_MS);
}

#[test]
fn failures_in_a_row_back_off_and_a_success_starts_again() {
    let mut schedule = Schedule::new();
    let mut sleeps = vec![];
    for _ in 0..9 {
        let (next, sleep) = schedule.after(UpdateEnd::Failed, 5_000_000, 1000);
        schedule = next;
        sleeps.push(sleep);
    }
    assert_eq!(
        sleeps,
        vec![10_000, 20_000, 40_000, 80_000, 160_000, 320_000, 640_000, 900_000, 900_000]
    );
    // A satisfied update sleeps the whole way to the day change, on one timer.
    let (next, sleep) = schedule.after(UpdateEnd::Succeeded(Outcome::Satisfied), 32_400_000, 1000);
    assert_eq!(sleep, 32_400_000);
    // ... and the next failure starts from the first delay again.
    let (_, sleep) = next.after(UpdateEnd::Failed, 5_000_000, 1100);
    assert_eq!(sleep, 11_000);
}
