use apod_wallpaper::video_frame::{
    contrast, pack_rows, probe_instants, FrameSearch, Verdict, FALLBACK_MS, PROBES_PERMILLE,
};
use image::{Rgba, RgbaImage};

fn flat(luma: u8) -> RgbaImage {
    RgbaImage::from_pixel(64, 64, Rgba([luma, luma, luma, 255]))
}

#[test]
fn a_flat_frame_has_no_contrast() {
    // A standard deviation below 0.01.
    assert!(!contrast(flat(0).as_raw()).at_least(1), "black");
    assert!(!contrast(flat(255).as_raw()).at_least(1), "white");
    assert!(!contrast(flat(128).as_raw()).at_least(1), "mid grey");
}

#[test]
fn a_frame_with_a_picture_in_it_clears_the_bar() {
    // Half black, half white: the loudest thing a frame can be.
    let mut frame = flat(0);
    for y in 0..32 {
        for x in 0..64 {
            frame.put_pixel(x, y, Rgba([255, 255, 255, 255]));
        }
    }
    assert!(contrast(frame.as_raw()).good_enough());
}

#[test]
fn the_probes_stay_inside_the_video() {
    // Each probe is a fraction of the duration, so one at or past the whole
    // would seek past the end and the backend would report no frame.
    assert!(PROBES_PERMILLE.iter().all(|f| *f > 0 && *f < 1000));
    // In order, because the search stops at the first frame that clears the
    // bar and "earliest usable frame" is the intent.
    assert!(PROBES_PERMILLE.windows(2).all(|pair| pair[0] < pair[1]));
}

#[test]
fn probes_are_fractions_of_the_duration() {
    assert_eq!(probe_instants(Some(20_000)), vec![3_000, 8_000, 13_000, 17_000]);
    assert_eq!(probe_instants(Some(0)), vec![FALLBACK_MS]);
    assert_eq!(probe_instants(None), vec![FALLBACK_MS]);
}

#[test]
fn the_search_keeps_the_least_flat_frame() {
    let mut search = FrameSearch::new();
    assert_eq!(search.outcome(), Err("The video yielded no frame.".to_string()));
    search.offer_error("decoder gave up".to_string());
    assert_eq!(search.outcome(), Err("decoder gave up".to_string()));

    let mut dim = flat(0);
    dim.put_pixel(0, 0, Rgba([40, 40, 40, 255]));
    let mut dimmer = flat(0);
    dimmer.put_pixel(0, 0, Rgba([10, 10, 10, 255]));
    assert_eq!(search.offer(contrast(dimmer.as_raw())), Verdict::KeepAsBest);
    assert_eq!(search.offer(contrast(dim.as_raw())), Verdict::KeepAsBest);
    assert_eq!(search.offer(contrast(flat(3).as_raw())), Verdict::Discard);
    assert_eq!(search.outcome(), Ok(()));

    let mut loud = flat(0);
    for x in 0..64 {
        loud.put_pixel(x, 0, Rgba([255, 255, 255, 255]));
        loud.put_pixel(x, 1, Rgba([255, 255, 255, 255]));
    }
    assert_eq!(search.offer(contrast(loud.as_raw())), Verdict::TakeNow);
}

#[test]
fn an_empty_frame_has_no_contrast() {
    assert!(!contrast(&[]).at_least(1));
    assert!(!contrast(&[1, 2, 3]).good_enough());
}

#[test]
fn padded_rows_are_packed_tight() {
    // Two pixels a row, rows padded to 12 bytes, the last row unpadded.
    let mut data = vec![];
    data.extend_from_slice(&[1, 2, 3, 4, 5, 6, 7, 8, 0, 0, 0, 0]);
    data.extend_from_slice(&[9, 10, 11, 12, 13, 14, 15, 16]);
    let packed = pack_rows(2, 2, 12, &data).unwrap();
    assert_eq!(packed, (1..=16).collect::<Vec<u8>>());
}

#[test]
fn rows_that_do_not_fit_are_refused_with_the_reason() {
    assert_eq!(pack_rows(0, 2, 8, &[0; 16]).unwrap_err(), "The extracted frame has no pixels.");
    assert_eq!(pack_rows(2, 0, 8, &[0; 16]).unwrap_err(), "The extracted frame has no pixels.");
    assert_eq!(
        pack_rows(usize::MAX / 2, 1, usize::MAX, &[0; 4]).unwrap_err(),
        "The extracted frame is implausibly large."
    );
    assert_eq!(pack_rows(2, 2, 7, &[0; 16]).unwrap_err(), "The frame's rows are shorter than its width.");
    assert_eq!(pack_rows(2, 2, 12, &[0; 19]).unwrap_err(), "The frame did not fill its buffer.");
    assert_eq!(pack_rows(2, 2, 12, &[0; 20]).unwrap().len(), 16);
}
