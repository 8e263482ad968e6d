# APOD Wallpaper

Sets NASA's Astronomy Picture of the Day as the desktop wallpaper, once a day,
from a tray icon. Three modes (the picture of the day, a random day of the
archive, a day of your choosing), two ways of fitting the picture to the
screen, and a background task that sleeps on one timer from one day change to
the next, retrying on a backoff after a failure and every 30 minutes while
today's picture is not published yet.

The decisions are a library verified with Verus; the program around it does
the disk, network, desktop and window work.

## Layout

- `src/` -- the verified library, `apod_wallpaper`:
  - `update_run` decides one update step by step: whether anything is due,
    what to ask the API, which candidate to download next, what to record
    and what to tell the user. A failure before a new wallpaper is set
    leaves the desktop alone; one after it (the record not saving) puts the
    previous wallpaper back when its files are there.
  - `scheduler` decides how long to sleep after an update: until just after
    the day changes, 30 minutes while today's picture is not published, or a
    jittered, doubling backoff capped at 15 minutes after a failure.
  - `nasa_api` reads an APOD: the downloads worth trying, best first, without
    repeats, and what each error means and says.
  - `dates`, `settings`, `store`, `commands`, `screen`, `tray`, `updater`,
    `video_frame`, `cache` and `text` hold the rest: the archive's bounds, the
    on-disk layout and what survives a commit, the panel's commands, the
    monitor to measure, the tray labels, the file names, the choice of a video
    frame, the image history, and the string work they all share.
- `tests/` -- tests of the library on concrete values.
- `app/` -- the Tauri program: panel, tray, HTTP, image composition, video
  decoding, wallpaper setting and the files on disk.

## Verifying

The library verifies with Verus; the outside crates it calls (`chrono` for
dates, `image` to sniff and decode downloads, `rand`) are reached through a handful of trusted wrappers, each with
a doc comment saying what its contract claims of the crate.
