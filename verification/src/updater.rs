//! What one update decides: whether anything is due, what to fetch, which
//! candidate to install, and what to tell the panel afterwards.

use vstd::prelude::*;
use crate::dates::{iso_text, ApodDate};
use crate::nasa_api::{video_type, Apod, ApiError};
use crate::settings::{FitMode, Mode, Settings};
use crate::store::Applied;
use crate::text::{
    concat3, decimal, decimal_string, eq_chars, eq_str, is_digit, lemma_decimal_injective,
    lemma_decimal_shape, push_char, seq_less, str_less,
};

verus! {

/// Re-draws allowed in random mode when a date lands on a day with no
/// publication or no usable image.
pub const MAX_RANDOM_ATTEMPTS: usize = 6;

/// Size used on a first run when the platform reports no monitor. Whatever it
/// composes gets replaced the moment a real screen shows up, since the size is
/// part of what the updater compares.
pub const ASSUMED_SCREEN_WIDTH: u32 = 1920;
pub const ASSUMED_SCREEN_HEIGHT: u32 = 1080;

/// What the scheduler should do once an update returns.
#[derive(Debug, Clone, Copy, PartialEq, Eq, Structural)]
pub enum Outcome {
    /// Nothing left to do until the local day changes.
    Satisfied,
    /// Today's APOD is not published yet. Worth another look later, but there
    /// is no hurry: this is not a failure.
    AwaitingPublication,
}

/// Is the applied image the one the settings ask for right now? Daily mode
/// wants today's publication, random mode any image drawn today, and
/// specific mode the chosen date.
pub open spec fn is_on_target(settings: Settings, a: Applied, today: Seq<char>) -> bool {
    match settings.mode {
        Mode::Daily => a.date@ == today,
        Mode::Random => a.applied_on@ == today,
        Mode::Specific => a.date@ == settings.specific_date@,
    }
}

pub fn on_target(settings: &Settings, a: &Applied, today: &str) -> (b: bool)
    ensures
        b == is_on_target(*settings, *a, today@),
{
    match settings.mode {
        Mode::Daily => eq_str(a.date.as_str(), today),
        Mode::Random => eq_str(a.applied_on.as_str(), today),
        Mode::Specific => eq_str(a.date.as_str(), settings.specific_date.as_str()),
    }
}

pub open spec fn fit_suffix(fit: FitMode) -> Seq<char> {
    match fit {
        FitMode::BlurFill => seq!['b', 'l', 'u', 'r'],
        FitMode::CropFill => seq!['c', 'r', 'o', 'p'],
    }
}

/// `wall-<date>-<fit>-<w>x<h>.jpg`. The screen size and fit mode are part of
/// the name so a resolution or monitor change forces a fresh composition, and
/// because some desktops (macOS in particular) cache the wallpaper by path and
/// ignore a file rewritten in place.
pub open spec fn wallpaper_name(date: Seq<char>, fit: FitMode, width: u32, height: u32) -> Seq<
    char,
> {
    seq!['w', 'a', 'l', 'l', '-'] + date + seq!['-'] + fit_suffix(fit) + seq!['-'] + decimal(
        width as nat,
    ) + seq!['x'] + decimal(height as nat) + seq!['.', 'j', 'p', 'g']
}

pub fn wallpaper_file_name(date: &str, fit: FitMode, width: u32, height: u32) -> (r: String)
    ensures
        r@ == wallpaper_name(date@, fit, width, height),
{
    let mut r = String::new();
    push_char(&mut r, 'w');
    push_char(&mut r, 'a');
    push_char(&mut r, 'l');
    push_char(&mut r, 'l');
    push_char(&mut r, '-');
    r.append(date);
    push_char(&mut r, '-');
    match fit {
        FitMode::BlurFill => {
            push_char(&mut r, 'b');
            push_char(&mut r, 'l');
            push_char(&mut r, 'u');
            push_char(&mut r, 'r');
        },
        FitMode::CropFill => {
            push_char(&mut r, 'c');
            push_char(&mut r, 'r');
            push_char(&mut r, 'o');
            push_char(&mut r, 'p');
        },
    }
    push_char(&mut r, '-');
    let w = decimal_string(width as u64);
    r.append(w.as_str());
    push_char(&mut r, 'x');
    let h = decimal_string(height as u64);
    r.append(h.as_str());
    push_char(&mut r, '.');
    push_char(&mut r, 'j');
    push_char(&mut r, 'p');
    push_char(&mut r, 'g');
    assert(r@ =~= wallpaper_name(date@, fit, width, height));
    r
}

/// The formats an original is stored under, told apart by content.
#[derive(Debug, Clone, Copy, PartialEq, Eq, Structural)]
pub enum ImageKind {
    Png,
    Gif,
    WebP,
    /// Anything else, JPEG included.
    Other,
}

/// What `image::guess_format` recognises of the three formats kept under
/// their own extension: the PNG signature, either GIF signature, and a RIFF
/// container of type `WEBP`. Its magic-byte table tries these before any
/// other format they could be confused with, and their first bytes differ
/// from those of the JPEG signature that sits among them.
pub open spec fn sniffed_kind(b: Seq<u8>) -> ImageKind {
    if b.len() >= 8 && b.take(8) == seq![0x89u8, 0x50u8, 0x4eu8, 0x47u8, 0x0du8, 0x0au8, 0x1au8, 0x0au8] {
        ImageKind::Png
    } else if b.len() >= 6 && (b.take(6) == seq![0x47u8, 0x49u8, 0x46u8, 0x38u8, 0x39u8, 0x61u8]
        || b.take(6) == seq![0x47u8, 0x49u8, 0x46u8, 0x38u8, 0x37u8, 0x61u8]) {
        ImageKind::Gif
    } else if b.len() >= 12 && b.take(4) == seq![0x52u8, 0x49u8, 0x46u8, 0x46u8] && b.subrange(8, 12)
        == seq![0x57u8, 0x45u8, 0x42u8, 0x50u8] {
        ImageKind::WebP
    } else {
        ImageKind::Other
    }
}

/// `image::guess_format`, reduced to the formats the store names differently.
#[verifier::external_body]
fn guess_kind(bytes: &[u8]) -> (k: ImageKind)
    ensures
        k == sniffed_kind(bytes@),
{
    match image::guess_format(bytes) {
        Ok(image::ImageFormat::Png) => ImageKind::Png,
        Ok(image::ImageFormat::Gif) => ImageKind::Gif,
        Ok(image::ImageFormat::WebP) => ImageKind::WebP,
        _ => ImageKind::Other,
    }
}

pub open spec fn kind_extension(k: ImageKind) -> Seq<char> {
    match k {
        ImageKind::Png => "png"@,
        ImageKind::Gif => "gif"@,
        ImageKind::WebP => "webp"@,
        ImageKind::Other => "jpg"@,
    }
}

pub fn extension_of(k: ImageKind) -> (e: &'static str)
    ensures
        e@ == kind_extension(k),
{
    match k {
        ImageKind::Png => "png",
        ImageKind::Gif => "gif",
        ImageKind::WebP => "webp",
        ImageKind::Other => "jpg",
    }
}

/// The kind of image a payload holds, sniffed from its first bytes.
pub fn image_kind(bytes: &[u8]) -> (k: ImageKind)
    ensures
        k == sniffed_kind(bytes@),
{
    guess_kind(bytes)
}

/// A decoded picture, as the `image` crate holds it.
#[verifier::external_type_specification]
#[verifier::external_body]
pub struct ExDynamicImage(image::DynamicImage);

/// The payload decodes to a picture, its format guessed from its content.
pub uninterp spec fn decodes_as_image(bytes: Seq<u8>) -> bool;

/// `image::ImageReader::new(Cursor::new(bytes)).with_guessed_format()`, then
/// `decode()`: the payload decoded in memory, its format sniffed from the
/// bytes rather than trusted to a file name or a Content-Type. Which payloads
/// decode is left to `image` and named; the error's text is `image`'s own,
/// behind a prefix, and is not stated.
#[verifier::external_body]
pub fn decode_bytes(bytes: &[u8]) -> (r: Result<image::DynamicImage, String>)
    ensures
        r is Ok <==> decodes_as_image(bytes@),
{
    image::ImageReader::new(std::io::Cursor::new(bytes))
        .with_guessed_format()
        .map_err(|e| format!("Could not read the downloaded image: {e}"))?
        .decode()
        .map_err(|e| format!("Not a usable image: {e}"))
}

/// The extension a payload is stored under, chosen from its content rather
/// than from whatever the server called the file.
pub fn image_extension(bytes: &[u8]) -> (e: &'static str)
    ensures
        e@ == kind_extension(sniffed_kind(bytes@)),
{
    extension_of(guess_kind(bytes))
}

pub open spec fn not_published_note(date: Seq<char>) -> Seq<char> {
    "Today's APOD is not published yet -- showing the most recent one ("@ + date + ")."@
}

pub open spec fn video_note(date: Seq<char>) -> Seq<char> {
    "The APOD for "@ + date + " is a video: its thumbnail is used as the wallpaper."@
}

/// Informational notes shown next to an applied image: that daily mode is
/// still showing an earlier day, and that the picture stands for a video.
pub open spec fn notes_for(settings: Settings, a: Applied, today: Seq<char>) -> Option<Seq<char>> {
    let stale = settings.mode == Mode::Daily && seq_less(a.date@, today);
    let video = a.media_type@ == video_type();
    if stale && video {
        Some(not_published_note(a.date@) + seq![' '] + video_note(a.date@))
    } else if stale {
        Some(not_published_note(a.date@))
    } else if video {
        Some(video_note(a.date@))
    } else {
        None
    }
}

pub open spec fn opt_text(o: Option<String>) -> Option<Seq<char>> {
    match o {
        Some(s) => Some(s@),
        None => None,
    }
}

pub fn note(settings: &Settings, a: &Applied, today: &str) -> (r: Option<String>)
    ensures
        opt_text(r) == notes_for(*settings, *a, today@),
{
    let stale = settings.mode == Mode::Daily && str_less(a.date.as_str(), today);
    let video = eq_chars(a.media_type.as_str(), &vec!['v', 'i', 'd', 'e', 'o']);
    let first = concat3(
        "Today's APOD is not published yet -- showing the most recent one (",
        a.date.as_str(),
        ").",
    );
    let second = concat3(
        "The APOD for ",
        a.date.as_str(),
        " is a video: its thumbnail is used as the wallpaper.",
    );
    if stale && video {
        let mut joined = first;
        push_char(&mut joined, ' ');
        joined.append(second.as_str());
        Some(joined)
    } else if stale {
        Some(first)
    } else if video {
        Some(second)
    } else {
        None
    }
}

/// `dec(w) + "x" + dec(h) + ".jpg"` gives back `w` and `h`.
proof fn lemma_size_part_injective(w1: nat, h1: nat, w2: nat, h2: nat)
    requires
        decimal(w1) + seq!['x'] + decimal(h1) + seq!['.', 'j', 'p', 'g'] == decimal(w2) + seq!['x']
            + decimal(h2) + seq!['.', 'j', 'p', 'g'],
    ensures
        w1 == w2,
        h1 == h2,
{
    let a = decimal(w1) + seq!['x'] + decimal(h1) + seq!['.', 'j', 'p', 'g'];
    let b = decimal(w2) + seq!['x'] + decimal(h2) + seq!['.', 'j', 'p', 'g'];
    lemma_decimal_shape(w1);
    lemma_decimal_shape(w2);
    lemma_decimal_shape(h1);
    lemma_decimal_shape(h2);
    let l1 = decimal(w1).len() as int;
    let l2 = decimal(w2).len() as int;
    // The 'x' sits right after the width, which holds only digits.
    assert(a[l1] == 'x');
    assert(b[l2] == 'x');
    if l1 < l2 {
        assert(b[l1] == decimal(w2)[l1]);
        assert(is_digit(decimal(w2)[l1]));
    }
    if l2 < l1 {
        assert(a[l2] == decimal(w1)[l2]);
        assert(is_digit(decimal(w1)[l2]));
    }
    assert(l1 == l2);
    assert(decimal(w1) =~= a.take(l1));
    assert(decimal(w2) =~= b.take(l2));
    lemma_decimal_injective(w1, w2);
    assert(decimal(h1) =~= a.subrange(l1 + 1, a.len() - 4));
    assert(decimal(h2) =~= b.subrange(l2 + 1, b.len() - 4));
    lemma_decimal_injective(h1, h2);
}

/// A wallpaper composed for another fit mode or another screen size gets
/// another file name, so a resolution or monitor change forces a fresh
/// composition, and desktops that cache the wallpaper by path (macOS in
/// particular) cannot keep showing the old one.
pub proof fn law_wallpaper_names_tell_compositions_apart(
    date: Seq<char>,
    fit1: FitMode,
    w1: u32,
    h1: u32,
    fit2: FitMode,
    w2: u32,
    h2: u32,
)
    requires
        wallpaper_name(date, fit1, w1, h1) == wallpaper_name(date, fit2, w2, h2),
    ensures
        fit1 == fit2,
        w1 == w2,
        h1 == h2,
{
    let n1 = wallpaper_name(date, fit1, w1, h1);
    let n2 = wallpaper_name(date, fit2, w2, h2);
    let k: int = 5 + date.len() as int;
    assert(n1[k + 1] == fit_suffix(fit1)[0]);
    assert(n2[k + 1] == fit_suffix(fit2)[0]);
    let s1 = decimal(w1 as nat) + seq!['x'] + decimal(h1 as nat) + seq!['.', 'j', 'p', 'g'];
    let s2 = decimal(w2 as nat) + seq!['x'] + decimal(h2 as nat) + seq!['.', 'j', 'p', 'g'];
    assert(n1 =~= seq!['w', 'a', 'l', 'l', '-'] + date + seq!['-'] + fit_suffix(fit1) + seq!['-'] + s1);
    assert(n2 =~= seq!['w', 'a', 'l', 'l', '-'] + date + seq!['-'] + fit_suffix(fit2) + seq!['-'] + s2);
    assert(s1 =~= n1.skip(k + 6));
    assert(s2 =~= n2.skip(k + 6));
    lemma_size_part_injective(w1 as nat, h1 as nat, w2 as nat, h2 as nat);
}

} // verus!
