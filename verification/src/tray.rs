//! The two labels of the tray item: the current image's title, and its date
//! and credit.

use vstd::prelude::*;
use crate::nasa_api::video_type;
use crate::store::Applied;
use crate::text::{concat, concat3, eq_chars, push_char};

verus! {

pub open spec fn ellipsis() -> Seq<char> {
    seq!['.', '.', '.']
}

/// A label shortened to `max` characters: kept whole when it fits, and
/// otherwise cut to leave room for an ellipsis.
pub open spec fn truncated(s: Seq<char>, max: nat) -> Seq<char> {
    if s.len() <= max {
        s
    } else {
        s.take(if max >= 3 { max - 3 } else { 0 }) + ellipsis()
    }
}

/// Shortens a label to fit a menu, counting characters and not bytes: a title
/// cut mid-character would reach the tray as broken text.
pub fn truncate(s: &str, max: usize) -> (r: String)
    ensures
        r@ == truncated(s@, max as nat),
{
    let n = s.unicode_len();
    if n <= max {
        return String::from_str(s);
    }
    let keep = if max >= 3 { max - 3 } else { 0 };
    let mut out = String::from_str(s.substring_char(0, keep));
    push_char(&mut out, '.');
    push_char(&mut out, '.');
    push_char(&mut out, '.');
    assert(out@ =~= s@.take(keep as int) + ellipsis());
    out
}

/// The first label: the title, marked when the image stands for a video.
pub open spec fn title_text(current: Option<Applied>) -> Seq<char> {
    match current {
        Some(c) => {
            let t = truncated(c.title@, 60);
            if c.media_type@ == video_type() {
                t + " (video)"@
            } else {
                t
            }
        },
        None => "No image loaded"@,
    }
}

/// The second label: the date and who to credit.
pub open spec fn info_text(current: Option<Applied>) -> Seq<char> {
    match current {
        Some(c) => match c.copyright {
            Some(cr) => c.date@ + " -- (c) "@ + truncated(cr@, 45),
            None => c.date@ + " -- NASA (public domain)"@,
        },
        None => "-"@,
    }
}

pub fn title_label(current: &Option<Applied>) -> (r: String)
    ensures
        r@ == title_text(*current),
{
    match current {
        Some(c) => {
            let t = truncate(c.title.as_str(), 60);
            if eq_chars(c.media_type.as_str(), &vec!['v', 'i', 'd', 'e', 'o']) {
                concat(t.as_str(), " (video)")
            } else {
                t
            }
        },
        None => String::from_str("No image loaded"),
    }
}

pub fn info_label(current: &Option<Applied>) -> (r: String)
    ensures
        r@ == info_text(*current),
{
    match current {
        Some(c) => match &c.copyright {
            Some(cr) => {
                let t = truncate(cr.as_str(), 45);
                concat3(c.date.as_str(), " -- (c) ", t.as_str())
            },
            None => concat(c.date.as_str(), " -- NASA (public domain)"),
        },
        None => String::from_str("-"),
    }
}

/// A label is never made longer than the room it is given (beyond the
/// ellipsis itself when the room is smaller than that), and one that fits is
/// left alone.
pub proof fn law_truncation_fits_the_menu(s: Seq<char>, max: nat)
    ensures
        truncated(s, max).len() <= (if max >= 3 { max } else { 3 }),
        s.len() <= max ==> truncated(s, max) == s,
{
}

/// A title of up to sixty characters is shown whole, followed by " (video)"
/// when the image stands for a video; a longer one is cut to its first
/// fifty-seven characters and an ellipsis, sixty characters in all.
pub proof fn law_titles_up_to_sixty_characters_are_shown_whole(c: Applied)
    ensures
        c.title@.len() <= 60 && c.media_type@ != video_type() ==> title_text(Some(c)) == c.title@,
        c.title@.len() <= 60 && c.media_type@ == video_type() ==> title_text(Some(c)) == c.title@
            + " (video)"@,
        c.title@.len() > 60 && c.media_type@ != video_type() ==> {
            &&& title_text(Some(c)).len() == 60
            &&& title_text(Some(c)).take(57) == c.title@.take(57)
            &&& title_text(Some(c)).skip(57) == seq!['.', '.', '.']
        },
{
    if c.title@.len() > 60 {
        let t = c.title@.take(57) + ellipsis();
        assert(t.take(57) =~= c.title@.take(57));
        assert(t.skip(57) =~= seq!['.', '.', '.']);
    }
}

} // verus!
