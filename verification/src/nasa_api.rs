//! What the APOD API says about a day, and what can be downloaded from it to
//! make a wallpaper.

use vstd::prelude::*;
use crate::text::{
    all_ws, clone_opt, collapse_whitespace, collapse_ws, concat, concat3, contains_chars, contains_seq,
    decimal, decimal_string, ends_with, eq_chars, eq_chars_lowercased, eq_str, find_first_of,
    first_of, is_blank, last_index, lower_seq, push_char, rfind_char,
};

verus! {

/// Ceiling on anything downloaded: an image, or a video to take a frame out
/// of. The largest APOD originals sit an order of magnitude below this, and
/// its videos are tens of megabytes; the cap only exists so a misbehaving
/// endpoint cannot make the app buffer an unbounded body in memory.
pub const MAX_DOWNLOAD_BYTES: usize = 134217728;

/// Most that is reserved up front for a download, whatever length it declares.
pub const MAX_RESERVE_BYTES: usize = 16777216;

/// APOD API response. `copyright` is absent for public-domain images produced
/// by NASA; when present it must be preserved and shown everywhere (store,
/// menu bar, panel).
#[derive(Debug)]
pub struct Apod {
    pub date: String,
    pub title: String,
    pub explanation: String,
    pub url: Option<String>,
    pub hdurl: Option<String>,
    pub media_type: String,
    pub copyright: Option<String>,
    pub thumbnail_url: Option<String>,
}

impl Clone for Apod {
    fn clone(&self) -> (r: Self)
        ensures
            r == *self,
    {
        Apod {
            date: self.date.clone(),
            title: self.title.clone(),
            explanation: self.explanation.clone(),
            url: clone_opt(&self.url),
            hdurl: clone_opt(&self.hdurl),
            media_type: self.media_type.clone(),
            copyright: clone_opt(&self.copyright),
            thumbnail_url: clone_opt(&self.thumbnail_url),
        }
    }
}

pub open spec fn opt_view(o: Option<String>) -> Option<Seq<char>> {
    match o {
        Some(s) => Some(s@),
        None => None,
    }
}

pub struct ApodView {
    pub date: Seq<char>,
    pub title: Seq<char>,
    pub explanation: Seq<char>,
    pub url: Option<Seq<char>>,
    pub hdurl: Option<Seq<char>>,
    pub media_type: Seq<char>,
    pub copyright: Option<Seq<char>>,
    pub thumbnail_url: Option<Seq<char>>,
}

impl View for Apod {
    type V = ApodView;

    open spec fn view(&self) -> ApodView {
        ApodView {
            date: self.date@,
            title: self.title@,
            explanation: self.explanation@,
            url: opt_view(self.url),
            hdurl: opt_view(self.hdurl),
            media_type: self.media_type@,
            copyright: opt_view(self.copyright),
            thumbnail_url: opt_view(self.thumbnail_url),
        }
    }
}

/// One candidate download, and what has to be done with it to get a wallpaper.
#[derive(Debug, PartialEq, Eq)]
pub enum Source {
    /// A still image, usable once decoded.
    Image(String),
    /// A video file, usable once a frame has been taken out of it.
    Video(String),
}

impl Clone for Source {
    fn clone(&self) -> (r: Self)
        ensures
            r == *self,
    {
        match self {
            Source::Image(u) => Source::Image(u.clone()),
            Source::Video(u) => Source::Video(u.clone()),
        }
    }
}

pub enum SourceView {
    Image(Seq<char>),
    Video(Seq<char>),
}

impl View for Source {
    type V = SourceView;

    open spec fn view(&self) -> SourceView {
        match self {
            Source::Image(u) => SourceView::Image(u@),
            Source::Video(u) => SourceView::Video(u@),
        }
    }
}

pub open spec fn source_views(v: Seq<Source>) -> Seq<SourceView> {
    v.map_values(|s: Source| s@)
}

pub open spec fn opt_source_view(o: Option<Source>) -> Option<SourceView> {
    match o {
        Some(s) => Some(s@),
        None => None,
    }
}

pub open spec fn source_url(s: SourceView) -> Seq<char> {
    match s {
        SourceView::Image(u) => u,
        SourceView::Video(u) => u,
    }
}

impl Source {
    pub fn url(&self) -> (u: &str)
        ensures
            u@ == source_url(self@),
    {
        match self {
            Source::Image(u) => u.as_str(),
            Source::Video(u) => u.as_str(),
        }
    }
}

fn source_eq(a: &Source, b: &Source) -> (r: bool)
    ensures
        r == (a@ == b@),
{
    match (a, b) {
        (Source::Image(x), Source::Image(y)) => eq_str(x.as_str(), y.as_str()),
        (Source::Video(x), Source::Video(y)) => eq_str(x.as_str(), y.as_str()),
        _ => false,
    }
}

/// A candidate appended to a list, unless it is absent or already listed.
pub open spec fn push_candidate(list: Seq<SourceView>, candidate: Option<SourceView>) -> Seq<
    SourceView,
> {
    match candidate {
        Some(s) => if list.contains(s) {
            list
        } else {
            list.push(s)
        },
        None => list,
    }
}

/// Appends a candidate, skipping the ones that are absent or already listed.
/// The duplicates are real: an APOD whose `hdurl` and `url` are the same file
/// would otherwise be downloaded twice before the day was declared a failure.
pub fn push(sources: &mut Vec<Source>, candidate: Option<Source>)
    ensures
        source_views(final(sources)@) == push_candidate(
            source_views(old(sources)@),
            opt_source_view(candidate),
        ),
{
    let ghost wanted = opt_source_view(candidate);
    if let Some(source) = candidate {
        assert(wanted == Some(source@));
        let mut listed = false;
        let mut j: usize = 0;
        while j < sources.len() && !listed
            invariant
                j <= sources@.len(),
                sources@ == old(sources)@,
                wanted == Some(source@),
                listed ==> source_views(sources@).contains(source@),
                !listed ==> forall|k: int| 0 <= k < j ==> sources@[k]@ != source@,
            decreases sources@.len() - j + (if listed { 0int } else { 1int }),
        {
            if source_eq(&sources[j], &source) {
                assert(source_views(sources@)[j as int] == source@);
                listed = true;
            } else {
                j = j + 1;
            }
        }
        if !listed {
            assert(!source_views(old(sources)@).contains(source@)) by {
                if source_views(old(sources)@).contains(source@) {
                    let k = choose|k: int|
                        0 <= k < source_views(old(sources)@).len() && source_views(
                            old(sources)@,
                        )[k] == source@;
                    assert(sources@[k]@ == source@);
                }
            }
            let ghost before = sources@;
            sources.push(source);
            assert(source_views(sources@) =~= source_views(before).push(source@));
        }
    }
}

pub open spec fn image_type() -> Seq<char> {
    seq!['i', 'm', 'a', 'g', 'e']
}

pub open spec fn video_type() -> Seq<char> {
    seq!['v', 'i', 'd', 'e', 'o']
}

/// Containers the system decoder opens, and that APOD actually publishes.
/// Matched on the URL rather than on `media_type`, which says "video" for an
/// embed link just as it does for a file.
pub open spec fn is_video_extension(ext: Seq<char>) -> bool {
    ||| ext == seq!['m', 'p', '4']
    ||| ext == seq!['m', 'o', 'v']
    ||| ext == seq!['m', '4', 'v']
    ||| ext == seq!['m', '2', 'v']
    ||| ext == seq!['m', 'p', 'g']
}

/// The part of a URL before its query string or fragment.
pub open spec fn url_path(url: Seq<char>) -> Seq<char> {
    match first_of(url, '?', '#') {
        Some(i) => url.take(i),
        None => url,
    }
}

/// The last segment of a path.
pub open spec fn last_segment(path: Seq<char>) -> Seq<char> {
    match last_index(path, '/') {
        Some(i) => path.skip(i + 1),
        None => path,
    }
}

/// A URL names a video file when the extension of its file name, in any case,
/// is one of the video containers.
pub open spec fn names_video_file(url: Seq<char>) -> bool {
    let name = last_segment(url_path(url));
    match last_index(name, '.') {
        Some(i) => is_video_extension(lower_seq(name.skip(i + 1))),
        None => false,
    }
}

pub fn is_video_file(url: &str) -> (b: bool)
    ensures
        b == names_video_file(url@),
{
    // A query string or fragment is not part of the file name.
    let n = url.unicode_len();
    let path = match find_first_of(url, '?', '#') {
        Some(i) => {
            proof {
                first_of_bound(url@, '?', '#');
            }
            url.substring_char(0, i)
        },
        None => url,
    };
    assert(path@ == url_path(url@));
    let pn = path.unicode_len();
    let name = match rfind_char(path, '/') {
        Some(i) => path.substring_char(i + 1, pn),
        None => path,
    };
    assert(name@ =~= last_segment(path@));
    let nn = name.unicode_len();
    match rfind_char(name, '.') {
        Some(i) => {
            let ext = name.substring_char(i + 1, nn);
            assert(ext@ =~= name@.skip(i + 1));
            eq_chars_lowercased(ext, &vec!['m', 'p', '4']) || eq_chars_lowercased(
                ext,
                &vec!['m', 'o', 'v'],
            ) || eq_chars_lowercased(ext, &vec!['m', '4', 'v']) || eq_chars_lowercased(
                ext,
                &vec!['m', '2', 'v'],
            ) || eq_chars_lowercased(ext, &vec!['m', 'p', 'g'])
        },
        None => false,
    }
}

pub proof fn first_of_bound(s: Seq<char>, a: char, b: char)
    ensures
        first_of(s, a, b) matches Some(i) ==> 0 <= i < s.len(),
    decreases s.len(),
{
    if s.len() > 0 && !(s[0] == a || s[0] == b) {
        first_of_bound(s.drop_first(), a, b);
    }
}

pub open spec fn youtube_host() -> Seq<char> {
    seq!['i', 'm', 'g', '.', 'y', 'o', 'u', 't', 'u', 'b', 'e', '.', 'c', 'o', 'm']
}

pub open spec fn ytimg_host() -> Seq<char> {
    seq!['y', 't', 'i', 'm', 'g', '.', 'c', 'o', 'm']
}

pub open spec fn jpg_suffix() -> Seq<char> {
    seq!['.', 'j', 'p', 'g']
}

/// The names YouTube gives the thumbnails it publishes.
pub open spec fn is_known_thumbnail(name: Seq<char>) -> bool {
    ||| name == seq!['0']
    ||| name == seq!['1']
    ||| name == seq!['2']
    ||| name == seq!['3']
    ||| name == seq!['d', 'e', 'f', 'a', 'u', 'l', 't']
    ||| name == seq!['m', 'q', 'd', 'e', 'f', 'a', 'u', 'l', 't']
    ||| name == seq!['h', 'q', 'd', 'e', 'f', 'a', 'u', 'l', 't']
    ||| name == seq!['s', 'd', 'd', 'e', 'f', 'a', 'u', 'l', 't']
}

fn known_thumbnail(name: &str) -> (b: bool)
    ensures
        b == is_known_thumbnail(name@),
{
    let names: Vec<Vec<char>> = vec![
        vec!['0'],
        vec!['1'],
        vec!['2'],
        vec!['3'],
        vec!['d', 'e', 'f', 'a', 'u', 'l', 't'],
        vec!['m', 'q', 'd', 'e', 'f', 'a', 'u', 'l', 't'],
        vec!['h', 'q', 'd', 'e', 'f', 'a', 'u', 'l', 't'],
        vec!['s', 'd', 'd', 'e', 'f', 'a', 'u', 'l', 't'],
    ];
    let ghost known: Seq<Seq<char>> = seq![
        seq!['0'],
        seq!['1'],
        seq!['2'],
        seq!['3'],
        seq!['d', 'e', 'f', 'a', 'u', 'l', 't'],
        seq!['m', 'q', 'd', 'e', 'f', 'a', 'u', 'l', 't'],
        seq!['h', 'q', 'd', 'e', 'f', 'a', 'u', 'l', 't'],
        seq!['s', 'd', 'd', 'e', 'f', 'a', 'u', 'l', 't'],
    ];
    assert(names@.len() == 8);
    assert forall|k: int| 0 <= k < 8 implies #[trigger] names@[k]@ == known[k] by {
        assert(names@[0]@ =~= known[0]);
        assert(names@[1]@ =~= known[1]);
        assert(names@[2]@ =~= known[2]);
        assert(names@[3]@ =~= known[3]);
        assert(names@[4]@ =~= known[4]);
        assert(names@[5]@ =~= known[5]);
        assert(names@[6]@ =~= known[6]);
        assert(names@[7]@ =~= known[7]);
    }
    assert(known[0] == seq!['0'] && known[1] == seq!['1'] && known[2] == seq!['2'] && known[3]
        == seq!['3'] && known[4] == seq!['d', 'e', 'f', 'a', 'u', 'l', 't'] && known[5] == seq![
        'm', 'q', 'd', 'e', 'f', 'a', 'u', 'l', 't'] && known[6] == seq!['h', 'q', 'd', 'e', 'f', 'a', 'u', 'l', 't'] && known[7]
        == seq!['s', 'd', 'd', 'e', 'f', 'a', 'u', 'l', 't']);
    let mut i: usize = 0;
    while i < 8
        invariant
            i <= 8,
            names@.len() == 8,
            forall|k: int| 0 <= k < 8 ==> #[trigger] names@[k]@ == known[k],
            forall|k: int| 0 <= k < i ==> known[k] != name@,
            known[0] == seq!['0'] && known[1] == seq!['1'] && known[2] == seq!['2'] && known[3]
                == seq!['3'] && known[4] == seq!['d', 'e', 'f', 'a', 'u', 'l', 't'] && known[5]
                == seq!['m', 'q', 'd', 'e', 'f', 'a', 'u', 'l', 't'] && known[6] == seq![
                'h', 'q', 'd', 'e', 'f', 'a', 'u', 'l', 't'] && known[7] == seq!['s', 'd', 'd', 'e', 'f', 'a', 'u', 'l', 't'],
        decreases 8 - i,
    {
        if eq_chars(name, &names[i]) {
            assert(known[i as int] == name@);
            assert(is_known_thumbnail(name@)) by {
                if i == 0 {} else if i == 1 {} else if i == 2 {} else if i == 3 {}
                else if i == 4 {} else if i == 5 {} else if i == 6 {} else {}
            }
            return true;
        }
        i = i + 1;
    }
    assert(known[0] != name@ && known[1] != name@ && known[2] != name@ && known[3] != name@
        && known[4] != name@ && known[5] != name@ && known[6] != name@ && known[7] != name@);
    false
}

/// A standard YouTube thumbnail URL rewritten to another size: the URL must
/// point into one of YouTube's image hosts, its last segment must be a known
/// thumbnail name followed by `.jpg`, and that name must not already be the
/// size asked for.
pub open spec fn youtube_resized(url: Seq<char>, size: Seq<char>) -> Option<Seq<char>> {
    if !contains_seq(url, youtube_host()) && !contains_seq(url, ytimg_host()) {
        None
    } else {
        match last_index(url, '/') {
            None => None,
            Some(i) => {
                let head = url.take(i);
                let tail = url.skip(i + 1);
                if !ends_with(tail, jpg_suffix()) {
                    None
                } else {
                    let name = tail.take(tail.len() - 4);
                    if is_known_thumbnail(name) && name != size {
                        Some(head + seq!['/'] + size + jpg_suffix())
                    } else {
                        None
                    }
                }
            },
        }
    }
}

/// Rewrites a standard YouTube thumbnail URL (0.jpg, hqdefault.jpg, ...) to
/// another size. Returns None when the URL is not a known YouTube thumbnail,
/// or already is the size asked for, in which case there is nothing to add
/// that the published URL does not already cover.
pub fn youtube_size(url: &str, size: &str) -> (r: Option<String>)
    ensures
        opt_view(r) == youtube_resized(url@, size@),
{
    if !contains_chars(url, &vec!['i', 'm', 'g', '.', 'y', 'o', 'u', 't', 'u', 'b', 'e', '.', 'c', 'o', 'm'])
        && !contains_chars(url, &vec!['y', 't', 'i', 'm', 'g', '.', 'c', 'o', 'm']) {
        return None;
    }
    let n = url.unicode_len();
    let i = match rfind_char(url, '/') {
        Some(i) => i,
        None => return None,
    };
    let head = url.substring_char(0, i);
    let tail = url.substring_char(i + 1, n);
    assert(head@ =~= url@.take(i as int));
    assert(tail@ =~= url@.skip(i + 1));
    let tn = tail.unicode_len();
    if tn < 4 {
        return None;
    }
    let suffix = tail.substring_char(tn - 4, tn);
    assert(suffix@ =~= tail@.skip(tail@.len() - 4));
    if !eq_chars(suffix, &vec!['.', 'j', 'p', 'g']) {
        return None;
    }
    let name = tail.substring_char(0, tn - 4);
    assert(name@ =~= tail@.take(tail@.len() - 4));
    if known_thumbnail(name) && !eq_str(name, size) {
        let mut r = String::from_str(head);
        push_char(&mut r, '/');
        r.append(size);
        push_char(&mut r, '.');
        push_char(&mut r, 'j');
        push_char(&mut r, 'p');
        push_char(&mut r, 'g');
        assert(r@ =~= head@ + seq!['/'] + size@ + jpg_suffix());
        Some(r)
    } else {
        None
    }
}

/// Larger copies of the published thumbnail to try first, biggest first.
/// YouTube stores one picture at several sizes, and does not generate the big
/// ones for every video: `maxresdefault` (1280x720) is missing for older or
/// low-definition uploads, and `sddefault` (640x480) is the next size down.
pub open spec fn maxres() -> Seq<char> {
    seq!['m', 'a', 'x', 'r', 'e', 's', 'd', 'e', 'f', 'a', 'u', 'l', 't']
}

pub open spec fn sd() -> Seq<char> {
    seq!['s', 'd', 'd', 'e', 'f', 'a', 'u', 'l', 't']
}

pub open spec fn resized_thumbnail(thumb: Option<Seq<char>>, size: Seq<char>) -> Option<
    SourceView,
> {
    match thumb {
        Some(t) => match youtube_resized(t, size) {
            Some(u) => Some(SourceView::Image(u)),
            None => None,
        },
        None => None,
    }
}

pub open spec fn image_of(u: Option<Seq<char>>) -> Option<SourceView> {
    match u {
        Some(u) => Some(SourceView::Image(u)),
        None => None,
    }
}

/// The APOD as a video file, when that is what `url` points at.
pub open spec fn video_file_of(a: ApodView) -> Option<SourceView> {
    match a.url {
        Some(u) => if names_video_file(u) {
            Some(SourceView::Video(u))
        } else {
            None
        },
        None => None,
    }
}

/// Everything worth downloading for an APOD, best first.
pub open spec fn sources_of(a: ApodView) -> Seq<SourceView> {
    let none = Seq::<SourceView>::empty();
    if a.media_type == image_type() {
        push_candidate(push_candidate(none, image_of(a.hdurl)), image_of(a.url))
    } else if a.media_type == video_type() {
        let s1 = push_candidate(none, resized_thumbnail(a.thumbnail_url, maxres()));
        let s2 = push_candidate(s1, resized_thumbnail(a.thumbnail_url, sd()));
        let s3 = push_candidate(s2, image_of(a.thumbnail_url));
        push_candidate(s3, video_file_of(a))
    } else {
        push_candidate(push_candidate(none, video_file_of(a)), image_of(a.url))
    }
}

/// What `Apod::normalize` does to an optional URL: a blank one is absent.
pub open spec fn blank_as_none(o: Option<Seq<char>>) -> Option<Seq<char>> {
    match o {
        Some(s) => if all_ws(s) {
            None
        } else {
            Some(s)
        },
        None => None,
    }
}

/// What `Apod::normalize` does to a copyright line: white space collapsed, and
/// a line with nothing left in it dropped.
pub open spec fn cleaned_copyright(o: Option<Seq<char>>) -> Option<Seq<char>> {
    match o {
        Some(c) => if collapse_ws(c).len() == 0 {
            None
        } else {
            Some(collapse_ws(c))
        },
        None => None,
    }
}

/// An absent field is not always `null`: asked for thumbnails, the API answers
/// `"thumbnail_url": ""` for a video it cannot thumbnail. An empty string is
/// not a URL, and would otherwise be read as a usable image.
pub fn blank_to_none(field: &mut Option<String>)
    ensures
        opt_view(*final(field)) == blank_as_none(opt_view(*old(field))),
        *final(field) matches Some(s) ==> *old(field) == Some(s),
{
    let blank = match field {
        Some(s) => is_blank(s.as_str()),
        None => false,
    };
    if blank {
        *field = None;
    }
}

impl Apod {
    pub fn is_video(&self) -> (b: bool)
        ensures
            b == (self@.media_type == video_type()),
    {
        eq_chars(self.media_type.as_str(), &vec!['v', 'i', 'd', 'e', 'o'])
    }

    /// True when some wallpaper can be produced for this day.
    pub fn has_wallpaper(&self) -> (b: bool)
        ensures
            b == (sources_of(self@).len() > 0),
    {
        let s = self.sources();
        proof {
            assert(source_views(s@).len() == s@.len());
        }
        s.len() > 0
    }

    fn resized(thumb: &Option<String>, size: &str) -> (r: Option<Source>)
        ensures
            opt_source_view(r) == resized_thumbnail(opt_view(*thumb), size@),
    {
        match thumb {
            Some(t) => match youtube_size(t.as_str(), size) {
                Some(u) => Some(Source::Image(u)),
                None => None,
            },
            None => None,
        }
    }

    fn image(u: &Option<String>) -> (r: Option<Source>)
        ensures
            opt_source_view(r) == image_of(opt_view(*u)),
    {
        match u {
            Some(u) => Some(Source::Image(u.clone())),
            None => None,
        }
    }

    /// Everything worth downloading for this APOD, best first. The caller
    /// walks the list and keeps the first one that yields a usable image, so
    /// every entry is a fallback for the ones before it.
    ///
    /// A video is never a wallpaper by itself, and reaches this list one of
    /// two ways. YouTube and Vimeo APODs are embeds, and the API hands back a
    /// thumbnail for those. The ones served as a plain file carry no thumbnail
    /// at all, so the file itself is downloaded and a frame taken out of it.
    pub fn sources(&self) -> (r: Vec<Source>)
        ensures
            source_views(r@) == sources_of(self@),
    {
        let mut sources: Vec<Source> = Vec::new();
        assert(source_views(sources@) =~= Seq::<SourceView>::empty());
        if eq_chars(self.media_type.as_str(), &vec!['i', 'm', 'a', 'g', 'e']) {
            push(&mut sources, Self::image(&self.hdurl));
            push(&mut sources, Self::image(&self.url));
        } else if self.is_video() {
            proof {
                reveal_strlit("maxresdefault");
                reveal_strlit("sddefault");
                assert("maxresdefault"@ =~= maxres());
                assert("sddefault"@ =~= sd());
            }
            // Each larger size is a guess -- YouTube does not generate all of
            // them for every video -- so they are tried biggest first and the
            // thumbnail as published stays the last resort.
            push(&mut sources, Self::resized(&self.thumbnail_url, "maxresdefault"));
            push(&mut sources, Self::resized(&self.thumbnail_url, "sddefault"));
            push(&mut sources, Self::image(&self.thumbnail_url));
            push(&mut sources, self.video_file());
        } else {
            // An unfamiliar media_type is not a reason to skip the day: what
            // the URL points at decides instead.
            push(&mut sources, self.video_file());
            push(&mut sources, Self::image(&self.url));
        }
        sources
    }

    /// The APOD as a video file, when that is what `url` points at. An embed
    /// link is not one: nothing can be decoded from a YouTube page.
    fn video_file(&self) -> (r: Option<Source>)
        ensures
            opt_source_view(r) == video_file_of(self@),
    {
        match &self.url {
            Some(u) => if is_video_file(u.as_str()) {
                Some(Source::Video(u.clone()))
            } else {
                None
            },
            None => None,
        }
    }

    /// Repairs the two ways the API states a field loosely: URLs it reports
    /// as present but empty, and copyright lines carrying stray newlines.
    pub fn normalize(self) -> (r: Self)
        ensures
            r@ == (ApodView {
                url: blank_as_none(self@.url),
                hdurl: blank_as_none(self@.hdurl),
                thumbnail_url: blank_as_none(self@.thumbnail_url),
                copyright: cleaned_copyright(self@.copyright),
                ..self@
            }),
    {
        let mut a = self;
        blank_to_none(&mut a.url);
        blank_to_none(&mut a.hdurl);
        blank_to_none(&mut a.thumbnail_url);
        let copyright = match &a.copyright {
            Some(c) => {
                let cleaned = collapse_whitespace(c.as_str());
                if cleaned.unicode_len() == 0 {
                    None
                } else {
                    Some(cleaned)
                }
            },
            None => None,
        };
        a.copyright = copyright;
        a
    }
}

#[derive(Debug)]
pub enum ApiError {
    /// Network error: no connection, DNS, timeout... treated as offline.
    Network(String),
    /// API key quota exceeded (HTTP 429).
    RateLimited,
    /// No APOD for the requested date (the archive has a few gaps).
    NotFound,
    /// Any other HTTP error.
    Http(u16),
    /// Unreadable response.
    Parse(String),
    /// Body beyond what we are willing to buffer.
    TooLarge,
}

impl ApiError {
    /// The errors that are a temporary outage.
    pub open spec fn spec_offline(&self) -> bool {
        match self {
            ApiError::Network(_) => true,
            ApiError::RateLimited => true,
            ApiError::Http(code) => 500 <= *code <= 599,
            _ => false,
        }
    }

    /// True when the error is a temporary outage that warrants retrying in the
    /// background rather than reporting a hard failure.
    pub fn is_offline(&self) -> (b: bool)
        ensures
            b == self.spec_offline(),
    {
        match self {
            ApiError::Network(_) => true,
            ApiError::RateLimited => true,
            ApiError::Http(code) => 500 <= *code && *code <= 599,
            _ => false,
        }
    }

    /// The sentence shown to the user for this error.
    pub open spec fn spec_message(&self) -> Seq<char> {
        match self {
            ApiError::Network(e) => "Network error: "@ + e@,
            ApiError::RateLimited => "API key quota exceeded (DEMO_KEY allows 30 requests/hour). Will retry automatically."@,
            ApiError::NotFound => "No APOD was published on that date (the archive has a few days with no entry)."@,
            ApiError::Http(code) => "HTTP error "@ + decimal(*code as nat) + " from the NASA API."@,
            ApiError::Parse(e) => "Unreadable API response: "@ + e@,
            ApiError::TooLarge => "The file is larger than "@ + decimal((MAX_DOWNLOAD_BYTES / 1048576) as nat) + " MB and was not downloaded."@,
        }
    }

    /// The error as text, which is what the panel shows.
    pub fn message(&self) -> (m: String)
        ensures
            m@ == self.spec_message(),
    {
        match self {
            ApiError::Network(e) => concat("Network error: ", e.as_str()),
            ApiError::RateLimited => String::from_str(
                "API key quota exceeded (DEMO_KEY allows 30 requests/hour). Will retry automatically.",
            ),
            ApiError::NotFound => String::from_str(
                "No APOD was published on that date (the archive has a few days with no entry).",
            ),
            ApiError::Http(code) => {
                let digits = decimal_string(*code as u64);
                concat3("HTTP error ", digits.as_str(), " from the NASA API.")
            },
            ApiError::Parse(e) => concat("Unreadable API response: ", e.as_str()),
            ApiError::TooLarge => {
                let digits = decimal_string((MAX_DOWNLOAD_BYTES / 1048576) as u64);
                concat3("The file is larger than ", digits.as_str(), " MB and was not downloaded.")
            },
        }
    }
}

/// What the status of a metadata response means: `None` for 200, whose body
/// is then read, and the error to report for every other status. The API
/// answers 404 or 400 for dates with no publication.
pub open spec fn metadata_status_error(code: u16) -> Option<ApiError> {
    if code == 200 {
        None
    } else if code == 429 {
        Some(ApiError::RateLimited)
    } else if code == 400 || code == 404 {
        Some(ApiError::NotFound)
    } else {
        Some(ApiError::Http(code))
    }
}

pub fn metadata_status(code: u16) -> (r: Option<ApiError>)
    ensures
        r == metadata_status_error(code),
{
    if code == 200 {
        None
    } else if code == 429 {
        Some(ApiError::RateLimited)
    } else if code == 400 || code == 404 {
        Some(ApiError::NotFound)
    } else {
        Some(ApiError::Http(code))
    }
}

/// A download is refused on any status outside 2xx.
pub fn download_status(code: u16) -> (r: Option<ApiError>)
    ensures
        r == (if 200 <= code <= 299 {
            None
        } else {
            Some(ApiError::Http(code))
        }),
{
    if 200 <= code && code <= 299 {
        None
    } else {
        Some(ApiError::Http(code))
    }
}

/// A body whose declared length is over the ceiling is refused before any of
/// it is read.
pub fn declared_too_large(declared: Option<u64>) -> (b: bool)
    ensures
        b == (declared matches Some(n) && n > MAX_DOWNLOAD_BYTES),
{
    match declared {
        Some(n) => n > MAX_DOWNLOAD_BYTES as u64,
        None => false,
    }
}

/// How much to reserve up front: the declared length, trusted only as a hint
/// and only up to a size worth reserving.
pub fn reserve_hint(declared: Option<u64>) -> (n: usize)
    ensures
        n <= MAX_RESERVE_BYTES,
        declared matches Some(d) ==> n == (if d < MAX_RESERVE_BYTES {
            d
        } else {
            MAX_RESERVE_BYTES as u64
        }),
        declared is None ==> n == 0,
{
    match declared {
        Some(d) => if d < MAX_RESERVE_BYTES as u64 {
            d as usize
        } else {
            MAX_RESERVE_BYTES
        },
        None => 0,
    }
}

/// Whether a chunk may be appended to what has been received so far: the
/// body as a whole must stay within the ceiling, whatever was declared.
pub fn chunk_fits(received: usize, chunk: usize) -> (b: bool)
    ensures
        b == (received + chunk <= MAX_DOWNLOAD_BYTES),
{
    chunk <= MAX_DOWNLOAD_BYTES && received <= MAX_DOWNLOAD_BYTES - chunk
}

/// Pushing a candidate keeps a list free of repeats, and keeps everything
/// in it a candidate allowed by `allowed`.
proof fn lemma_push_candidate(list: Seq<SourceView>, candidate: Option<SourceView>, allowed: spec_fn(SourceView) -> bool)
    requires
        list.no_duplicates(),
        forall|i: int| 0 <= i < list.len() ==> allowed(#[trigger] list[i]),
        candidate matches Some(c) ==> allowed(c),
    ensures
        push_candidate(list, candidate).no_duplicates(),
        forall|i: int| 0 <= i < push_candidate(list, candidate).len() ==> allowed(#[trigger] push_candidate(list, candidate)[i]),
{
    if let Some(c) = candidate {
        if !list.contains(c) {
            let l = list.push(c);
            assert forall|i: int, j: int| 0 <= i < l.len() && 0 <= j < l.len() && i != j implies l[i] != l[j] by {
                if i == list.len() as int {
                    assert(l[j] == list[j]);
                } else if j == list.len() as int {
                    assert(l[i] == list[i]);
                } else {
                    assert(l[i] == list[i] && l[j] == list[j]);
                }
            }
            assert forall|i: int| 0 <= i < l.len() implies allowed(#[trigger] l[i]) by {
                if i < list.len() {
                    assert(l[i] == list[i]);
                }
            }
        }
    }
}

/// Whether a candidate may stand in the list at all: a video only as a file
/// something can be decoded from, never as an embed link.
pub open spec fn decodable(s: SourceView) -> bool {
    match s {
        SourceView::Video(u) => names_video_file(u),
        SourceView::Image(_) => true,
    }
}

/// Nothing is listed twice: an APOD whose `hdurl` and `url` are the same file
/// is one download, not two. And a video reaches the list only as a file
/// a frame can be taken out of: nothing can be decoded from a YouTube page.
pub proof fn law_candidates_are_distinct_and_decodable(a: ApodView)
    ensures
        sources_of(a).no_duplicates(),
        forall|i: int| 0 <= i < sources_of(a).len() ==> decodable(#[trigger] sources_of(a)[i]),
{
    let f = |s: SourceView| decodable(s);
    let none = Seq::<SourceView>::empty();
    let v = video_file_of(a);
    assert(v matches Some(c) ==> f(c));
    assert(image_of(a.hdurl) matches Some(c) ==> f(c));
    assert(image_of(a.url) matches Some(c) ==> f(c));
    assert(image_of(a.thumbnail_url) matches Some(c) ==> f(c));
    assert(resized_thumbnail(a.thumbnail_url, maxres()) matches Some(c) ==> f(c));
    assert(resized_thumbnail(a.thumbnail_url, sd()) matches Some(c) ==> f(c));
    if a.media_type == image_type() {
        lemma_push_candidate(none, image_of(a.hdurl), f);
        lemma_push_candidate(push_candidate(none, image_of(a.hdurl)), image_of(a.url), f);
    } else if a.media_type == video_type() {
        let s1 = push_candidate(none, resized_thumbnail(a.thumbnail_url, maxres()));
        let s2 = push_candidate(s1, resized_thumbnail(a.thumbnail_url, sd()));
        let s3 = push_candidate(s2, image_of(a.thumbnail_url));
        lemma_push_candidate(none, resized_thumbnail(a.thumbnail_url, maxres()), f);
        lemma_push_candidate(s1, resized_thumbnail(a.thumbnail_url, sd()), f);
        lemma_push_candidate(s2, image_of(a.thumbnail_url), f);
        lemma_push_candidate(s3, v, f);
    } else {
        lemma_push_candidate(none, v, f);
        lemma_push_candidate(push_candidate(none, v), image_of(a.url), f);
    }
}

/// After `normalize`, no URL is present but blank.
pub proof fn law_normalized_urls_are_never_blank(o: Option<Seq<char>>)
    ensures
        blank_as_none(o) matches Some(u) ==> !all_ws(u),
{
}

/// A path none of whose characters is `a`, `b`, `c` or `d`.
pub open spec fn avoids(s: Seq<char>, a: char, b: char, c: char, d: char) -> bool {
    forall|i: int| 0 <= i < s.len() ==> s[i] != a && s[i] != b && s[i] != c && s[i] != d
}

/// The URL of the file `stem.ext` under `dir`.
pub open spec fn file_url(dir: Seq<char>, stem: Seq<char>, ext: Seq<char>) -> Seq<char> {
    dir + seq!['/'] + stem + seq!['.'] + ext
}

proof fn lemma_no_query(s: Seq<char>)
    requires
        forall|i: int| 0 <= i < s.len() ==> s[i] != '?' && s[i] != '#',
    ensures
        first_of(s, '?', '#') is None,
    decreases s.len(),
{
    if s.len() > 0 {
        lemma_no_query(s.drop_first());
    }
}

proof fn lemma_last_separator(p: Seq<char>, c: char, q: Seq<char>)
    requires
        forall|i: int| 0 <= i < q.len() ==> q[i] != c,
    ensures
        last_index(p + seq![c] + q, c) == Some(p.len() as int),
    decreases q.len(),
{
    let s = p + seq![c] + q;
    if q.len() > 0 {
        assert(s.last() == q.last());
        assert(s.drop_last() =~= p + seq![c] + q.drop_last());
        lemma_last_separator(p, c, q.drop_last());
    }
}

/// Whether `dir/stem.ext` names a video file is decided by `ext` alone.
proof fn lemma_file_url_extension(dir: Seq<char>, stem: Seq<char>, ext: Seq<char>)
    requires
        forall|i: int| 0 <= i < dir.len() ==> dir[i] != '?' && dir[i] != '#',
        avoids(stem, '?', '#', '/', '.'),
        avoids(ext, '?', '#', '/', '.'),
    ensures
        names_video_file(file_url(dir, stem, ext)) == is_video_extension(lower_seq(ext)),
{
    let url = file_url(dir, stem, ext);
    assert forall|i: int| 0 <= i < url.len() implies url[i] != '?' && url[i] != '#' by {
        if i < dir.len() {
        } else if i == dir.len() {
        } else if i < dir.len() + 1 + stem.len() {
            assert(url[i] == stem[i - dir.len() - 1]);
        } else if i == dir.len() + 1 + stem.len() {
        } else {
            assert(url[i] == ext[i - dir.len() - 2 - stem.len()]);
        }
    }
    lemma_no_query(url);
    let name = stem + seq!['.'] + ext;
    assert(url =~= dir + seq!['/'] + name);
    assert forall|i: int| 0 <= i < name.len() implies name[i] != '/' by {
        if i < stem.len() {
        } else if i == stem.len() {
        } else {
            assert(name[i] == ext[i - stem.len() - 1]);
        }
    }
    lemma_last_separator(dir, '/', name);
    assert(url.skip(dir.len() + 1int) =~= name);
    lemma_last_separator(stem, '.', ext);
    assert(name.skip(stem.len() + 1int) =~= ext);
}

/// A file whose extension is one of the five video containers APOD
/// publishes -- mp4, mov, m4v, m2v, mpg -- names a video file, whatever the
/// directory and file name before it, and in lower or upper case alike.
pub proof fn law_the_five_containers_name_video_files(dir: Seq<char>, stem: Seq<char>)
    requires
        forall|i: int| 0 <= i < dir.len() ==> dir[i] != '?' && dir[i] != '#',
        avoids(stem, '?', '#', '/', '.'),
    ensures
        names_video_file(file_url(dir, stem, seq!['m', 'p', '4'])),
        names_video_file(file_url(dir, stem, seq!['m', 'o', 'v'])),
        names_video_file(file_url(dir, stem, seq!['m', '4', 'v'])),
        names_video_file(file_url(dir, stem, seq!['m', '2', 'v'])),
        names_video_file(file_url(dir, stem, seq!['m', 'p', 'g'])),
        names_video_file(file_url(dir, stem, seq!['M', 'P', '4'])),
        names_video_file(file_url(dir, stem, seq!['M', 'O', 'V'])),
        names_video_file(file_url(dir, stem, seq!['M', '4', 'V'])),
        names_video_file(file_url(dir, stem, seq!['M', '2', 'V'])),
        names_video_file(file_url(dir, stem, seq!['M', 'P', 'G'])),
        !names_video_file(file_url(dir, stem, seq!['j', 'p', 'g'])),
{
    lemma_file_url_extension(dir, stem, seq!['m', 'p', '4']);
    lemma_file_url_extension(dir, stem, seq!['m', 'o', 'v']);
    lemma_file_url_extension(dir, stem, seq!['m', '4', 'v']);
    lemma_file_url_extension(dir, stem, seq!['m', '2', 'v']);
    lemma_file_url_extension(dir, stem, seq!['m', 'p', 'g']);
    lemma_file_url_extension(dir, stem, seq!['M', 'P', '4']);
    lemma_file_url_extension(dir, stem, seq!['M', 'O', 'V']);
    lemma_file_url_extension(dir, stem, seq!['M', '4', 'V']);
    lemma_file_url_extension(dir, stem, seq!['M', '2', 'V']);
    lemma_file_url_extension(dir, stem, seq!['M', 'P', 'G']);
    lemma_file_url_extension(dir, stem, seq!['j', 'p', 'g']);
    assert(lower_seq(seq!['M', 'P', '4']) =~= seq!['m', 'p', '4']);
    assert(lower_seq(seq!['M', 'O', 'V']) =~= seq!['m', 'o', 'v']);
    assert(lower_seq(seq!['M', '4', 'V']) =~= seq!['m', '4', 'v']);
    assert(lower_seq(seq!['M', '2', 'V']) =~= seq!['m', '2', 'v']);
    assert(lower_seq(seq!['M', 'P', 'G']) =~= seq!['m', 'p', 'g']);
    assert(lower_seq(seq!['m', 'p', '4']) =~= seq!['m', 'p', '4']);
    assert(lower_seq(seq!['m', 'o', 'v']) =~= seq!['m', 'o', 'v']);
    assert(lower_seq(seq!['m', '4', 'v']) =~= seq!['m', '4', 'v']);
    assert(lower_seq(seq!['m', '2', 'v']) =~= seq!['m', '2', 'v']);
    assert(lower_seq(seq!['m', 'p', 'g']) =~= seq!['m', 'p', 'g']);
    assert(lower_seq(seq!['j', 'p', 'g']) =~= seq!['j', 'p', 'g']);
}

proof fn lemma_pushed_is_listed(list: Seq<SourceView>, c: SourceView)
    ensures
        push_candidate(list, Some(c)).contains(c),
        !list.contains(c) ==> push_candidate(list, Some(c)).last() == c,
{
    if !list.contains(c) {
        assert(list.push(c)[list.len() as int] == c);
    }
}

proof fn lemma_push_keeps_the_front(list: Seq<SourceView>, o: Option<SourceView>)
    requires
        list.len() > 0,
    ensures
        push_candidate(list, o).len() > 0,
        push_candidate(list, o)[0] == list[0],
{
}

/// Nothing the API offers is lost on the way to the download list. An
/// image's `hdurl` is tried first and its `url` is tried too; a video's
/// published thumbnail is tried, and the video file itself, when `url` is
/// one, comes last as the final resort; and an unfamiliar `media_type` does
/// not skip the day: the `url` is tried as a video file first when it names
/// one, and as an image last in any case.
pub proof fn law_every_offered_url_is_a_candidate(a: ApodView)
    ensures
        a.media_type == image_type() ==> {
            &&& (a.hdurl matches Some(h) ==> sources_of(a)[0] == SourceView::Image(h))
            &&& (a.url matches Some(u) ==> sources_of(a).contains(SourceView::Image(u)))
        },
        a.media_type == video_type() ==> {
            &&& (a.thumbnail_url matches Some(t) ==> sources_of(a).contains(SourceView::Image(t)))
            &&& (a.url matches Some(u) ==> (names_video_file(u) ==> sources_of(a).last() == SourceView::Video(u)))
        },
        a.media_type != image_type() && a.media_type != video_type() ==> (a.url matches Some(u) ==> {
            &&& sources_of(a).last() == SourceView::Image(u)
            &&& (names_video_file(u) ==> sources_of(a)[0] == SourceView::Video(u))
        }),
{
    let none = Seq::<SourceView>::empty();
    let img = |s: SourceView| s is Image;
    if a.media_type == image_type() {
        let s1 = push_candidate(none, image_of(a.hdurl));
        if let Some(h) = a.hdurl {
            assert(s1 =~= seq![SourceView::Image(h)]);
            lemma_push_keeps_the_front(s1, image_of(a.url));
        }
        if let Some(u) = a.url {
            lemma_pushed_is_listed(s1, SourceView::Image(u));
        }
    } else if a.media_type == video_type() {
        let s1 = push_candidate(none, resized_thumbnail(a.thumbnail_url, maxres()));
        let s2 = push_candidate(s1, resized_thumbnail(a.thumbnail_url, sd()));
        let s3 = push_candidate(s2, image_of(a.thumbnail_url));
        assert(resized_thumbnail(a.thumbnail_url, maxres()) matches Some(c) ==> img(c));
        assert(resized_thumbnail(a.thumbnail_url, sd()) matches Some(c) ==> img(c));
        assert(image_of(a.thumbnail_url) matches Some(c) ==> img(c));
        lemma_push_candidate(none, resized_thumbnail(a.thumbnail_url, maxres()), img);
        lemma_push_candidate(s1, resized_thumbnail(a.thumbnail_url, sd()), img);
        lemma_push_candidate(s2, image_of(a.thumbnail_url), img);
        if let Some(t) = a.thumbnail_url {
            lemma_pushed_is_listed(s2, SourceView::Image(t));
            if s3.contains(SourceView::Image(t)) {
                lemma_push_contains(s3, video_file_of(a), SourceView::Image(t));
            }
        }
        if let Some(u) = a.url {
            if names_video_file(u) {
                assert(!s3.contains(SourceView::Video(u))) by {
                    if s3.contains(SourceView::Video(u)) {
                        let k = choose|k: int| 0 <= k < s3.len() && s3[k] == SourceView::Video(u);
                        assert(img(s3[k]));
                    }
                }
                lemma_pushed_is_listed(s3, SourceView::Video(u));
            }
        }
    } else {
        if let Some(u) = a.url {
            let s1 = push_candidate(none, video_file_of(a));
            assert(!s1.contains(SourceView::Image(u))) by {
                if s1.contains(SourceView::Image(u)) {
                    let k = choose|k: int| 0 <= k < s1.len() && s1[k] == SourceView::Image(u);
                }
            }
            lemma_pushed_is_listed(s1, SourceView::Image(u));
            if names_video_file(u) {
                assert(s1 =~= seq![SourceView::Video(u)]);
                lemma_push_keeps_the_front(s1, image_of(a.url));
            }
        }
    }
}

proof fn lemma_push_contains(list: Seq<SourceView>, o: Option<SourceView>, x: SourceView)
    requires
        list.contains(x),
    ensures
        push_candidate(list, o).contains(x),
{
    if let Some(c) = o {
        if !list.contains(c) {
            let k = choose|k: int| 0 <= k < list.len() && list[k] == x;
            assert(list.push(c)[k] == x);
        }
    }
}

} // verus!
