//! A local image history under `cache/`: up to sixty downloaded originals
//! with their metadata.
//!
//! On-disk layout:
//!   <app_data>/cache/metadata.json
//!   <app_data>/cache/images/<date>.<ext>                (originals)
//!   <app_data>/cache/wallpapers/wall-<date>-<fit>.jpg   (final compositions)

use vstd::prelude::*;
use crate::chance::random_below;
use crate::settings::FitMode;
use crate::store::{join, join_path};
use crate::text::{
    clone_opt, eq_str, lemma_seq_less_irreflexive, lemma_seq_less_total,
    lemma_seq_less_transitive, push_char, seq_less, str_less,
};
use crate::nasa_api::{video_type, Apod};
use crate::updater::{fit_suffix, image_extension, kind_extension, sniffed_kind};

verus! {

/// Maximum number of images kept in the history.
pub const MAX_ENTRIES: usize = 60;

/// A downloaded APOD image with its metadata. The `copyright` field is kept
/// verbatim: when present the image is not public domain and attribution is
/// mandatory.
#[derive(Debug)]
pub struct CacheEntry {
    pub date: String,
    pub title: String,
    pub explanation: String,
    pub copyright: Option<String>,
    /// "image" or "video"; for a video the stored file is the thumbnail.
    pub media_type: String,
    /// Video link (YouTube/Vimeo) when media_type == "video", so the panel can
    /// open it directly.
    pub video_url: Option<String>,
    pub source_url: String,
    /// Name of the original image file inside `images/`.
    pub image_file: String,
    pub fetched_at: String,
}

impl Clone for CacheEntry {
    fn clone(&self) -> (r: Self)
        ensures
            r == *self,
    {
        CacheEntry {
            date: self.date.clone(),
            title: self.title.clone(),
            explanation: self.explanation.clone(),
            copyright: clone_opt(&self.copyright),
            media_type: self.media_type.clone(),
            video_url: clone_opt(&self.video_url),
            source_url: self.source_url.clone(),
            image_file: self.image_file.clone(),
            fetched_at: self.fetched_at.clone(),
        }
    }
}

/// The media type an entry written before the field existed is read with.
pub fn default_media_type() -> (s: String)
    ensures
        s@ == "image"@,
{
    String::from_str("image")
}

/// Local image history.
pub struct Cache {
    root: String,
    entries: Vec<CacheEntry>,
}

/// The index of the first entry published on `date`.
pub open spec fn first_on(entries: Seq<CacheEntry>, date: Seq<char>) -> Option<int>
    decreases entries.len(),
{
    if entries.len() == 0 {
        None
    } else if entries[0].date@ == date {
        Some(0)
    } else {
        match first_on(entries.drop_first(), date) {
            Some(i) => Some(i + 1),
            None => None,
        }
    }
}

/// Entry `i` is the most recent by publication date, and the last of those
/// published that day, as `Iterator::max_by` picks it.
pub open spec fn is_latest(entries: Seq<CacheEntry>, i: int) -> bool {
    &&& 0 <= i < entries.len()
    &&& forall|j: int| 0 <= j < entries.len() ==> !seq_less(entries[i].date@, #[trigger] entries[j].date@)
    &&& forall|j: int| i < j < entries.len() ==> seq_less(#[trigger] entries[j].date@, entries[i].date@)
}

pub open spec fn images_dir_name() -> Seq<char> {
    seq!['i', 'm', 'a', 'g', 'e', 's']
}

pub open spec fn wallpapers_dir_name() -> Seq<char> {
    seq!['w', 'a', 'l', 'l', 'p', 'a', 'p', 'e', 'r', 's']
}

/// `wall-<date>-<fit>.jpg`: the date and the fit mode in the name make a
/// different path on every change, which forces desktops that cache the
/// wallpaper by path to reload it. The "wall-" prefix distinguishes the
/// current format (no burned-in text) from older "apod-" compositions.
pub open spec fn cached_wallpaper_name(date: Seq<char>, fit: FitMode) -> Seq<char> {
    seq!['w', 'a', 'l', 'l', '-'] + date + seq!['-'] + fit_suffix(fit) + seq!['.', 'j', 'p', 'g']
}

impl Cache {
    pub closed spec fn spec_root(&self) -> Seq<char> {
        self.root@
    }

    pub closed spec fn spec_entries(&self) -> Seq<CacheEntry> {
        self.entries@
    }

    /// A history rooted at `root`, holding the entries read back from its
    /// metadata file.
    pub fn new(root: &str, entries: Vec<CacheEntry>) -> (c: Cache)
        ensures
            c.spec_root() == root@,
            c.spec_entries() == entries@,
    {
        Cache { root: String::from_str(root), entries }
    }

    pub fn entries(&self) -> (e: &Vec<CacheEntry>)
        ensures
            e@ == self.spec_entries(),
    {
        &self.entries
    }

    /// Where the downloaded originals are kept.
    pub fn images_dir(&self) -> (p: String)
        ensures
            p@ == join_path(self.spec_root(), images_dir_name()),
    {
        proof {
            reveal_strlit("images");
            assert("images"@ =~= images_dir_name());
        }
        join(self.root.as_str(), "images")
    }

    /// Where the compositions are kept.
    pub fn wallpapers_dir(&self) -> (p: String)
        ensures
            p@ == join_path(self.spec_root(), wallpapers_dir_name()),
    {
        proof {
            reveal_strlit("wallpapers");
            assert("wallpapers"@ =~= wallpapers_dir_name());
        }
        join(self.root.as_str(), "wallpapers")
    }

    pub fn get(&self, date: &str) -> (r: Option<&CacheEntry>)
        ensures
            r is None <==> first_on(self.spec_entries(), date@) is None,
            r matches Some(e) ==> first_on(self.spec_entries(), date@) matches Some(i) && *e == self.spec_entries()[i],
    {
        let mut i: usize = 0;
        assert(self.entries@.skip(0) =~= self.entries@);
        while i < self.entries.len()
            invariant
                i <= self.entries@.len(),
                first_on(self.entries@, date@) == (match first_on(self.entries@.skip(i as int), date@) {
                    Some(k) => Some(k + i),
                    None => None,
                }),
            decreases self.entries@.len() - i,
        {
            if eq_str(self.entries[i].date.as_str(), date) {
                return Some(&self.entries[i]);
            }
            assert(self.entries@.skip(i as int).drop_first() =~= self.entries@.skip(i + 1));
            i = i + 1;
        }
        None
    }

    /// Most recent entry by publication date: the "last successfully loaded
    /// image" used as the offline fallback.
    pub fn latest(&self) -> (r: Option<&CacheEntry>)
        ensures
            r is None <==> self.spec_entries().len() == 0,
            r matches Some(e) ==> exists|i: int| #[trigger] is_latest(self.spec_entries(), i) && *e == self.spec_entries()[i],
    {
        let n = self.entries.len();
        if n == 0 {
            return None;
        }
        let ghost es = self.entries@;
        let mut best: usize = 0;
        let mut k: usize = 1;
        proof {
            lemma_seq_less_irreflexive(es[0].date@);
        }
        while k < n
            invariant
                n == es.len(),
                es == self.entries@,
                best < k <= n,
                forall|j: int| 0 <= j < k ==> !seq_less(es[best as int].date@, #[trigger] es[j].date@),
                forall|j: int| best < j < k ==> seq_less(#[trigger] es[j].date@, es[best as int].date@),
            decreases n - k,
        {
            if !str_less(self.entries[k].date.as_str(), self.entries[best].date.as_str()) {
                // Equal or later: `max_by` keeps the last of equal maxima.
                proof {
                    let b = es[best as int].date@;
                    let c = es[k as int].date@;
                    assert forall|j: int| 0 <= j < k + 1 implies !seq_less(c, #[trigger] es[j].date@) by {
                        let d = es[j].date@;
                        if j == k {
                            lemma_seq_less_irreflexive(c);
                        } else if seq_less(c, d) {
                            lemma_seq_less_total(b, c);
                            if seq_less(b, c) {
                                lemma_seq_less_transitive(b, c, d);
                            }
                        }
                    }
                }
                best = k;
            } else {
                proof {
                    let b = es[best as int].date@;
                    let c = es[k as int].date@;
                    if seq_less(b, c) {
                        lemma_seq_less_transitive(b, c, b);
                        lemma_seq_less_irreflexive(b);
                    }
                }
            }
            k = k + 1;
        }
        proof {
            assert(is_latest(self.spec_entries(), best as int));
        }
        Some(&self.entries[best])
    }

    /// Random pick from the history (offline fallback for random mode).
    pub fn random(&self) -> (r: Option<&CacheEntry>)
        ensures
            r is None <==> self.spec_entries().len() == 0,
            r matches Some(e) ==> exists|i: int| 0 <= i < self.spec_entries().len() && #[trigger] self.spec_entries()[i] == *e,
    {
        if self.entries.len() == 0 {
            return None;
        }
        let i = random_below(self.entries.len() as u64) as usize;
        assert(self.spec_entries()[i as int] == self.entries@[i as int]);
        Some(&self.entries[i])
    }

    pub fn image_path(&self, entry: &CacheEntry) -> (p: String)
        ensures
            p@ == join_path(join_path(self.spec_root(), images_dir_name()), entry.image_file@),
    {
        let dir = self.images_dir();
        join(dir.as_str(), entry.image_file.as_str())
    }

    pub fn wallpaper_path(&self, date: &str, fit: FitMode) -> (p: String)
        ensures
            p@ == join_path(join_path(self.spec_root(), wallpapers_dir_name()), cached_wallpaper_name(date@, fit)),
    {
        let dir = self.wallpapers_dir();
        let mut name = String::new();
        push_char(&mut name, 'w');
        push_char(&mut name, 'a');
        push_char(&mut name, 'l');
        push_char(&mut name, 'l');
        push_char(&mut name, '-');
        name.append(date);
        push_char(&mut name, '-');
        match fit {
            FitMode::BlurFill => {
                push_char(&mut name, 'b');
                push_char(&mut name, 'l');
                push_char(&mut name, 'u');
                push_char(&mut name, 'r');
            },
            FitMode::CropFill => {
                push_char(&mut name, 'c');
                push_char(&mut name, 'r');
                push_char(&mut name, 'o');
                push_char(&mut name, 'p');
            },
        }
        push_char(&mut name, '.');
        push_char(&mut name, 'j');
        push_char(&mut name, 'p');
        push_char(&mut name, 'g');
        assert(name@ =~= cached_wallpaper_name(date@, fit));
        join(dir.as_str(), name.as_str())
    }
}

/// `s`, sorted by download time, with `e` inserted after every entry
/// downloaded no later than it: the insertion step of a stable sort.
pub open spec fn insert_by_fetch(s: Seq<CacheEntry>, e: CacheEntry) -> Seq<CacheEntry>
    decreases s.len(),
{
    if s.len() == 0 {
        seq![e]
    } else if seq_less(e.fetched_at@, s.last().fetched_at@) {
        insert_by_fetch(s.drop_last(), e).push(s.last())
    } else {
        s.push(e)
    }
}

/// `s` stably sorted by download time, oldest first, as `sort_by` leaves it.
pub open spec fn sort_by_fetch(s: Seq<CacheEntry>) -> Seq<CacheEntry>
    decreases s.len(),
{
    if s.len() == 0 {
        s
    } else {
        insert_by_fetch(sort_by_fetch(s.drop_last()), s.last())
    }
}

/// The index of the first entry not published on `keep`.
pub open spec fn first_not_on(s: Seq<CacheEntry>, keep: Seq<char>) -> Option<int>
    decreases s.len(),
{
    if s.len() == 0 {
        None
    } else if s[0].date@ != keep {
        Some(0)
    } else {
        match first_not_on(s.drop_first(), keep) {
            Some(i) => Some(i + 1),
            None => None,
        }
    }
}

/// Up to `k` of the oldest entries removed, never one published on `keep`:
/// what is left, and what was removed, in order.
pub open spec fn drop_oldest(s: Seq<CacheEntry>, keep: Seq<char>, k: nat) -> (Seq<CacheEntry>, Seq<CacheEntry>)
    decreases k,
{
    if k == 0 {
        (s, Seq::empty())
    } else {
        match first_not_on(s, keep) {
            None => (s, Seq::empty()),
            Some(i) => {
                let (rest, removed) = drop_oldest(s.remove(i), keep, (k - 1) as nat);
                (rest, seq![s[i]] + removed)
            },
        }
    }
}

/// The history after `e` is stored: any earlier entry for the same day is
/// replaced, and beyond `MAX_ENTRIES` the oldest downloads go first, except
/// the entry just stored. The second part is what was pruned.
pub open spec fn after_storing(entries: Seq<CacheEntry>, e: CacheEntry) -> (Seq<CacheEntry>, Seq<CacheEntry>) {
    let l = entries.filter(|x: CacheEntry| x.date@ != e.date@).push(e);
    if l.len() <= MAX_ENTRIES {
        (l, Seq::empty())
    } else {
        drop_oldest(sort_by_fetch(l), e.date@, (l.len() - MAX_ENTRIES) as nat)
    }
}

pub proof fn lemma_first_not_on(s: Seq<CacheEntry>, keep: Seq<char>)
    ensures
        first_not_on(s, keep) matches Some(i) ==> 0 <= i < s.len() && s[i].date@ != keep,
        first_not_on(s, keep) is None ==> forall|j: int| 0 <= j < s.len() ==> #[trigger] s[j].date@ == keep,
    decreases s.len(),
{
    if s.len() > 0 {
        lemma_first_not_on(s.drop_first(), keep);
        if s[0].date@ == keep {
            assert forall|j: int| 0 < j < s.len() implies s.drop_first()[j - 1] == #[trigger] s[j] by {}
        }
    }
}

pub proof fn lemma_insert_keeps(s: Seq<CacheEntry>, e: CacheEntry, x: CacheEntry)
    ensures
        insert_by_fetch(s, e).contains(e),
        s.contains(x) ==> insert_by_fetch(s, e).contains(x),
        insert_by_fetch(s, e).len() == s.len() + 1,
    decreases s.len(),
{
    if s.len() > 0 && seq_less(e.fetched_at@, s.last().fetched_at@) {
        lemma_insert_keeps(s.drop_last(), e, x);
        let r = insert_by_fetch(s.drop_last(), e);
        assert(r.push(s.last())[r.len() as int] == s.last());
        if s.contains(x) {
            let i = choose|i: int| 0 <= i < s.len() && s[i] == x;
            if i < s.len() - 1 {
                assert(s.drop_last()[i] == x);
                let k = choose|k: int| 0 <= k < r.len() && r[k] == x;
                assert(r.push(s.last())[k] == x);
            }
        }
        let k = choose|k: int| 0 <= k < r.len() && r[k] == e;
        assert(r.push(s.last())[k] == e);
    } else if s.len() > 0 {
        assert(s.push(e)[s.len() as int] == e);
        if s.contains(x) {
            let i = choose|i: int| 0 <= i < s.len() && s[i] == x;
            assert(s.push(e)[i] == x);
        }
    } else {
        assert(seq![e][0] == e);
    }
}

pub proof fn lemma_sort_keeps(s: Seq<CacheEntry>, x: CacheEntry)
    ensures
        s.contains(x) ==> sort_by_fetch(s).contains(x),
        sort_by_fetch(s).len() == s.len(),
    decreases s.len(),
{
    if s.len() > 0 {
        lemma_sort_keeps(s.drop_last(), x);
        lemma_insert_keeps(sort_by_fetch(s.drop_last()), s.last(), x);
        if s.contains(x) && x != s.last() {
            let i = choose|i: int| 0 <= i < s.len() && s[i] == x;
            assert(i < s.len() - 1);
            assert(s.drop_last()[i] == x);
        }
    }
}

pub proof fn lemma_drop_oldest_keeps(s: Seq<CacheEntry>, keep: Seq<char>, k: nat, x: CacheEntry)
    requires
        s.contains(x),
        x.date@ == keep,
    ensures
        drop_oldest(s, keep, k).0.contains(x),
    decreases k,
{
    if k > 0 {
        lemma_first_not_on(s, keep);
        if let Some(i) = first_not_on(s, keep) {
            let j = choose|j: int| 0 <= j < s.len() && s[j] == x;
            assert(j != i);
            if j < i {
                assert(s.remove(i)[j] == x);
            } else {
                assert(s.remove(i)[j - 1] == x);
            }
            lemma_drop_oldest_keeps(s.remove(i), keep, (k - 1) as nat, x);
        }
    }
}

pub proof fn lemma_drop_oldest_bound(s: Seq<CacheEntry>, keep: Seq<char>, k: nat)
    ensures
        drop_oldest(s, keep, k).0.len() + drop_oldest(s, keep, k).1.len() == s.len(),
        drop_oldest(s, keep, k).0.len() + k <= s.len() || forall|j: int|
            0 <= j < drop_oldest(s, keep, k).0.len() ==> #[trigger] drop_oldest(s, keep, k).0[j].date@ == keep,
    decreases k,
{
    lemma_first_not_on(s, keep);
    if k > 0 {
        if let Some(i) = first_not_on(s, keep) {
            lemma_drop_oldest_bound(s.remove(i), keep, (k - 1) as nat);
        }
    }
}

/// The entry just stored always survives the pruning.
pub proof fn law_history_keeps_the_entry_just_stored(entries: Seq<CacheEntry>, e: CacheEntry)
    ensures
        after_storing(entries, e).0.contains(e),
{
    let l = entries.filter(|x: CacheEntry| x.date@ != e.date@).push(e);
    assert(l[l.len() - 1] == e);
    if l.len() > MAX_ENTRIES {
        lemma_sort_keeps(l, e);
        lemma_drop_oldest_keeps(sort_by_fetch(l), e.date@, (l.len() - MAX_ENTRIES) as nat, e);
    }
}

/// The history holds at most `MAX_ENTRIES` entries, unless every one left is
/// for the day just stored.
pub proof fn law_history_is_bounded(entries: Seq<CacheEntry>, e: CacheEntry)
    ensures
        after_storing(entries, e).0.len() <= MAX_ENTRIES || forall|j: int|
            0 <= j < after_storing(entries, e).0.len() ==> #[trigger] after_storing(entries, e).0[j].date@ == e.date@,
{
    let l = entries.filter(|x: CacheEntry| x.date@ != e.date@).push(e);
    if l.len() > MAX_ENTRIES {
        lemma_sort_keeps(l, e);
        lemma_drop_oldest_bound(sort_by_fetch(l), e.date@, (l.len() - MAX_ENTRIES) as nat);
    }
}

/// `sorted` with `e` inserted at its place by download time.
fn insert_sorted(sorted: &mut Vec<CacheEntry>, e: CacheEntry)
    ensures
        final(sorted)@ == insert_by_fetch(old(sorted)@, e),
{
    let ghost s = sorted@;
    let mut p: usize = sorted.len();
    assert(s.take(p as int) =~= s);
    assert(s.skip(p as int) =~= Seq::<CacheEntry>::empty());
    while p > 0 && str_less(e.fetched_at.as_str(), sorted[p - 1].fetched_at.as_str())
        invariant
            p <= s.len(),
            sorted@ == s,
            insert_by_fetch(s, e) == insert_by_fetch(s.take(p as int), e) + s.skip(p as int),
        decreases p,
    {
        proof {
            let t = s.take(p as int);
            assert(t.drop_last() =~= s.take(p - 1));
            assert(t.last() == s[p - 1]);
            assert(insert_by_fetch(t, e) == insert_by_fetch(s.take(p - 1), e).push(s[p - 1]));
            assert(s.skip(p - 1) =~= seq![s[p - 1]] + s.skip(p as int));
            assert(insert_by_fetch(s.take(p - 1), e).push(s[p - 1]) + s.skip(p as int) =~= insert_by_fetch(s.take(p - 1), e) + s.skip(p - 1));
        }
        p = p - 1;
    }
    proof {
        if p == 0 {
            assert(s.take(0) =~= Seq::<CacheEntry>::empty());
        } else {
            assert(s.take(p as int).last() == s[p - 1]);
        }
        assert(insert_by_fetch(s.take(p as int), e) =~= s.take(p as int).push(e));
    }
    sorted.insert(p, e);
    assert(sorted@ =~= s.take(p as int).push(e) + s.skip(p as int));
}

/// The first entry of `s` not published on `keep`.
fn find_not_on(s: &Vec<CacheEntry>, keep: &str) -> (r: Option<usize>)
    ensures
        r matches Some(i) ==> first_not_on(s@, keep@) == Some(i as int) && i < s@.len(),
        r is None ==> first_not_on(s@, keep@) is None,
{
    let mut i: usize = 0;
    assert(s@.skip(0) =~= s@);
    while i < s.len()
        invariant
            i <= s@.len(),
            first_not_on(s@, keep@) == (match first_not_on(s@.skip(i as int), keep@) {
                Some(k) => Some(k + i),
                None => None,
            }),
        decreases s@.len() - i,
    {
        if !eq_str(s[i].date.as_str(), keep) {
            return Some(i);
        }
        assert(s@.skip(i as int).drop_first() =~= s@.skip(i + 1));
        i = i + 1;
    }
    None
}

impl Cache {
    /// Adds `entry` to the history, replacing any earlier entry for the same
    /// day, then prunes the oldest downloads beyond `MAX_ENTRIES`, never the
    /// entry just added. Hands back the entries pruned, whose files are to be
    /// deleted.
    pub fn insert(&mut self, entry: CacheEntry) -> (removed: Vec<CacheEntry>)
        ensures
            (final(self).spec_entries(), removed@) == after_storing(old(self).spec_entries(), entry),
            final(self).spec_root() == old(self).spec_root(),
    {
        let ghost old_entries = self.entries@;
        let ghost pred = |x: CacheEntry| x.date@ != entry.date@;
        // Retain the entries of other days.
        let mut kept: Vec<CacheEntry> = Vec::new();
        let mut i: usize = 0;
        while i < self.entries.len()
            invariant
                i <= old_entries.len(),
                self.entries@ == old_entries,
                pred == (|x: CacheEntry| x.date@ != entry.date@),
                kept@ == old_entries.take(i as int).filter(pred),
            decreases old_entries.len() - i,
        {
            proof {
                assert(old_entries.take(i + 1).drop_last() =~= old_entries.take(i as int));
                assert(old_entries.take(i + 1).last() == old_entries[i as int]);
                reveal_with_fuel(Seq::filter, 1);
            }
            if !eq_str(self.entries[i].date.as_str(), entry.date.as_str()) {
                kept.push(self.entries[i].clone());
            }
            i = i + 1;
        }
        assert(old_entries.take(old_entries.len() as int) =~= old_entries);
        let keep_date = entry.date.clone();
        kept.push(entry);
        let ghost l = kept@;
        if kept.len() <= MAX_ENTRIES {
            self.entries = kept;
            return Vec::new();
        }
        // Oldest downloads go first, except the entry just stored.
        let mut sorted: Vec<CacheEntry> = Vec::new();
        let mut k: usize = 0;
        assert(l.take(0) =~= Seq::<CacheEntry>::empty());
        while k < kept.len()
            invariant
                k <= l.len(),
                kept@ == l,
                sorted@ == sort_by_fetch(l.take(k as int)),
            decreases l.len() - k,
        {
            proof {
                assert(l.take(k + 1).drop_last() =~= l.take(k as int));
                assert(l.take(k + 1).last() == l[k as int]);
            }
            insert_sorted(&mut sorted, kept[k].clone());
            k = k + 1;
        }
        assert(l.take(l.len() as int) =~= l);
        let excess = kept.len() - MAX_ENTRIES;
        let ghost sorted_all = sorted@;
        let mut removed: Vec<CacheEntry> = Vec::new();
        let mut left: usize = excess;
        while left > 0
            invariant
                left <= excess,
                drop_oldest(sorted_all, keep_date@, excess as nat) == ({
                    let (rest, gone) = drop_oldest(sorted@, keep_date@, left as nat);
                    (rest, removed@ + gone)
                }),
            ensures
                drop_oldest(sorted_all, keep_date@, excess as nat) == (sorted@, removed@),
            decreases left,
        {
            let pos = match find_not_on(&sorted, keep_date.as_str()) {
                Some(p) => p,
                None => {
                    assert(drop_oldest(sorted@, keep_date@, left as nat) == (sorted@, Seq::<CacheEntry>::empty()));
                    assert(removed@ + Seq::<CacheEntry>::empty() =~= removed@);
                    break ;
                },
            };
            let ghost before = sorted@;
            let ghost before_removed = removed@;
            let gone = sorted.remove(pos);
            proof {
                assert(sorted@ == before.remove(pos as int));
                let (rest, g) = drop_oldest(sorted@, keep_date@, (left - 1) as nat);
                assert(drop_oldest(before, keep_date@, left as nat) == (rest, seq![before[pos as int]] + g));
                assert(before_removed + (seq![gone] + g) =~= before_removed.push(gone) + g);
            }
            removed.push(gone);
            left = left - 1;
            proof {
                if left == 0 {
                    assert(removed@ + Seq::<CacheEntry>::empty() =~= removed@);
                }
            }
        }
        self.entries = sorted;
        removed
    }
}

/// The history entry for an original just downloaded: the APOD's metadata,
/// where it came from, the file it is stored as -- named from the date and
/// from the format its content shows -- and when it was downloaded.
pub fn cache_entry(apod: &Apod, source_url: &str, bytes: &[u8], fetched_at: &str) -> (e: CacheEntry)
    ensures
        e.date == apod.date,
        e.title == apod.title,
        e.explanation == apod.explanation,
        e.copyright == apod.copyright,
        e.media_type == apod.media_type,
        e.video_url == (if apod.media_type@ == video_type() {
            apod.url
        } else {
            None
        }),
        e.source_url@ == source_url@,
        e.image_file@ == apod.date@ + seq!['.'] + kind_extension(sniffed_kind(bytes@)),
        e.fetched_at@ == fetched_at@,
{
    let mut image_file = apod.date.clone();
    push_char(&mut image_file, '.');
    image_file.append(image_extension(bytes));
    CacheEntry {
        date: apod.date.clone(),
        title: apod.title.clone(),
        explanation: apod.explanation.clone(),
        copyright: clone_opt(&apod.copyright),
        media_type: apod.media_type.clone(),
        video_url: if apod.is_video() {
            clone_opt(&apod.url)
        } else {
            None
        },
        source_url: String::from_str(source_url),
        image_file,
        fetched_at: String::from_str(fetched_at),
    }
}

} // verus!
