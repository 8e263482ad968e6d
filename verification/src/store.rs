//! The record of the wallpaper currently applied, and where its files live.

use vstd::prelude::*;
use crate::settings::FitMode;
use crate::text::{clone_opt, ends_with, eq_str, push_char};

verus! {

/// Record of the wallpaper currently applied, persisted in `state.json`.
///
/// Only one image is kept: failures leave the desktop untouched, so there is
/// no history to fall back on.
#[derive(Debug)]
pub struct Applied {
    /// APOD publication date (YYYY-MM-DD).
    pub date: String,
    pub title: String,
    pub explanation: String,
    pub copyright: Option<String>,
    /// "image" or "video". For a video the stored file is a still: the
    /// thumbnail the API published, or a frame decoded from the video itself
    /// when it was served as a plain file and had no thumbnail.
    pub media_type: String,
    /// The video itself when `media_type` is "video": a YouTube or Vimeo embed
    /// link, or the URL of the file.
    pub video_url: Option<String>,
    /// URL the original was downloaded from.
    pub source_url: String,
    /// File name of the downloaded original, inside the store directory.
    pub image_file: String,
    /// File name of the composition that was set as the wallpaper.
    pub wallpaper_file: String,
    /// Composition inputs, so we can tell when it has to be redone.
    pub fit: FitMode,
    pub width: u32,
    pub height: u32,
    /// Local calendar day the wallpaper was applied on. Drives the
    /// once-per-day rule in random mode.
    pub applied_on: String,
}

impl Clone for Applied {
    fn clone(&self) -> (r: Self)
        ensures
            r == *self,
    {
        Applied {
            date: self.date.clone(),
            title: self.title.clone(),
            explanation: self.explanation.clone(),
            copyright: clone_opt(&self.copyright),
            media_type: self.media_type.clone(),
            video_url: clone_opt(&self.video_url),
            source_url: self.source_url.clone(),
            image_file: self.image_file.clone(),
            wallpaper_file: self.wallpaper_file.clone(),
            fit: self.fit,
            width: self.width,
            height: self.height,
            applied_on: self.applied_on.clone(),
        }
    }
}

/// `name` inside the directory `base`, as `Path::join` builds it for a
/// relative name.
pub open spec fn join_path(base: Seq<char>, name: Seq<char>) -> Seq<char> {
    if base.len() == 0 || ends_with(base, seq!['/']) {
        base + name
    } else {
        base + seq!['/'] + name
    }
}

pub fn join(base: &str, name: &str) -> (r: String)
    ensures
        r@ == join_path(base@, name@),
{
    let mut r = String::from_str(base);
    let n = base.unicode_len();
    if n > 0 && base.get_char(n - 1) == '/' {
        assert(base@.skip(n - 1) =~= seq!['/']);
    } else {
        if n > 0 {
            assert(base@.skip(n - 1)[0] == base@[n - 1]);
        }
        if n > 0 {
            push_char(&mut r, '/');
        }
    }
    r.append(name);
    r
}

/// On-disk layout, under the OS app-data directory:
///   settings.json
///   state.json
///   current/<date>.<ext>                        downloaded original
///   current/wall-<date>-<fit>-<w>x<h>.jpg       applied composition
pub struct Store {
    root: String,
    dir: String,
    state_path: String,
    applied: Option<Applied>,
}

pub open spec fn current_dir() -> Seq<char> {
    seq!['c', 'u', 'r', 'r', 'e', 'n', 't']
}

pub open spec fn state_file() -> Seq<char> {
    seq!['s', 't', 'a', 't', 'e', '.', 'j', 's', 'o', 'n']
}

pub open spec fn legacy_cache() -> Seq<char> {
    seq!['c', 'a', 'c', 'h', 'e']
}

/// Whether `name`, a file in the store directory, backs the record `a`.
pub open spec fn backs_record(a: Applied, name: Seq<char>) -> bool {
    name == a.image_file@ || name == a.wallpaper_file@
}

impl Store {
    pub closed spec fn spec_root(&self) -> Seq<char> {
        self.root@
    }

    pub closed spec fn spec_dir(&self) -> Seq<char> {
        self.dir@
    }

    pub closed spec fn spec_state_path(&self) -> Seq<char> {
        self.state_path@
    }

    pub closed spec fn spec_applied(&self) -> Option<Applied> {
        self.applied
    }

    /// The paths follow from the root.
    pub closed spec fn wf(&self) -> bool {
        &&& self.dir@ == join_path(self.root@, current_dir())
        &&& self.state_path@ == join_path(self.root@, state_file())
    }

    /// A store rooted at `root`, holding the record read back from its state
    /// file, if there was one to read.
    pub fn new(root: &str, applied: Option<Applied>) -> (s: Store)
        ensures
            s.wf(),
            s.spec_root() == root@,
            s.spec_dir() == join_path(root@, current_dir()),
            s.spec_state_path() == join_path(root@, state_file()),
            s.spec_applied() == applied,
    {
        proof {
            reveal_strlit("current");
            reveal_strlit("state.json");
            assert("current"@ =~= current_dir());
            assert("state.json"@ =~= state_file());
        }
        let dir = join(root, "current");
        let state_path = join(root, "state.json");
        Store { root: String::from_str(root), dir, state_path, applied }
    }

    pub fn applied(&self) -> (a: Option<&Applied>)
        ensures
            a is None <==> self.spec_applied() is None,
            a matches Some(x) ==> self.spec_applied() == Some(*x),
    {
        match &self.applied {
            Some(a) => Some(a),
            None => None,
        }
    }

    /// The directory holding the original and the composition.
    pub fn dir(&self) -> (d: &str)
        ensures
            d@ == self.spec_dir(),
    {
        self.dir.as_str()
    }

    /// The file the record is persisted in.
    pub fn state_path(&self) -> (p: &str)
        ensures
            p@ == self.spec_state_path(),
    {
        self.state_path.as_str()
    }

    /// Where the 60-image history of the `cache/` layout lives.
    pub fn legacy_cache_dir(&self) -> (p: String)
        ensures
            p@ == join_path(self.spec_root(), legacy_cache()),
    {
        proof {
            reveal_strlit("cache");
            assert("cache"@ =~= legacy_cache());
        }
        join(self.root.as_str(), "cache")
    }

    pub fn image_path(&self, a: &Applied) -> (p: String)
        ensures
            p@ == join_path(self.spec_dir(), a.image_file@),
    {
        join(self.dir.as_str(), a.image_file.as_str())
    }

    pub fn wallpaper_path(&self, a: &Applied) -> (p: String)
        ensures
            p@ == join_path(self.spec_dir(), a.wallpaper_file@),
    {
        join(self.dir.as_str(), a.wallpaper_file.as_str())
    }

    /// Records the wallpaper just applied. Its state file has been written by
    /// then; what is left to do is to forget the previous record.
    pub fn set_applied(&mut self, applied: Applied)
        ensures
            final(self).spec_applied() == Some(applied),
            final(self).spec_root() == old(self).spec_root(),
            final(self).spec_dir() == old(self).spec_dir(),
            final(self).spec_state_path() == old(self).spec_state_path(),
            old(self).wf() ==> final(self).wf(),
    {
        self.applied = Some(applied);
    }

    /// Of the files in the store directory, those to delete once a record is
    /// committed: every one the current record does not reference --
    /// previous images, stale temporary files, and leftovers from older
    /// versions of the app. With no record, nothing is deleted.
    pub fn files_to_prune(&self, names: &Vec<String>) -> (r: Vec<String>)
        ensures
            self.spec_applied() is None ==> r@.len() == 0,
            self.spec_applied() matches Some(a) ==> r@.map_values(|s: String| s@)
                == names@.map_values(|s: String| s@).filter(|n: Seq<char>| !backs_record(a, n)),
    {
        let mut r: Vec<String> = Vec::new();
        let a = match &self.applied {
            Some(a) => a,
            None => return r,
        };
        let ghost keep = |n: Seq<char>| !backs_record(*a, n);
        let ghost all = names@.map_values(|s: String| s@);
        let mut i: usize = 0;
        while i < names.len()
            invariant
                i <= names@.len(),
                all == names@.map_values(|s: String| s@),
                keep == (|n: Seq<char>| !backs_record(*a, n)),
                r@.map_values(|s: String| s@) == all.take(i as int).filter(keep),
            decreases names@.len() - i,
        {
            let name = &names[i];
            proof {
                assert(all.take(i + 1).drop_last() =~= all.take(i as int));
                assert(all.take(i + 1).last() == name@);
                assert(all.take(i + 1).filter(keep) == {
                    let f = all.take(i as int).filter(keep);
                    if keep(name@) { f.push(name@) } else { f }
                }) by {
                    reveal_with_fuel(Seq::filter, 1);
                }
            }
            if !eq_str(name.as_str(), a.image_file.as_str()) && !eq_str(
                name.as_str(),
                a.wallpaper_file.as_str(),
            ) {
                let ghost before = r@;
                r.push(name.clone());
                assert(r@.map_values(|s: String| s@) =~= before.map_values(|s: String| s@).push(name@));
            }
            i = i + 1;
        }
        assert(all.take(names@.len() as int) =~= all);
        r
    }
}

/// Pruning never deletes a file the record in place stands on: the original
/// and the composition shown on the desktop both survive a commit.
pub proof fn law_pruning_spares_the_applied_files(a: Applied, names: Seq<Seq<char>>)
    ensures
        !names.filter(|n: Seq<char>| !backs_record(a, n)).contains(a.image_file@),
        !names.filter(|n: Seq<char>| !backs_record(a, n)).contains(a.wallpaper_file@),
{
    let f = |n: Seq<char>| !backs_record(a, n);
    broadcast use vstd::seq_lib::group_filter_ensures;
    assert(!f(a.image_file@) && !f(a.wallpaper_file@));
}

} // verus!
