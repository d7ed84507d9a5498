//! The browsing session: current location, cached listing, active filter,
//! and the set of marked files.
//!
//! The session holds no filesystem handle. Directory reads happen outside
//! and are handed in as raw entries ([`refresh_listing`]); every operation
//! here is a pure state transition with a contract. Index-based operations
//! always resolve against the *displayed* listing: the cached listing with
//! the active filter applied.
//!
//! [`refresh_listing`]: SessionState::refresh_listing

use vstd::prelude::*;
use vstd::string::*;
use crate::entries::{EntryInfo, File, FileData, spec_listing, get_files_in_directory,
    files_from_paths};
use crate::filter::{regex_compiles, spec_filtered, filter_entries,
    is_valid_pattern, lemma_filtered_is_sublisting};
use crate::entries::lemma_listing_excludes_hidden;
use crate::paths::{spec_file_name, spec_parent, spec_is_hidden, file_name, parent_path,
    is_root_path, lemma_parent_shorter};
use crate::preview::{PreviewData, preview_post, get_file_preview, preview_content_path,
    spec_content, spec_file_kind, FileKind};

verus! {

/// Errors the session reports to its caller rather than recovering from.
#[derive(Debug, Clone, Copy, PartialEq, Eq, Structural)]
pub enum SessionError {
    /// Parent navigation was requested at a root location.
    AtRoot,
    /// A filter pattern was rejected by the pattern engine.
    InvalidPattern,
}

/// The paths of a sequence of path strings, as sequences of characters.
pub open spec fn path_views(v: Seq<String>) -> Seq<Seq<char>> {
    v.map_values(|s: String| s@)
}

/// A browsing session: the directory being browsed, the unfiltered cached
/// listing of its contents as of the last refresh, the marked absolute
/// paths (independent of the location), and the active filter pattern.
pub struct SessionState {
    pub current_location: String,
    pub cached_listing: Vec<File>,
    pub marked: Vec<String>,
    pub active_filter: Option<String>,
}

impl SessionState {
    /// Session well-formedness: no path is marked twice, and every marked
    /// path has a final component (marks name files, and a copy needs the
    /// name).
    pub open spec fn wf(self) -> bool {
        let vs = path_views(self.marked@);
        &&& (forall|i: int, j: int|
            0 <= i < j < vs.len() ==> #[trigger] vs[i] != #[trigger] vs[j])
        &&& (forall|i: int| 0 <= i < vs.len() ==> spec_file_name(#[trigger] vs[i]) is Some)
    }

    /// Whether `p` is a marked path.
    pub open spec fn is_marked_path(self, p: Seq<char>) -> bool {
        path_views(self.marked@).contains(p)
    }

    /// The marked paths as a set; marking is order-independent.
    pub open spec fn marked_set(self) -> Set<Seq<char>> {
        Set::new(|p: Seq<char>| path_views(self.marked@).contains(p))
    }

    /// The displayed listing: the cached listing, narrowed by the active
    /// filter when one is set.
    pub open spec fn spec_displayed(self) -> Seq<File> {
        match self.active_filter {
            Option::Some(pat) => spec_filtered(pat@, self.cached_listing@),
            Option::None => self.cached_listing@,
        }
    }

    /// The marked-files listing: every marked path as a file entry, in mark
    /// order.
    pub open spec fn marked_entries(self) -> Seq<File> {
        Seq::new(self.marked@.len(), |i: int| File::File(self.marked@[i]))
    }

    /// The displayed listing as entries: the cached listing, narrowed by
    /// the active filter when one is set.
    pub fn displayed_entries(&self) -> (r: Vec<File>)
        ensures
            r@ == self.spec_displayed(),
    {
        match &self.active_filter {
            Option::Some(pat) => filter_entries(pat, &self.cached_listing),
            Option::None => {
                let mut out: Vec<File> = Vec::new();
                let mut i: usize = 0;
                while i < self.cached_listing.len()
                    invariant
                        i <= self.cached_listing@.len(),
                        out@.len() == i,
                        forall|j: int| 0 <= j < i ==> out@[j] == self.cached_listing@[j],
                    decreases self.cached_listing@.len() - i,
                {
                    let f = self.cached_listing[i].clone();
                    out.push(f);
                    i = i + 1;
                }
                proof {
                    assert(out@ =~= self.cached_listing@);
                }
                out
            },
        }
    }

    /// The displayed listing as the UI sees it: each entry's name, flagged
    /// marked exactly when the entry's absolute path is marked.
    pub fn list_current(&self) -> (r: Vec<FileData>)
        ensures
            r@.len() == self.spec_displayed().len(),
            forall|i: int|
                0 <= i < r@.len() ==> (#[trigger] r@[i]).name@
                    == self.spec_displayed()[i].spec_name() && r@[i].marked == self.is_marked_path(
                    self.spec_displayed()[i].spec_path(),
                ),
    {
        let d = self.displayed_entries();
        let mut out: Vec<FileData> = Vec::new();
        let mut i: usize = 0;
        while i < d.len()
            invariant
                d@ == self.spec_displayed(),
                i <= d@.len(),
                out@.len() == i,
                forall|j: int|
                    0 <= j < i ==> (#[trigger] out@[j]).name@ == self.spec_displayed()[j].spec_name()
                        && out@[j].marked == self.is_marked_path(
                        self.spec_displayed()[j].spec_path(),
                    ),
            decreases d@.len() - i,
        {
            let f = &d[i];
            let name = f.name();
            let path = f.path();
            let m = contains_path(&self.marked, &path);
            out.push(FileData { name, marked: m });
            i = i + 1;
        }
        out
    }

    /// The marked-files listing as the UI sees it: each marked path's name,
    /// always flagged marked, independent of the current location.
    pub fn list_marked(&self) -> (r: Vec<FileData>)
        requires
            self.wf(),
        ensures
            r@.len() == self.marked@.len(),
            forall|i: int|
                0 <= i < r@.len() ==> (#[trigger] r@[i]).name@ == spec_file_name(
                    self.marked@[i]@,
                ).unwrap() && r@[i].marked,
    {
        let mut out: Vec<FileData> = Vec::new();
        let mut i: usize = 0;
        while i < self.marked.len()
            invariant
                self.wf(),
                i <= self.marked@.len(),
                out@.len() == i,
                forall|j: int|
                    0 <= j < i ==> (#[trigger] out@[j]).name@ == spec_file_name(self.marked@[j]@).unwrap()
                        && out@[j].marked,
            decreases self.marked@.len() - i,
        {
            proof {
                assert(path_views(self.marked@)[i as int] == self.marked@[i as int]@);
            }
            let name = match file_name(self.marked[i].as_str()) {
                Option::Some(n) => n,
                Option::None => {
                    proof {
                        assert(false);
                    }
                    String::new()
                },
            };
            out.push(FileData { name, marked: true });
            i = i + 1;
        }
        out
    }

    /// Resolves `index` against the displayed listing; when it names a
    /// directory, moves there, clears the filter and empties the cached
    /// listing (a refresh with the new directory's entries follows), and
    /// returns the new location. A file or an out-of-range index changes
    /// nothing. Marks are never touched.
    pub fn navigate_into(&mut self, index: usize) -> (target: Option<String>)
        ensures
            final(self).marked == old(self).marked,
            0 <= index < old(self).spec_displayed().len() && old(self).spec_displayed()[index as int]
                is Directory ==> ({
                &&& (target matches Option::Some(t) && t@ == old(self).spec_displayed()[
                    index as int].spec_path())
                &&& final(self).current_location@ == old(self).spec_displayed()[
                    index as int].spec_path()
                &&& final(self).active_filter is None
                &&& final(self).cached_listing@ == Seq::<File>::empty()
            }),
            !(0 <= index < old(self).spec_displayed().len() && old(self).spec_displayed()[
                index as int] is Directory) ==> *final(self) == *old(self) && target is None,
    {
        let d = self.displayed_entries();
        if index < d.len() {
            match &d[index] {
                File::Directory(p) => {
                    self.current_location = p.clone();
                    self.active_filter = Option::None;
                    self.cached_listing = Vec::new();
                    Option::Some(p.clone())
                },
                File::File(_) => Option::None,
            }
        } else {
            Option::None
        }
    }

    /// Moves to the parent of the current location, clearing the filter and
    /// emptying the cached listing (a refresh follows); at a root it fails
    /// with [`SessionError::AtRoot`] and changes nothing. Marks are never
    /// touched.
    pub fn navigate_parent(&mut self) -> (r: Result<(), SessionError>)
        ensures
            final(self).marked == old(self).marked,
            (match r {
                Result::Ok(_) => (spec_parent(old(self).current_location@)
                    matches Option::Some(q) && final(self).current_location@ == q)
                    && final(self).active_filter is None && final(self).cached_listing@
                    == Seq::<File>::empty(),
                Result::Err(e) => e == SessionError::AtRoot && *final(self) == *old(self)
                    && spec_parent(old(self).current_location@) is None,
            }),
    {
        match parent_path(self.current_location.as_str()) {
            Option::Some(q) => {
                self.current_location = q;
                self.active_filter = Option::None;
                self.cached_listing = Vec::new();
                Result::Ok(())
            },
            Option::None => Result::Err(SessionError::AtRoot),
        }
    }

    /// Moves directly to `path` without validating it, clearing the filter
    /// and emptying the cached listing; whether the path is readable
    /// surfaces at the next refresh. Marks are never touched.
    pub fn navigate_to(&mut self, path: String)
        ensures
            final(self).current_location == path,
            final(self).active_filter is None,
            final(self).cached_listing@ == Seq::<File>::empty(),
            final(self).marked == old(self).marked,
    {
        self.current_location = path;
        self.active_filter = Option::None;
        self.cached_listing = Vec::new();
    }

    /// Replaces the cached listing with the listing built from a fresh raw
    /// read of the current location. Location, filter and marks are
    /// untouched.
    pub fn refresh_listing(&mut self, entries: &Vec<EntryInfo>)
        ensures
            final(self).cached_listing@ == spec_listing(entries@),
            final(self).current_location == old(self).current_location,
            final(self).active_filter == old(self).active_filter,
            final(self).marked == old(self).marked,
    {
        self.cached_listing = get_files_in_directory(entries);
    }

    /// The current location as the UI renders it: a root renders as `/`,
    /// anything else as its own path.
    pub fn get_current_path(&self) -> (r: String)
        ensures
            spec_parent(self.current_location@) is None ==> r@ == seq!['/'],
            spec_parent(self.current_location@) is Some ==> r@ == self.current_location@,
    {
        if is_root_path(&self.current_location) {
            let s = String::from_str("/");
            proof {
                reveal_strlit("/");
                assert("/"@ =~= seq!['/']);
            }
            s
        } else {
            self.current_location.clone()
        }
    }

    /// Sets, replaces or clears the filter. An empty pattern clears it; a
    /// pattern the engine rejects fails with
    /// [`SessionError::InvalidPattern`] and leaves the active filter as it
    /// was. The cached listing, location and marks are never touched, so a
    /// cleared filter restores exactly the unfiltered listing.
    pub fn set_filter(&mut self, pattern: String) -> (r: Result<(), SessionError>)
        ensures
            final(self).current_location == old(self).current_location,
            final(self).cached_listing == old(self).cached_listing,
            final(self).marked == old(self).marked,
            pattern@.len() == 0 ==> r is Ok && final(self).active_filter is None,
            pattern@.len() > 0 && regex_compiles(pattern@) ==> r is Ok && final(self).active_filter == Option::Some(pattern),
            pattern@.len() > 0 && !regex_compiles(pattern@) ==> (r matches Result::Err(e) && e
                == SessionError::InvalidPattern) && final(self).active_filter == old(
                self,
            ).active_filter,
    {
        if pattern.as_str().is_empty() {
            self.active_filter = Option::None;
            Result::Ok(())
        } else if is_valid_pattern(pattern.as_str()) {
            self.active_filter = Option::Some(pattern);
            Result::Ok(())
        } else {
            Result::Err(SessionError::InvalidPattern)
        }
    }

    /// Previews the displayed entry at `index`; for an image file the bytes
    /// read for it are handed in as `content` (`None` when unreadable).
    pub fn preview_at(&self, index: usize, content: Option<&Vec<u8>>) -> (r: PreviewData)
        ensures
            preview_post(self.spec_displayed(), index as int, spec_content(content), r),
    {
        let d = self.displayed_entries();
        get_file_preview(index, &d, content)
    }

    /// The path whose bytes [`Self::preview_at`] will need at `index`:
    /// present exactly when the displayed entry there is an image file.
    pub fn preview_source_at(&self, index: usize) -> (r: Option<String>)
        ensures
            match r {
                Option::Some(p) => 0 <= index < self.spec_displayed().len() && (
                self.spec_displayed()[index as int] matches File::File(q) && q@ == p@
                    && spec_file_kind(q@) == FileKind::Image),
                Option::None => !(0 <= index < self.spec_displayed().len() && (
                self.spec_displayed()[index as int] matches File::File(q) && spec_file_kind(q@)
                    == FileKind::Image)),
            },
    {
        let d = self.displayed_entries();
        preview_content_path(index, &d)
    }

    /// Previews the marked entry at `index`, resolved against the
    /// marked-files listing; out of range yields no preview, exactly as
    /// [`Self::preview_at`] does.
    pub fn preview_marked_at(&self, index: usize, content: Option<&Vec<u8>>) -> (r: PreviewData)
        ensures
            preview_post(self.marked_entries(), index as int, spec_content(content), r),
    {
        let files = files_from_paths(&self.marked);
        proof {
            assert(files@ =~= self.marked_entries());
        }
        get_file_preview(index, &files, content)
    }

    /// The path whose bytes [`Self::preview_marked_at`] will need at
    /// `index`: present exactly when the marked entry there is an image.
    pub fn preview_marked_source_at(&self, index: usize) -> (r: Option<String>)
        ensures
            match r {
                Option::Some(p) => 0 <= index < self.marked_entries().len() && (
                self.marked_entries()[index as int] matches File::File(q) && q@ == p@
                    && spec_file_kind(q@) == FileKind::Image),
                Option::None => !(0 <= index < self.marked_entries().len() && (
                self.marked_entries()[index as int] matches File::File(q) && spec_file_kind(q@)
                    == FileKind::Image)),
            },
    {
        let files = files_from_paths(&self.marked);
        proof {
            assert(files@ =~= self.marked_entries());
        }
        preview_content_path(index, &files)
    }
}

/// `vs` with every occurrence of `p` removed, order kept.
pub open spec fn spec_remove(vs: Seq<Seq<char>>, p: Seq<char>) -> Seq<Seq<char>>
    decreases vs.len(),
{
    if vs.len() == 0 {
        Seq::empty()
    } else {
        let rest = spec_remove(vs.drop_last(), p);
        if vs.last() == p {
            rest
        } else {
            rest.push(vs.last())
        }
    }
}

/// A path stands in `spec_remove(vs, p)` exactly when it stands in `vs` and
/// is not the removed one.
pub proof fn lemma_remove_membership(vs: Seq<Seq<char>>, p: Seq<char>)
    ensures
        forall|q: Seq<char>|
            #[trigger] spec_remove(vs, p).contains(q) <==> (vs.contains(q) && q != p),
    decreases vs.len(),
{
    if vs.len() > 0 {
        lemma_remove_membership(vs.drop_last(), p);
        let rest = spec_remove(vs.drop_last(), p);
        assert forall|q: Seq<char>| #[trigger] spec_remove(vs, p).contains(q) implies (vs.contains(
            q,
        ) && q != p) by {
            if vs.last() == p {
                let k = choose|k: int|
                    0 <= k < vs.drop_last().len() && vs.drop_last()[k] == q;
                assert(vs[k] == q);
            } else {
                let m = choose|m: int|
                    0 <= m < spec_remove(vs, p).len() && spec_remove(vs, p)[m] == q;
                if m < rest.len() {
                    assert(rest.contains(q));
                    let k = choose|k: int|
                        0 <= k < vs.drop_last().len() && vs.drop_last()[k] == q;
                    assert(vs[k] == q);
                } else {
                    assert(q == vs.last());
                    assert(vs[vs.len() - 1] == q);
                }
            }
        }
        assert forall|q: Seq<char>| vs.contains(q) && q != p implies #[trigger] spec_remove(
            vs,
            p,
        ).contains(q) by {
            let k = choose|k: int| 0 <= k < vs.len() && vs[k] == q;
            if k < vs.len() - 1 {
                assert(vs.drop_last()[k] == q);
                assert(vs.drop_last().contains(q));
                assert(rest.contains(q));
                if vs.last() != p {
                    let m = choose|m: int| 0 <= m < rest.len() && rest[m] == q;
                    assert(rest.push(vs.last())[m] == q);
                }
            } else {
                assert(q == vs.last());
                assert(rest.push(vs.last())[rest.len() as int] == q);
            }
        }
    }
}

/// Removing a path that does not occur changes nothing.
pub proof fn lemma_remove_absent(vs: Seq<Seq<char>>, p: Seq<char>)
    requires
        forall|i: int| 0 <= i < vs.len() ==> vs[i] != p,
    ensures
        spec_remove(vs, p) == vs,
    decreases vs.len(),
{
    if vs.len() > 0 {
        assert(forall|i: int| 0 <= i < vs.drop_last().len() ==> vs.drop_last()[i] != p);
        lemma_remove_absent(vs.drop_last(), p);
        assert(vs[vs.len() - 1] != p);
        assert(spec_remove(vs, p) =~= vs);
    } else {
        assert(spec_remove(vs, p) =~= vs);
    }
}

/// Removing a path right after appending it removes exactly the appended
/// occurrence.
pub proof fn lemma_remove_push_same(vs: Seq<Seq<char>>, p: Seq<char>)
    ensures
        spec_remove(vs.push(p), p) == spec_remove(vs, p),
{
    assert(vs.push(p).drop_last() =~= vs);
    assert(vs.push(p).last() == p);
}

/// Removal keeps paths pairwise distinct.
pub proof fn lemma_remove_no_dups(vs: Seq<Seq<char>>, p: Seq<char>)
    requires
        forall|i: int, j: int| 0 <= i < j < vs.len() ==> #[trigger] vs[i] != #[trigger] vs[j],
    ensures
        forall|i: int, j: int|
            0 <= i < j < spec_remove(vs, p).len() ==> #[trigger] spec_remove(vs, p)[i]
                != #[trigger] spec_remove(vs, p)[j],
    decreases vs.len(),
{
    if vs.len() > 0 {
        assert(forall|i: int, j: int|
            0 <= i < j < vs.drop_last().len() ==> #[trigger] vs.drop_last()[i]
                != #[trigger] vs.drop_last()[j]);
        lemma_remove_no_dups(vs.drop_last(), p);
        lemma_remove_membership(vs.drop_last(), p);
        let rest = spec_remove(vs.drop_last(), p);
        if vs.last() != p {
            assert(!rest.contains(vs.last())) by {
                if rest.contains(vs.last()) {
                    let k = choose|k: int|
                        0 <= k < vs.drop_last().len() && vs.drop_last()[k] == vs.last();
                    assert(vs[k] == vs[vs.len() - 1]);
                    assert(false);
                }
            }
            assert forall|i: int, j: int|
                0 <= i < j < spec_remove(vs, p).len() implies #[trigger] spec_remove(vs, p)[i]
                != #[trigger] spec_remove(vs, p)[j] by {
                if j < rest.len() {
                } else {
                    assert(spec_remove(vs, p)[j] == vs.last());
                    assert(spec_remove(vs, p)[i] == rest[i]);
                    assert(rest.contains(rest[i]));
                }
            }
        }
    }
}

/// A path stands in `vs.push(x)` exactly when it stands in `vs` or is `x`.
pub proof fn lemma_push_contains(vs: Seq<Seq<char>>, x: Seq<char>)
    ensures
        forall|q: Seq<char>| #[trigger] vs.push(x).contains(q) <==> (vs.contains(q) || q == x),
{
    assert forall|q: Seq<char>| #[trigger] vs.push(x).contains(q) implies (vs.contains(q) || q
        == x) by {
        let k = choose|k: int| 0 <= k < vs.push(x).len() && vs.push(x)[k] == q;
        if k < vs.len() {
            assert(vs[k] == q);
        }
    }
    assert forall|q: Seq<char>| (vs.contains(q) || q == x) implies #[trigger] vs.push(x).contains(
        q,
    ) by {
        if q == x {
            assert(vs.push(x)[vs.len() as int] == q);
        } else {
            let k = choose|k: int| 0 <= k < vs.len() && vs[k] == q;
            assert(vs.push(x)[k] == q);
        }
    }
}

/// Builds `v` with every element viewing as `p` removed, order kept.
fn remove_path(v: &Vec<String>, p: &String) -> (r: Vec<String>)
    ensures
        path_views(r@) == spec_remove(path_views(v@), p@),
{
    let mut out: Vec<String> = Vec::new();
    let mut i: usize = 0;
    while i < v.len()
        invariant
            i <= v@.len(),
            path_views(out@) == spec_remove(path_views(v@).take(i as int), p@),
        decreases v@.len() - i,
    {
        proof {
            assert(path_views(v@).take(i + 1 as int).drop_last() =~= path_views(v@).take(
                i as int,
            ));
            assert(path_views(v@).take(i + 1 as int).last() == path_views(v@)[i as int]);
            assert(path_views(v@)[i as int] == v@[i as int]@);
        }
        let ghost prev = out@;
        if !(v[i] == *p) {
            let s = v[i].clone();
            out.push(s);
            proof {
                assert(path_views(out@) =~= path_views(prev).push(v@[i as int]@));
            }
        }
        i = i + 1;
    }
    proof {
        assert(path_views(v@).take(v@.len() as int) =~= path_views(v@));
    }
    out
}

/// What toggling the mark at `index` does: fields other than the marks are
/// untouched; a displayed file's path leaves the marked paths when present
/// and joins them when absent; a directory, an out-of-range index, or a
/// file without a name changes nothing.
pub open spec fn toggle_post(pre: SessionState, post: SessionState, index: int) -> bool {
    let d = pre.spec_displayed();
    &&& post.current_location == pre.current_location
    &&& post.cached_listing == pre.cached_listing
    &&& post.active_filter == pre.active_filter
    &&& (if 0 <= index < d.len() {
        match d[index] {
            File::File(p) => {
                if spec_file_name(p@) is None {
                    post.marked == pre.marked
                } else if pre.is_marked_path(p@) {
                    path_views(post.marked@) == spec_remove(path_views(pre.marked@), p@)
                } else {
                    path_views(post.marked@) == path_views(pre.marked@).push(p@)
                }
            },
            File::Directory(_) => post.marked == pre.marked,
        }
    } else {
        post.marked == pre.marked
    })
}

impl SessionState {
    /// Resolves `index` against the displayed listing and toggles the mark
    /// on the file there: marked becomes unmarked and unmarked becomes
    /// marked. Directories cannot be marked; a directory, an out-of-range
    /// index, or a file without a name is a no-op.
    pub fn toggle_mark(&mut self, index: usize)
        requires
            old(self).wf(),
        ensures
            toggle_post(*old(self), *final(self), index as int),
            final(self).wf(),
    {
        let d = self.displayed_entries();
        if index >= d.len() {
            return ;
        }
        match &d[index] {
            File::Directory(_) => {},
            File::File(p) => {
                match file_name(p.as_str()) {
                    Option::None => {},
                    Option::Some(_) => {
                        let ghost pre_views = path_views(old(self).marked@);
                        if contains_path(&self.marked, p) {
                            let new_marked = remove_path(&self.marked, p);
                            self.marked = new_marked;
                            proof {
                                lemma_remove_membership(pre_views, p@);
                                lemma_remove_no_dups(pre_views, p@);
                                let vs = path_views(self.marked@);
                                assert forall|i: int|
                                    0 <= i < vs.len() implies spec_file_name(
                                    #[trigger] vs[i],
                                ) is Some by {
                                    assert(vs.contains(vs[i]));
                                    let k = choose|k: int|
                                        0 <= k < pre_views.len() && pre_views[k] == vs[i];
                                }
                            }
                        } else {
                            let q = p.clone();
                            self.marked.push(q);
                            proof {
                                assert(path_views(self.marked@) =~= pre_views.push(p@));
                                let vs = path_views(self.marked@);
                                assert forall|i: int|
                                    0 <= i < pre_views.len() implies pre_views[i] != p@ by {
                                    if pre_views[i] == p@ {
                                        assert(pre_views.contains(p@));
                                    }
                                }
                                assert forall|i: int, j: int|
                                    0 <= i < j < vs.len() implies #[trigger] vs[i]
                                    != #[trigger] vs[j] by {
                                    if j == vs.len() - 1 {
                                        assert(vs[i] == pre_views[i]);
                                    }
                                }
                            }
                        }
                    },
                }
            },
        }
    }
}

/// Whether some element of `v` views as `p`.
pub fn contains_path(v: &Vec<String>, p: &String) -> (r: bool)
    ensures
        r == path_views(v@).contains(p@),
{
    let mut i: usize = 0;
    while i < v.len()
        invariant
            i <= v@.len(),
            forall|j: int| 0 <= j < i ==> path_views(v@)[j] != p@,
        decreases v@.len() - i,
    {
        if v[i] == *p {
            proof {
                assert(path_views(v@)[i as int] == p@);
            }
            return true;
        }
        i = i + 1;
    }
    false
}

/// Filtering narrows strictly: every displayed entry stands in the
/// unfiltered cached listing, and with no filter — as after clearing one,
/// which touches nothing but the filter — the displayed listing is exactly
/// the cached listing.
pub proof fn lemma_filter_narrows(s: SessionState)
    ensures
        forall|i: int|
            0 <= i < s.spec_displayed().len() ==> s.cached_listing@.contains(
                #[trigger] s.spec_displayed()[i],
            ),
        s.active_filter is None ==> s.spec_displayed() == s.cached_listing@,
{
    match s.active_filter {
        Option::Some(pat) => {
            lemma_filtered_is_sublisting(pat@, s.cached_listing@);
        },
        Option::None => {
            assert forall|i: int| 0 <= i < s.spec_displayed().len() implies s.cached_listing@
                .contains(#[trigger] s.spec_displayed()[i]) by {
                assert(s.cached_listing@[i] == s.spec_displayed()[i]);
            }
        },
    }
}

/// Hidden-entry exclusion, end to end: when the cached listing came from a
/// raw directory read, no displayed entry — filtered or not — is hidden,
/// and no displayed entry's name begins with the hidden marker.
pub proof fn lemma_displayed_excludes_hidden(s: SessionState, raw: Seq<EntryInfo>)
    requires
        s.cached_listing@ == spec_listing(raw),
    ensures
        forall|i: int|
            0 <= i < s.spec_displayed().len() ==> !spec_is_hidden(
                (#[trigger] s.spec_displayed()[i]).spec_path(),
            ),
        forall|i: int|
            0 <= i < s.spec_displayed().len() ==> ((#[trigger] s.spec_displayed()[i]).spec_name().len()
                > 0 ==> s.spec_displayed()[i].spec_name()[0] != '.'),
{
    lemma_listing_excludes_hidden(raw);
    lemma_filter_narrows(s);
    assert forall|i: int| 0 <= i < s.spec_displayed().len() implies !spec_is_hidden(
        (#[trigger] s.spec_displayed()[i]).spec_path(),
    ) by {
        let f = s.spec_displayed()[i];
        let k = choose|k: int| 0 <= k < s.cached_listing@.len() && s.cached_listing@[k] == f;
        assert(spec_listing(raw)[k] == f);
    }
}

/// Toggling the same displayed index twice restores the pre-toggle marked
/// set: the first call flips the file's membership and the second flips it
/// back.
pub proof fn lemma_toggle_twice_restores_marks(
    pre: SessionState,
    mid: SessionState,
    post: SessionState,
    index: int,
)
    requires
        pre.wf(),
        toggle_post(pre, mid, index),
        toggle_post(mid, post, index),
    ensures
        post.marked_set() == pre.marked_set(),
{
    let d = pre.spec_displayed();
    assert(mid.spec_displayed() == d);
    let pre_views = path_views(pre.marked@);
    if 0 <= index < d.len() && d[index] is File && spec_file_name(d[index].spec_path()) is Some {
        let p = d[index].spec_path();
        assert(d[index] matches File::File(q) && q@ == p);
        if pre.is_marked_path(p) {
            lemma_remove_membership(pre_views, p);
            assert(path_views(mid.marked@) == spec_remove(pre_views, p));
            assert(!mid.is_marked_path(p));
            assert(path_views(post.marked@) == path_views(mid.marked@).push(p));
            lemma_push_contains(path_views(mid.marked@), p);
            assert(post.marked_set() =~= pre.marked_set());
        } else {
            assert(path_views(mid.marked@) == pre_views.push(p));
            lemma_push_contains(pre_views, p);
            assert(mid.is_marked_path(p));
            assert(path_views(post.marked@) == spec_remove(pre_views.push(p), p));
            lemma_remove_push_same(pre_views, p);
            assert forall|i: int| 0 <= i < pre_views.len() implies pre_views[i] != p by {
                if pre_views[i] == p {
                    assert(pre_views.contains(p));
                }
            }
            lemma_remove_absent(pre_views, p);
            assert(path_views(post.marked@) == pre_views);
            assert(post.marked_set() =~= pre.marked_set());
        }
    } else {
        assert(post.marked_set() =~= pre.marked_set());
    }
}

/// Marks are location-independent: a file marked in one directory stays
/// marked across any navigations, because no navigation operation touches
/// the marked set.
pub proof fn lemma_marks_location_independent(
    s0: SessionState,
    s1: SessionState,
    s2: SessionState,
    s3: SessionState,
    index: int,
    p: String,
)
    requires
        s0.wf(),
        toggle_post(s0, s1, index),
        0 <= index < s0.spec_displayed().len(),
        s0.spec_displayed()[index] == File::File(p),
        spec_file_name(p@) is Some,
        !s0.is_marked_path(p@),
        s2.marked == s1.marked,
        s3.marked == s2.marked,
    ensures
        s3.is_marked_path(p@),
{
    lemma_push_contains(path_views(s0.marked@), p@);
    assert(s1.is_marked_path(p@));
}

/// Root-navigation terminality: each successful parent navigation strictly
/// shortens the current location, so a chain of them must reach a root;
/// there `navigate_parent` fails with `AtRoot` and, by its contract, leaves
/// the state — and the root it reports — unchanged.
pub proof fn lemma_parent_navigation_decreases(pre: SessionState, post: SessionState)
    requires
        spec_parent(pre.current_location@) == Option::<Seq<char>>::Some(post.current_location@),
    ensures
        post.current_location@.len() < pre.current_location@.len(),
{
    lemma_parent_shorter(pre.current_location@);
}

/// Creates the one session of a UI process: located at `path`, listing the
/// raw entries read from it, with nothing marked and no filter.
pub fn initial_state(path: String, entries: &Vec<EntryInfo>) -> (s: SessionState)
    ensures
        s.current_location == path,
        s.cached_listing@ == spec_listing(entries@),
        s.marked@.len() == 0,
        s.active_filter is None,
        s.wf(),
{
    let files = get_files_in_directory(entries);
    SessionState {
        current_location: path,
        cached_listing: files,
        marked: Vec::new(),
        active_filter: Option::None,
    }
}

} // verus!
