//! Classified directory entries and listing construction.
//!
//! A raw directory read is handed in as a sequence of [`EntryInfo`] values
//! (path plus a directory flag); the library turns it into an ordered listing
//! of [`File`] entries with hidden entries excluded.

use vstd::prelude::*;
use vstd::string::*;
use crate::paths::{spec_file_name, spec_is_hidden, is_hidden_file, file_name};

verus! {

/// A raw directory entry as the filesystem reports it: an absolute path and
/// whether it is a directory, classified at read time.
#[derive(Debug)]
pub struct EntryInfo {
    pub path: String,
    pub is_dir: bool,
}

/// A classified filesystem entry: a plain file or a directory, each carrying
/// its absolute path.
#[derive(Debug)]
pub enum File {
    File(String),
    Directory(String),
}

/// A listing row handed to the UI: an entry's name and whether it is marked.
#[derive(Debug)]
pub struct FileData {
    pub name: String,
    pub marked: bool,
}

impl Clone for File {
    fn clone(&self) -> (r: File)
        ensures
            r == *self,
    {
        match self {
            File::File(p) => File::File(p.clone()),
            File::Directory(p) => File::Directory(p.clone()),
        }
    }
}

impl File {
    /// The absolute path the entry was classified from.
    pub open spec fn spec_path(self) -> Seq<char> {
        match self {
            File::File(p) => p@,
            File::Directory(p) => p@,
        }
    }

    /// The entry's display name: its final path component, or empty when the
    /// path has none.
    pub open spec fn spec_name(self) -> Seq<char> {
        match spec_file_name(self.spec_path()) {
            Option::Some(n) => n,
            Option::None => Seq::empty(),
        }
    }

    /// The final component of the entry's path, or empty when there is none.
    pub fn name(&self) -> (r: String)
        ensures
            r@ == self.spec_name(),
    {
        let p = match self {
            File::File(p) => p,
            File::Directory(p) => p,
        };
        match file_name(p.as_str()) {
            Option::Some(n) => n,
            Option::None => String::new(),
        }
    }

    /// The entry's absolute path.
    pub fn path(&self) -> (r: String)
        ensures
            r@ == self.spec_path(),
    {
        match self {
            File::File(p) => p.clone(),
            File::Directory(p) => p.clone(),
        }
    }
}

/// The entry a raw path classifies to: a directory when the flag says so,
/// a plain file otherwise.
pub open spec fn spec_classify(path: String, is_dir: bool) -> File {
    if is_dir {
        File::Directory(path)
    } else {
        File::File(path)
    }
}

/// Classifies a path into a [`File`] from its directory flag.
pub fn classify(path: String, is_dir: bool) -> (f: File)
    ensures
        f == spec_classify(path, is_dir),
{
    if is_dir {
        File::Directory(path)
    } else {
        File::File(path)
    }
}

/// The listing a raw directory read yields: hidden entries dropped, the rest
/// classified, order kept.
pub open spec fn spec_listing(s: Seq<EntryInfo>) -> Seq<File>
    decreases s.len(),
{
    if s.len() == 0 {
        Seq::empty()
    } else {
        let rest = spec_listing(s.drop_last());
        let e = s.last();
        if spec_is_hidden(e.path@) {
            rest
        } else {
            rest.push(spec_classify(e.path, e.is_dir))
        }
    }
}

/// Builds the listing of a directory from its raw entries: entries whose
/// name begins with the hidden marker are dropped, the rest are classified
/// in order.
pub fn get_files_in_directory(entries: &Vec<EntryInfo>) -> (r: Vec<File>)
    ensures
        r@ == spec_listing(entries@),
{
    let mut out: Vec<File> = Vec::new();
    let mut i: usize = 0;
    while i < entries.len()
        invariant
            i <= entries@.len(),
            out@ == spec_listing(entries@.take(i as int)),
        decreases entries@.len() - i,
    {
        proof {
            assert(entries@.take(i + 1 as int).drop_last() =~= entries@.take(i as int));
            assert(entries@.take(i + 1 as int).last() == entries@[i as int]);
        }
        let e = &entries[i];
        if !is_hidden_file(&e.path) {
            let f = classify(e.path.clone(), e.is_dir);
            out.push(f);
        }
        i = i + 1;
    }
    proof {
        assert(entries@.take(entries@.len() as int) =~= entries@);
    }
    out
}

/// Wraps a set of already-known file paths as file entries; used for the
/// marked-files listing, whose members are files by construction.
pub fn files_from_paths(paths: &Vec<String>) -> (r: Vec<File>)
    ensures
        r@.len() == paths@.len(),
        forall|i: int| 0 <= i < paths@.len() ==> r@[i] == File::File(paths@[i]),
{
    let mut out: Vec<File> = Vec::new();
    let mut i: usize = 0;
    while i < paths.len()
        invariant
            i <= paths@.len(),
            out@.len() == i,
            forall|j: int| 0 <= j < i ==> out@[j] == File::File(paths@[j]),
        decreases paths@.len() - i,
    {
        out.push(File::File(paths[i].clone()));
        i = i + 1;
    }
    out
}

/// Hidden-entry exclusion: no entry of a listing built by
/// [`get_files_in_directory`] is hidden, whatever the raw read contained.
pub proof fn lemma_listing_excludes_hidden(s: Seq<EntryInfo>)
    ensures
        forall|i: int|
            0 <= i < spec_listing(s).len() ==> !spec_is_hidden(
                #[trigger] spec_listing(s)[i].spec_path(),
            ),
    decreases s.len(),
{
    if s.len() > 0 {
        lemma_listing_excludes_hidden(s.drop_last());
        let rest = spec_listing(s.drop_last());
        let e = s.last();
        assert forall|i: int| 0 <= i < spec_listing(s).len() implies !spec_is_hidden(
            #[trigger] spec_listing(s)[i].spec_path(),
        ) by {
            if i < rest.len() {
                assert(spec_listing(s)[i] == rest[i]);
            } else {
                assert(!spec_is_hidden(e.path@));
                assert(spec_listing(s)[i] == spec_classify(e.path, e.is_dir));
                assert(spec_classify(e.path, e.is_dir).spec_path() == e.path@);
            }
        }
    }
}

} // verus!
