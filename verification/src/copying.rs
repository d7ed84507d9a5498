//! Batch copying of marked files: the plan, not the transfer.
//!
//! The session plans one copy job per marked path — source and destination
//! path — and the caller performs the transfers, best effort, reporting per
//! file; a failed job need not abort the rest.

use vstd::prelude::*;
use vstd::string::*;
use crate::paths::{spec_file_name, spec_join, file_name, join_path, lemma_last_index_of,
    lemma_last_index_of_unique};
use crate::session::{SessionState, path_views};

verus! {

/// One planned copy: a marked source file and the destination path its
/// bytes go to.
#[derive(Debug)]
pub struct CopyJob {
    pub source: String,
    pub dest: String,
}

impl SessionState {
    /// Plans the batch copy of the marked files into `destination`: one job
    /// per marked path, in mark order, each sending the file to the
    /// destination joined with the file's own name.
    pub fn copy_marked(&self, destination: &String) -> (r: Vec<CopyJob>)
        requires
            self.wf(),
        ensures
            r@.len() == self.marked@.len(),
            forall|i: int|
                0 <= i < r@.len() ==> (#[trigger] r@[i]).source == self.marked@[i] && r@[i].dest@
                    == spec_join(destination@, spec_file_name(self.marked@[i]@).unwrap()),
    {
        let mut out: Vec<CopyJob> = Vec::new();
        let mut i: usize = 0;
        while i < self.marked.len()
            invariant
                self.wf(),
                i <= self.marked@.len(),
                out@.len() == i,
                forall|j: int|
                    0 <= j < i ==> (#[trigger] out@[j]).source == self.marked@[j] && out@[j].dest@
                        == spec_join(destination@, spec_file_name(self.marked@[j]@).unwrap()),
            decreases self.marked@.len() - i,
        {
            proof {
                assert(path_views(self.marked@)[i as int] == self.marked@[i as int]@);
            }
            let name = match file_name(self.marked[i].as_str()) {
                Option::Some(n) => n,
                Option::None => {
                    proof {
                        assert(false);
                    }
                    String::new()
                },
            };
            let dest = join_path(destination.as_str(), name.as_str());
            let source = self.marked[i].clone();
            out.push(CopyJob { source, dest });
            i = i + 1;
        }
        out
    }
}

/// A file name is never empty and contains no separator.
pub proof fn lemma_file_name_no_slash(p: Seq<char>)
    requires
        spec_file_name(p) is Some,
    ensures
        spec_file_name(p).unwrap().len() > 0,
        forall|k: int|
            0 <= k < spec_file_name(p).unwrap().len() ==> spec_file_name(p).unwrap()[k] != '/',
{
    lemma_last_index_of(p, '/');
}

/// Joining a directory with a plain name yields a path whose own file name
/// is exactly that name.
pub proof fn lemma_join_keeps_name(dir: Seq<char>, name: Seq<char>)
    requires
        name.len() > 0,
        forall|k: int| 0 <= k < name.len() ==> name[k] != '/',
    ensures
        spec_file_name(spec_join(dir, name)) == Option::Some(name),
{
    let j = spec_join(dir, name);
    if dir.len() > 0 && dir[dir.len() - 1] == '/' {
        assert(j[dir.len() - 1] == '/');
        assert forall|k: int| dir.len() - 1 < k < j.len() implies j[k] != '/' by {
            assert(j[k] == name[k - dir.len()]);
        }
        lemma_last_index_of_unique(j, '/', dir.len() - 1);
        assert(spec_file_name(j).unwrap() =~= name);
    } else {
        assert(j[dir.len() as int] == '/');
        assert forall|k: int| dir.len() < k < j.len() implies j[k] != '/' by {
            assert(j[k] == name[k - dir.len() - 1]);
        }
        lemma_last_index_of_unique(j, '/', dir.len() as int);
        assert(spec_file_name(j).unwrap() =~= name);
    }
}

/// Copy round-trip, the part the plan decides: every planned destination of
/// [`SessionState::copy_marked`] is a path under the destination directory
/// whose file name is exactly the marked file's own name. (That the bytes
/// arriving there equal the source's bytes is the transfer's concern, not
/// the plan's.)
pub proof fn lemma_copy_preserves_names(s: SessionState, destination: Seq<char>)
    requires
        s.wf(),
    ensures
        forall|i: int|
            0 <= i < s.marked@.len() ==> spec_file_name(
                spec_join(destination, spec_file_name(#[trigger] s.marked@[i]@).unwrap()),
            ) == Option::Some(spec_file_name(s.marked@[i]@).unwrap()),
{
    assert forall|i: int| 0 <= i < s.marked@.len() implies spec_file_name(
        spec_join(destination, spec_file_name(#[trigger] s.marked@[i]@).unwrap()),
    ) == Option::Some(spec_file_name(s.marked@[i]@).unwrap()) by {
        assert(path_views(s.marked@)[i] == s.marked@[i]@);
        lemma_file_name_no_slash(s.marked@[i]@);
        lemma_join_keeps_name(destination, spec_file_name(s.marked@[i]@).unwrap());
    }
}

} // verus!
