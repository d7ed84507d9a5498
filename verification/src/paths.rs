//! A plain string model of absolute filesystem paths.
//!
//! A path is a `String` whose components are separated by `/`. The final
//! component is the file name; the prefix before the last separator is the
//! parent; `/` itself (and any string without a separator) has no parent.

use vstd::prelude::*;
use vstd::string::*;

verus! {

/// Index of the last occurrence of `c` in `s`, or -1 when `c` does not occur.
pub open spec fn last_index_of(s: Seq<char>, c: char) -> int
    decreases s.len(),
{
    if s.len() == 0 {
        -1
    } else if s[s.len() - 1] == c {
        s.len() - 1
    } else {
        last_index_of(s.drop_last(), c)
    }
}

pub proof fn lemma_last_index_of(s: Seq<char>, c: char)
    ensures
        -1 <= last_index_of(s, c) < s.len(),
        last_index_of(s, c) >= 0 ==> s[last_index_of(s, c)] == c,
        forall|k: int| last_index_of(s, c) < k < s.len() ==> s[k] != c,
    decreases s.len(),
{
    if s.len() > 0 && s[s.len() - 1] != c {
        lemma_last_index_of(s.drop_last(), c);
        assert(forall|k: int| 0 <= k < s.len() - 1 ==> s.drop_last()[k] == s[k]);
    }
}

pub proof fn lemma_last_index_of_unique(s: Seq<char>, c: char, i: int)
    requires
        0 <= i < s.len(),
        s[i] == c,
        forall|k: int| i < k < s.len() ==> s[k] != c,
    ensures
        last_index_of(s, c) == i,
    decreases s.len(),
{
    if i < s.len() - 1 {
        assert(s.drop_last()[i] == c);
        lemma_last_index_of_unique(s.drop_last(), c, i);
    }
}

pub proof fn lemma_last_index_of_absent(s: Seq<char>, c: char)
    requires
        forall|k: int| 0 <= k < s.len() ==> s[k] != c,
    ensures
        last_index_of(s, c) == -1,
    decreases s.len(),
{
    if s.len() > 0 {
        lemma_last_index_of_absent(s.drop_last(), c);
    }
}

/// Position of the last occurrence of `c` in `s`, if any.
fn last_index_of_char(s: &str, c: char) -> (r: Option<usize>)
    ensures
        match r {
            Option::Some(i) => i == last_index_of(s@, c),
            Option::None => last_index_of(s@, c) == -1,
        },
{
    let n = s.unicode_len();
    let mut i: usize = n;
    while i > 0
        invariant
            i <= n,
            n == s@.len(),
            forall|k: int| i <= k < n ==> s@[k] != c,
        decreases i,
    {
        let ch = s.get_char(i - 1);
        if ch == c {
            proof {
                lemma_last_index_of_unique(s@, c, i - 1);
            }
            return Option::Some(i - 1);
        }
        i = i - 1;
    }
    proof {
        lemma_last_index_of_absent(s@, c);
    }
    Option::None
}

/// The final path component: everything after the last separator.
/// Empty when the path is empty or ends with a separator.
pub open spec fn spec_file_name(p: Seq<char>) -> Option<Seq<char>> {
    let start = last_index_of(p, '/') + 1;
    if start < p.len() {
        Option::Some(p.subrange(start, p.len() as int))
    } else {
        Option::None
    }
}

/// The final component of `p`, or `None` when `p` is empty or ends with `/`.
pub fn file_name(p: &str) -> (r: Option<String>)
    ensures
        match r {
            Option::Some(s) => spec_file_name(p@) == Option::Some(s@),
            Option::None => spec_file_name(p@) is None,
        },
{
    let n = p.unicode_len();
    proof {
        lemma_last_index_of(p@, '/');
    }
    let start: usize = match last_index_of_char(p, '/') {
        Option::Some(j) => j + 1,
        Option::None => 0,
    };
    if start < n {
        Option::Some(p.substring_char(start, n).to_owned())
    } else {
        Option::None
    }
}

/// The parent of `p`: the prefix before the last separator, `/` when the last
/// separator is the leading one, and `None` for `/` itself or a string
/// without a separator.
pub open spec fn spec_parent(p: Seq<char>) -> Option<Seq<char>> {
    let j = last_index_of(p, '/');
    if j < 0 {
        Option::None
    } else if j == 0 {
        if p.len() == 1 {
            Option::None
        } else {
            Option::Some(p.subrange(0, 1))
        }
    } else {
        Option::Some(p.subrange(0, j))
    }
}

/// The parent directory of `p`, or `None` at a root.
pub fn parent_path(p: &str) -> (r: Option<String>)
    ensures
        match r {
            Option::Some(s) => spec_parent(p@) == Option::Some(s@),
            Option::None => spec_parent(p@) is None,
        },
{
    let n = p.unicode_len();
    proof {
        lemma_last_index_of(p@, '/');
    }
    match last_index_of_char(p, '/') {
        Option::None => Option::None,
        Option::Some(j) => {
            if j == 0 {
                if n == 1 {
                    Option::None
                } else {
                    Option::Some(p.substring_char(0, 1).to_owned())
                }
            } else {
                Option::Some(p.substring_char(0, j).to_owned())
            }
        },
    }
}

/// A path is a root exactly when it has no parent.
pub fn is_root_path(path: &String) -> (r: bool)
    ensures
        r == (spec_parent(path@) is None),
{
    let n = path.as_str().unicode_len();
    match last_index_of_char(path.as_str(), '/') {
        Option::None => true,
        Option::Some(j) => j == 0 && n == 1,
    }
}

/// `dir` and `name` joined with a separator; no separator is doubled when
/// `dir` already ends with one.
pub open spec fn spec_join(dir: Seq<char>, name: Seq<char>) -> Seq<char> {
    if dir.len() > 0 && dir[dir.len() - 1] == '/' {
        dir + name
    } else {
        dir + seq!['/'] + name
    }
}

/// Appends `name` to the directory `dir`, inserting a separator as needed.
pub fn join_path(dir: &str, name: &str) -> (r: String)
    ensures
        r@ == spec_join(dir@, name@),
{
    let n = dir.unicode_len();
    let needs_sep = n == 0 || dir.get_char(n - 1) != '/';
    let mut s = dir.to_owned();
    if needs_sep {
        s.append("/");
        proof {
            reveal_strlit("/");
            assert("/"@ =~= seq!['/']);
        }
    }
    s.append(name);
    proof {
        assert(s@ =~= spec_join(dir@, name@));
    }
    s
}

/// The extension of the final component: everything after its last dot,
/// unless the dot is absent or leads the name (a hidden-style name such as
/// `.profile` has no extension).
pub open spec fn spec_extension(p: Seq<char>) -> Option<Seq<char>> {
    match spec_file_name(p) {
        Option::Some(n) => {
            let d = last_index_of(n, '.');
            if d <= 0 {
                Option::None
            } else {
                Option::Some(n.subrange(d + 1, n.len() as int))
            }
        },
        Option::None => Option::None,
    }
}

/// The extension of the final component of `p`, if it has one.
pub fn extension_of(p: &str) -> (r: Option<String>)
    ensures
        match r {
            Option::Some(s) => spec_extension(p@) == Option::Some(s@),
            Option::None => spec_extension(p@) is None,
        },
{
    match file_name(p) {
        Option::None => Option::None,
        Option::Some(name) => {
            let m = name.as_str().unicode_len();
            proof {
                lemma_last_index_of(name@, '.');
            }
            match last_index_of_char(name.as_str(), '.') {
                Option::None => Option::None,
                Option::Some(d) => {
                    if d == 0 {
                        Option::None
                    } else {
                        Option::Some(name.as_str().substring_char(d + 1, m).to_owned())
                    }
                },
            }
        },
    }
}

/// An entry is hidden when its final component begins with a dot.
pub open spec fn spec_is_hidden(p: Seq<char>) -> bool {
    match spec_file_name(p) {
        Option::Some(n) => n.len() > 0 && n[0] == '.',
        Option::None => false,
    }
}

/// Whether the final component of `path` begins with the hidden-file marker.
pub fn is_hidden_file(path: &String) -> (r: bool)
    ensures
        r == spec_is_hidden(path@),
{
    match file_name(path.as_str()) {
        Option::None => false,
        Option::Some(n) => {
            let m = n.as_str().unicode_len();
            if m == 0 {
                false
            } else {
                n.as_str().get_char(0) == '.'
            }
        },
    }
}

/// Taking the parent strictly shortens a path, so repeated parent
/// navigation must reach a root.
pub proof fn lemma_parent_shorter(p: Seq<char>)
    requires
        spec_parent(p) is Some,
    ensures
        spec_parent(p).unwrap().len() < p.len(),
{
    lemma_last_index_of(p, '/');
}

} // verus!
