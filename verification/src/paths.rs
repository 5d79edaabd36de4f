//! The engine's path model: a path is a sequence of characters whose
//! components are separated by `'/'`. Replication flattens a source path to
//! its base name (the component after the last separator) and places it
//! directly in the target directory.

use vstd::prelude::*;
use vstd::string::StrSliceExecFns;
use vstd::string::StringExecFns;

verus! {

/// Whether `c` separates path components.
pub open spec fn is_separator(c: char) -> bool {
    c == '/'
}

/// The index just past the last separator of `p` (0 if `p` has none).
pub open spec fn after_last_separator(p: Seq<char>) -> int
    decreases p.len(),
{
    if p.len() == 0 {
        0
    } else if is_separator(p.last()) {
        p.len() as int
    } else {
        after_last_separator(p.drop_last())
    }
}

/// The base name of `p`: everything after the last separator. Empty when `p`
/// is empty or ends in a separator.
pub open spec fn base_name_spec(p: Seq<char>) -> Seq<char> {
    p.subrange(after_last_separator(p), p.len() as int)
}

pub proof fn lemma_after_last_separator(p: Seq<char>)
    ensures
        0 <= after_last_separator(p) <= p.len(),
        after_last_separator(p) > 0 ==> is_separator(p[after_last_separator(p) - 1]),
        forall|j: int| after_last_separator(p) <= j < p.len() ==> !is_separator(p[j]),
    decreases p.len(),
{
    if p.len() == 0 {
    } else if is_separator(p.last()) {
    } else {
        lemma_after_last_separator(p.drop_last());
        assert forall|j: int| after_last_separator(p) <= j < p.len() implies !is_separator(
            p[j],
        ) by {
            if j < p.len() - 1 {
                assert(p[j] == p.drop_last()[j]);
            } else {
                assert(p[j] == p.last());
            }
        }
        if after_last_separator(p) > 0 {
            assert(p[after_last_separator(p) - 1] == p.drop_last()[after_last_separator(p) - 1]);
        }
    }
}

/// A position that sits just past a separator (or at the start) with no
/// separator anywhere after it is exactly `after_last_separator`.
pub proof fn lemma_after_last_separator_unique(p: Seq<char>, k: int)
    requires
        0 <= k <= p.len(),
        k == 0 || is_separator(p[k - 1]),
        forall|j: int| k <= j < p.len() ==> !is_separator(p[j]),
    ensures
        after_last_separator(p) == k,
{
    lemma_after_last_separator(p);
    let a = after_last_separator(p);
    if a < k {
        assert(is_separator(p[k - 1]));
        assert(!is_separator(p[k - 1]));
    }
    if a > k {
        assert(is_separator(p[a - 1]));
        assert(!is_separator(p[a - 1]));
    }
}

/// The base name of `path`: the component after the last `'/'`. `None` when
/// that component is empty (an empty path, or one ending in a separator),
/// mirroring a path with no usable file name.
pub fn base_name(path: &str) -> (r: Option<String>)
    ensures
        match r {
            Some(name) => base_name_spec(path@).len() > 0 && name@ == base_name_spec(path@),
            None => base_name_spec(path@).len() == 0,
        },
{
    let len = path.unicode_len();
    let mut i = len;
    loop
        invariant
            0 <= i <= len,
            len == path@.len(),
            forall|j: int| i <= j < len ==> !is_separator(path@[j]),
        ensures
            0 <= i <= len,
            i == 0 || is_separator(path@[i - 1]),
            forall|j: int| i <= j < len ==> !is_separator(path@[j]),
        decreases i,
    {
        if i == 0 {
            break ;
        }
        let c = path.get_char(i - 1);
        if c == '/' {
            break ;
        }
        i = i - 1;
    }
    proof {
        lemma_after_last_separator_unique(path@, i as int);
    }
    if i == len {
        None
    } else {
        let name = path.substring_char(i, len);
        Some(name.to_owned())
    }
}

/// `dir` and `name` joined with a single separator: `name` alone when `dir`
/// is empty, and no separator doubled when `dir` already ends in one.
pub open spec fn joined(dir: Seq<char>, name: Seq<char>) -> Seq<char> {
    if dir.len() == 0 {
        name
    } else if is_separator(dir.last()) {
        dir + name
    } else {
        dir + seq!['/'] + name
    }
}

/// Joins a directory path and a file name.
pub fn join_path(dir: &str, name: &str) -> (r: String)
    ensures
        r@ == joined(dir@, name@),
{
    let len = dir.unicode_len();
    if len == 0 {
        return name.to_owned();
    }
    let mut r = dir.to_owned();
    let last = dir.get_char(len - 1);
    if last != '/' {
        r.append("/");
        proof {
            reveal_strlit("/");
            assert(r@ =~= dir@ + seq!['/']);
        }
    }
    r.append(name);
    proof {
        if last == '/' {
            assert(r@ =~= dir@ + name@);
        } else {
            assert(r@ =~= dir@ + seq!['/'] + name@);
        }
    }
    r
}

/// The flattened destination of one replicated source file: the source's
/// base name placed directly in the target directory. `None` when the source
/// path has no usable base name, in which case the file is skipped.
pub fn replication_target(source: &str, target_dir: &str) -> (r: Option<String>)
    ensures
        match r {
            Some(dest) => base_name_spec(source@).len() > 0 && dest@ == joined(
                target_dir@,
                base_name_spec(source@),
            ),
            None => base_name_spec(source@).len() == 0,
        },
{
    match base_name(source) {
        Some(name) => Some(join_path(target_dir, name.as_str())),
        None => None,
    }
}

/// Flattening: a replicated file's base name carries no separator, and its
/// destination path puts exactly that name directly inside the target
/// directory — subdirectories of the watched tree leave no trace in the
/// destination.
pub proof fn lemma_flattening(source: Seq<char>, target_dir: Seq<char>)
    requires
        base_name_spec(source).len() > 0,
    ensures
        forall|j: int|
            0 <= j < base_name_spec(source).len() ==> !is_separator(base_name_spec(source)[j]),
        base_name_spec(joined(target_dir, base_name_spec(source))) == base_name_spec(source),
{
    let name = base_name_spec(source);
    let dest = joined(target_dir, name);
    lemma_after_last_separator(source);
    assert forall|j: int| 0 <= j < name.len() implies !is_separator(name[j]) by {
        assert(name[j] == source[after_last_separator(source) + j]);
    }
    if target_dir.len() == 0 {
        lemma_after_last_separator_unique(dest, 0);
        assert(base_name_spec(dest) =~= name);
    } else if is_separator(target_dir.last()) {
        let k = target_dir.len() as int;
        assert(is_separator(dest[k - 1]));
        lemma_after_last_separator_unique(dest, k);
        assert(base_name_spec(dest) =~= name);
    } else {
        let k = target_dir.len() + 1;
        assert(is_separator(dest[k - 1]));
        lemma_after_last_separator_unique(dest, k as int);
        assert(base_name_spec(dest) =~= name);
    }
}

} // verus!
