//! Metadata of stored media files: the record the host keeps for each saved
//! file, and the pure rules it is built by — the extension of a file name and
//! the media type guessed from it. Reading and writing the files themselves
//! is the host's work.

use vstd::prelude::*;
use vstd::string::StrSliceExecFns;
use vstd::string::StringExecFns;

verus! {

/// Metadata about one saved media file.
#[derive(Debug, Clone)]
pub struct MediaFile {
    pub filename: String,
    pub filepath: String,
    pub filesize: u64,
    pub media_type: String,
}

/// Whether two strings hold the same characters.
pub fn str_eq(a: &str, b: &str) -> (r: bool)
    ensures
        r == (a@ == b@),
{
    let la = a.unicode_len();
    let lb = b.unicode_len();
    if la != lb {
        proof {
            if a@ == b@ {
                assert(a@.len() == b@.len());
            }
        }
        return false;
    }
    let mut i: usize = 0;
    while i < la
        invariant
            0 <= i <= la,
            la == a@.len(),
            lb == b@.len(),
            la == lb,
            forall|j: int| 0 <= j < i ==> a@[j] == b@[j],
        decreases la - i,
    {
        if a.get_char(i) != b.get_char(i) {
            proof {
                if a@ == b@ {
                    assert(a@[i as int] == b@[i as int]);
                }
            }
            return false;
        }
        i = i + 1;
    }
    proof {
        assert(a@ =~= b@);
    }
    true
}

/// The index just past the last `'.'` of `name` (0 if it has none).
pub open spec fn after_last_dot(name: Seq<char>) -> int
    decreases name.len(),
{
    if name.len() == 0 {
        0
    } else if name.last() == '.' {
        name.len() as int
    } else {
        after_last_dot(name.drop_last())
    }
}

/// The extension of a file name: what follows its last `'.'`. A name without
/// a dot, or whose only dot leads it (a bare hidden file), has none.
pub open spec fn extension_spec(name: Seq<char>) -> Option<Seq<char>> {
    if after_last_dot(name) <= 1 {
        None
    } else {
        Some(name.subrange(after_last_dot(name), name.len() as int))
    }
}

proof fn lemma_after_last_dot(name: Seq<char>)
    ensures
        0 <= after_last_dot(name) <= name.len(),
        after_last_dot(name) > 0 ==> name[after_last_dot(name) - 1] == '.',
        forall|j: int| after_last_dot(name) <= j < name.len() ==> name[j] != '.',
    decreases name.len(),
{
    if name.len() == 0 {
    } else if name.last() == '.' {
    } else {
        lemma_after_last_dot(name.drop_last());
        assert forall|j: int| after_last_dot(name) <= j < name.len() implies name[j] != '.' by {
            if j < name.len() - 1 {
                assert(name[j] == name.drop_last()[j]);
            } else {
                assert(name[j] == name.last());
            }
        }
        if after_last_dot(name) > 0 {
            assert(name[after_last_dot(name) - 1] == name.drop_last()[after_last_dot(name) - 1]);
        }
    }
}

proof fn lemma_after_last_dot_unique(name: Seq<char>, k: int)
    requires
        0 <= k <= name.len(),
        k == 0 || name[k - 1] == '.',
        forall|j: int| k <= j < name.len() ==> name[j] != '.',
    ensures
        after_last_dot(name) == k,
{
    lemma_after_last_dot(name);
    let a = after_last_dot(name);
    if a < k {
        assert(name[k - 1] == '.');
        assert(name[k - 1] != '.');
    }
    if a > k {
        assert(name[a - 1] == '.');
        assert(name[a - 1] != '.');
    }
}

/// The extension of the file name `name`, as [`extension_spec`] defines it.
pub fn extension_of(name: &str) -> (r: Option<String>)
    ensures
        match r {
            Some(ext) => extension_spec(name@) matches Some(e) && ext@ == e,
            None => extension_spec(name@) is None,
        },
{
    let len = name.unicode_len();
    let mut i = len;
    loop
        invariant
            0 <= i <= len,
            len == name@.len(),
            forall|j: int| i <= j < len ==> name@[j] != '.',
        ensures
            0 <= i <= len,
            i == 0 || name@[i - 1] == '.',
            forall|j: int| i <= j < len ==> name@[j] != '.',
        decreases i,
    {
        if i == 0 {
            break ;
        }
        let c = name.get_char(i - 1);
        if c == '.' {
            break ;
        }
        i = i - 1;
    }
    proof {
        lemma_after_last_dot_unique(name@, i as int);
    }
    if i <= 1 {
        None
    } else {
        let ext = name.substring_char(i, len);
        Some(ext.to_owned())
    }
}

/// The media type the catalog records for a file with extension `ext`: a
/// known image, video or audio type, and a generic byte-stream type for
/// everything else (including a file with no extension).
pub open spec fn media_type_spec(ext: Option<Seq<char>>) -> Seq<char> {
    match ext {
        Some(e) => if e == "png"@ {
            "image/png"@
        } else if e == "jpg"@ || e == "jpeg"@ {
            "image/jpeg"@
        } else if e == "gif"@ {
            "image/gif"@
        } else if e == "mp4"@ {
            "video/mp4"@
        } else if e == "mp3"@ {
            "audio/mpeg"@
        } else if e == "wav"@ {
            "audio/wav"@
        } else {
            "application/octet-stream"@
        },
        None => "application/octet-stream"@,
    }
}

/// Guesses the media type for a file name's extension.
pub fn media_type_for_extension(ext: Option<&str>) -> (r: String)
    ensures
        match ext {
            Some(e) => r@ == media_type_spec(Some(e@)),
            None => r@ == media_type_spec(None),
        },
{
    match ext {
        Some(e) => {
            if str_eq(e, "png") {
                String::from_str("image/png")
            } else if str_eq(e, "jpg") {
                String::from_str("image/jpeg")
            } else if str_eq(e, "jpeg") {
                String::from_str("image/jpeg")
            } else if str_eq(e, "gif") {
                String::from_str("image/gif")
            } else if str_eq(e, "mp4") {
                String::from_str("video/mp4")
            } else if str_eq(e, "mp3") {
                String::from_str("audio/mpeg")
            } else if str_eq(e, "wav") {
                String::from_str("audio/wav")
            } else {
                String::from_str("application/octet-stream")
            }
        },
        None => String::from_str("application/octet-stream"),
    }
}

} // verus!
