//! Framing rules of the encryption helpers: an encrypted file carries a
//! fixed-size nonce prefix before the ciphertext, an AES-CBC message carries
//! its IV the same way, and the encrypted and decrypted files' names derive
//! from the source's. The ciphers themselves are outside crates the host
//! calls; the byte and name framing around them is the library's rule.

use vstd::prelude::*;
use vstd::string::StrSliceExecFns;
use vstd::string::StringExecFns;

verus! {

/// How many bytes of nonce prefix an encrypted file carries.
pub const NONCE_SIZE: usize = 12;

/// Splits `data` after its first `n` bytes: the prefix and the rest, or
/// `None` when `data` is too short to carry the prefix at all.
pub fn split_prefix(data: &Vec<u8>, n: usize) -> (r: Option<(Vec<u8>, Vec<u8>)>)
    ensures
        match r {
            Some(parts) => data@.len() >= n && parts.0@ == data@.subrange(0, n as int)
                && parts.1@ == data@.subrange(n as int, data@.len() as int),
            None => data@.len() < n,
        },
{
    if data.len() < n {
        return None;
    }
    let mut prefix: Vec<u8> = Vec::new();
    let mut i: usize = 0;
    while i < n
        invariant
            0 <= i <= n <= data@.len(),
            prefix@ == data@.subrange(0, i as int),
        decreases n - i,
    {
        prefix.push(data[i]);
        proof {
            assert(prefix@ =~= data@.subrange(0, i + 1));
        }
        i = i + 1;
    }
    let mut rest: Vec<u8> = Vec::new();
    let mut j: usize = n;
    while j < data.len()
        invariant
            n <= j <= data@.len(),
            rest@ == data@.subrange(n as int, j as int),
        decreases data@.len() - j,
    {
        rest.push(data[j]);
        proof {
            assert(rest@ =~= data@.subrange(n as int, j + 1));
        }
        j = j + 1;
    }
    Some((prefix, rest))
}

/// `a` followed by `b`, as an encrypted file is its nonce followed by the
/// ciphertext.
pub fn join_bytes(a: &Vec<u8>, b: &Vec<u8>) -> (r: Vec<u8>)
    ensures
        r@ == a@ + b@,
{
    let mut r: Vec<u8> = Vec::new();
    let mut i: usize = 0;
    while i < a.len()
        invariant
            0 <= i <= a@.len(),
            r@ == a@.subrange(0, i as int),
        decreases a@.len() - i,
    {
        r.push(a[i]);
        proof {
            assert(r@ =~= a@.subrange(0, i + 1));
        }
        i = i + 1;
    }
    let mut j: usize = 0;
    while j < b.len()
        invariant
            0 <= j <= b@.len(),
            r@ == a@.subrange(0, a@.len() as int) + b@.subrange(0, j as int),
        decreases b@.len() - j,
    {
        r.push(b[j]);
        proof {
            assert(r@ =~= a@.subrange(0, a@.len() as int) + b@.subrange(0, j + 1));
        }
        j = j + 1;
    }
    proof {
        assert(a@.subrange(0, a@.len() as int) =~= a@);
        assert(b@.subrange(0, b@.len() as int) =~= b@);
        assert(r@ =~= a@ + b@);
    }
    r
}

/// The name an encrypted file is written under: the source's with `.enc`
/// appended.
pub fn encrypted_path_for(path: &str) -> (r: String)
    ensures
        r@ == path@ + ".enc"@,
{
    path.to_owned().concat(".enc")
}

/// Whether `p` ends in the encrypted-file suffix.
pub open spec fn ends_enc(p: Seq<char>) -> bool {
    p.len() >= 4 && p.subrange(p.len() - 4, p.len() as int) == ".enc"@
}

/// `p` with every trailing encrypted-file suffix removed.
pub open spec fn strip_enc(p: Seq<char>) -> Seq<char>
    decreases p.len(),
{
    if ends_enc(p) {
        strip_enc(p.subrange(0, p.len() - 4))
    } else {
        p
    }
}

fn ends_with_enc(s: &str) -> (r: bool)
    ensures
        r == ends_enc(s@),
{
    let len = s.unicode_len();
    proof {
        reveal_strlit(".enc");
    }
    if len < 4 {
        return false;
    }
    let r = s.get_char(len - 4) == '.' && s.get_char(len - 3) == 'e' && s.get_char(len - 2) == 'n'
        && s.get_char(len - 1) == 'c';
    proof {
        if r {
            assert(s@.subrange(len - 4, len as int) =~= ".enc"@);
        } else {
            if s@.subrange(len - 4, len as int) == ".enc"@ {
                assert(s@[len - 4] == ".enc"@[0]);
                assert(s@[len - 3] == ".enc"@[1]);
                assert(s@[len - 2] == ".enc"@[2]);
                assert(s@[len - 1] == ".enc"@[3]);
            }
        }
    }
    r
}

/// The name a decrypted file is written under: the encrypted file's with its
/// trailing `.enc` suffixes removed and `.dec` appended.
pub fn decrypted_path_for(encrypted_path: &str) -> (r: String)
    ensures
        r@ == strip_enc(encrypted_path@) + ".dec"@,
{
    let mut stem = encrypted_path.to_owned();
    loop
        invariant
            strip_enc(stem@) == strip_enc(encrypted_path@),
        ensures
            stem@ == strip_enc(encrypted_path@),
        decreases stem@.len(),
    {
        if !ends_with_enc(stem.as_str()) {
            break ;
        }
        let len = stem.as_str().unicode_len();
        stem = stem.as_str().substring_char(0, len - 4).to_owned();
    }
    stem.concat(".dec")
}

} // verus!
