//! Text and paths: comparing, cutting, joining and decoding.

use vstd::prelude::*;
use vstd::string::*;
use vstd::utf8::*;

verus! {

/// Two texts with the same UTF-8 bytes are the same text.
pub proof fn lemma_same_bytes_same_text(a: Seq<char>, b: Seq<char>)
    requires
        encode_utf8(a) == encode_utf8(b),
    ensures
        a == b,
{
    encode_utf8_decode_utf8(a);
    encode_utf8_decode_utf8(b);
}

/// Whether `a` and `b` are the same text.
pub fn same_text(a: &str, b: &str) -> (same: bool)
    ensures
        same == (a@ == b@),
{
    let x = a.as_bytes();
    let y = b.as_bytes();
    if x.len() != y.len() {
        return false;
    }
    let mut i: usize = 0;
    while i < x.len()
        invariant
            x@ == encode_utf8(a@),
            y@ == encode_utf8(b@),
            x.len() == y.len(),
            i <= x.len(),
            forall|j: int| 0 <= j < i ==> x@[j] == y@[j],
        decreases x.len() - i,
    {
        if x[i] != y[i] {
            return false;
        }
        i += 1;
    }
    proof {
        assert(x@ =~= y@);
        lemma_same_bytes_same_text(a@, b@);
    }
    true
}

/// `String::from_utf8`: the text that the bytes encode when they are valid
/// UTF-8, and the bytes handed back when they are not.
#[verifier::external_body]
pub(crate) fn text_from_utf8(bytes: Vec<u8>) -> (outcome: Result<String, Vec<u8>>)
    ensures
        match outcome {
            Ok(text) => valid_utf8(bytes@) && text@ == decode_utf8(bytes@),
            Err(raw) => !valid_utf8(bytes@) && raw@ == bytes@,
        },
{
    match String::from_utf8(bytes) {
        Ok(text) => Ok(text),
        Err(error) => Err(error.into_bytes()),
    }
}

/// A copy of `bytes`.
pub fn copy_bytes(bytes: &Vec<u8>) -> (copy: Vec<u8>)
    ensures
        copy@ == bytes@,
{
    let mut copy: Vec<u8> = Vec::new();
    let mut i: usize = 0;
    while i < bytes.len()
        invariant
            i <= bytes@.len(),
            copy@ == bytes@.take(i as int),
        decreases bytes@.len() - i,
    {
        copy.push(bytes[i]);
        proof {
            assert(copy@ =~= bytes@.take(i + 1));
        }
        i += 1;
    }
    proof {
        assert(bytes@.take(bytes@.len() as int) =~= bytes@);
    }
    copy
}

/// Whether `text` ends with `suffix`.
pub open spec fn ends_with(text: Seq<char>, suffix: Seq<char>) -> bool {
    text.len() >= suffix.len() && text.subrange(text.len() - suffix.len(), text.len() as int)
        == suffix
}

/// `text` without its last `n` characters.
pub open spec fn without_last(text: Seq<char>, n: nat) -> Seq<char> {
    text.take(text.len() - n)
}

/// `text` without `suffix` at its end, where it ends with it.
pub fn strip_suffix<'a>(text: &'a str, suffix: &str) -> (rest: Option<&'a str>)
    ensures
        match rest {
            Some(head) => ends_with(text@, suffix@) && head@ == without_last(text@, suffix@.len()),
            None => !ends_with(text@, suffix@),
        },
{
    let n = text.unicode_len();
    let m = suffix.unicode_len();
    if n < m {
        return None;
    }
    if same_text(text.substring_char(n - m, n), suffix) {
        Some(text.substring_char(0, n - m))
    } else {
        None
    }
}

/// Whether `path` starts at the root of the file system.
pub open spec fn absolute(path: Seq<char>) -> bool {
    path.len() > 0 && path[0] == '/'
}

/// The path of `part` seen from the directory `base`: `part` itself where
/// it is absolute or `base` is empty, and else `base`, a separator unless
/// `base` ends in one, and `part`.
pub open spec fn join(base: Seq<char>, part: Seq<char>) -> Seq<char> {
    if base.len() == 0 || absolute(part) {
        part
    } else if base.last() == '/' {
        base + part
    } else {
        base + "/"@ + part
    }
}

/// The path of `part` seen from the directory `base`.
pub fn join_path(base: &str, part: &str) -> (path: String)
    ensures
        path@ == join(base@, part@),
{
    let n = base.unicode_len();
    if n == 0 || (part.unicode_len() > 0 && part.get_char(0) == '/') {
        part.to_owned()
    } else if base.get_char(n - 1) == '/' {
        base.to_owned().concat(part)
    } else {
        base.to_owned().concat("/").concat(part)
    }
}

/// What `std::path::PathBuf::pop` leaves of a path: the path without its
/// last component, or the path itself where it has no parent.
pub uninterp spec fn parent_of(path: Seq<char>) -> Seq<char>;

/// `std::path::PathBuf::pop`, on a path given as text: the text of what is
/// left of the path.
#[verifier::external_body]
pub(crate) fn pop_path(path: &str) -> (shorter: String)
    ensures
        shorter@ == parent_of(path@),
{
    let mut buf = std::path::PathBuf::from(path);
    buf.pop();
    buf.to_string_lossy().into_owned()
}

} // verus!
