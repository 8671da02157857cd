use vstd::prelude::*;

verus! {

/// The UTF-8 bytes of the lower-cased form of a piece of text.
///
/// Stands for what `str::to_lowercase` returns: a value that depends on the
/// characters of the input alone.
pub uninterp spec fn lower_of(s: Seq<char>) -> Seq<u8>;

/// `needle` occurs contiguously inside `hay`.
pub open spec fn has_substr(hay: Seq<u8>, needle: Seq<u8>) -> bool {
    exists|i: int|
        0 <= i && i + needle.len() <= hay.len() && #[trigger] hay.subrange(i, i + needle.len())
            == needle
}

/// Relies on `str::to_lowercase` (with `String::into_bytes`, which hands back
/// the UTF-8 bytes of the result): the lower-cased form of the text. It is
/// empty exactly when the input is empty, since each input character maps to
/// one or more output characters.
#[verifier::external_body]
pub fn lower_bytes(s: &str) -> (r: Vec<u8>)
    ensures
        r@ == lower_of(s@),
        (r@.len() == 0) <==> (s@.len() == 0),
{
    s.to_lowercase().into_bytes()
}

/// `needle` matches `hay` byte for byte at position `at`.
fn match_at(hay: &Vec<u8>, needle: &Vec<u8>, at: usize) -> (r: bool)
    requires
        at + needle@.len() <= hay@.len(),
    ensures
        r == (hay@.subrange(at as int, at + needle@.len()) == needle@),
{
    let hay_len: usize = hay.len();
    let needle_len: usize = needle.len();
    let mut j: usize = 0;
    while j < needle_len
        invariant
            hay_len == hay@.len(),
            needle_len == needle@.len(),
            at + needle@.len() <= hay@.len(),
            j <= needle@.len(),
            forall|k: int| 0 <= k < j ==> hay@[at + k] == needle@[k],
        decreases needle@.len() - j,
    {
        if hay[at + j] != needle[j] {
            proof {
                assert(hay@.subrange(at as int, at + needle@.len())[j as int] == hay@[at + j]);
            }
            return false;
        }
        j += 1;
    }
    proof {
        assert(hay@.subrange(at as int, at + needle@.len()) =~= needle@);
    }
    true
}

/// Substring containment over bytes, by a straightforward scan.
pub fn contains_bytes(hay: &Vec<u8>, needle: &Vec<u8>) -> (r: bool)
    ensures
        r == has_substr(hay@, needle@),
{
    if needle.len() > hay.len() {
        return false;
    }
    if needle.len() == 0 {
        proof {
            assert(hay@.subrange(0, 0 + needle@.len() as int) =~= needle@);
        }
        return true;
    }
    let hay_len: usize = hay.len();
    let last_start: usize = hay_len - needle.len();
    let mut i: usize = 0;
    while i <= last_start
        invariant
            hay_len == hay@.len(),
            0 < needle@.len() <= hay@.len(),
            last_start == hay@.len() - needle@.len(),
            i <= last_start + 1,
            forall|s: int|
                0 <= s < i ==> #[trigger] hay@.subrange(s, s + needle@.len()) != needle@,
        decreases last_start + 1 - i,
    {
        if match_at(hay, needle, i) {
            proof {
                assert(hay@.subrange(i as int, i + needle@.len()) == needle@);
            }
            return true;
        }
        i += 1;
    }
    false
}

} // verus!
