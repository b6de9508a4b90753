use vstd::prelude::*;
use vstd::utf8::encode_utf8;

verus! {

/// `n` marks the end of the first word of `s`: no space stands before it,
/// and a space stands at it unless the whole string is one word.
pub open spec fn is_first_word_end(s: Seq<char>, n: int) -> bool {
    &&& 0 <= n <= s.len()
    &&& forall|i: int| 0 <= i < n ==> s[i] != ' '
    &&& n < s.len() ==> s[n] == ' '
}

fn first_space_index(s: &str) -> (r: usize)
    ensures
        is_first_word_end(s@, r as int),
{
    let n = s.unicode_len();
    let mut i: usize = 0;
    while i < n
        invariant
            0 <= i <= n,
            n == s@.len(),
            forall|j: int| 0 <= j < i ==> s@[j] != ' ',
        decreases n - i,
    {
        if s.get_char(i) == ' ' {
            return i;
        }
        i = i + 1;
    }
    i
}

/// `n` marks the end of the first word in a UTF-8 byte string: no space
/// byte stands before it, and a space byte stands at it unless the whole
/// string is one word.
pub open spec fn is_first_word_end_bytes(bytes: Seq<u8>, n: int) -> bool {
    &&& 0 <= n <= bytes.len()
    &&& forall|i: int| 0 <= i < n ==> bytes[i] != 32
    &&& n < bytes.len() ==> bytes[n] == 32
}

/// The byte index of the first space of `s`, or its length in bytes when
/// it holds none.
pub fn find_first_word(s: &String) -> (r: usize)
    ensures
        is_first_word_end_bytes(encode_utf8(s@), r as int),
{
    let bytes = s.as_str().as_bytes();
    let n = bytes.len();
    let mut i: usize = 0;
    while i < n
        invariant
            0 <= i <= n,
            n == bytes@.len(),
            bytes@ == encode_utf8(s@),
            forall|j: int| 0 <= j < i ==> bytes@[j] != 32,
        decreases n - i,
    {
        if bytes[i] == 32u8 {
            return i;
        }
        i = i + 1;
    }
    i
}

/// The first word of `s` as a slice: everything up to the first space, or
/// the whole string when it holds none.
pub fn find_first_word_slice(s: &String) -> (r: &str)
    ensures
        is_first_word_end(s@, r@.len() as int),
        r@ == s@.subrange(0, r@.len() as int),
{
    let i = first_space_index(s.as_str());
    s.as_str().substring_char(0, i)
}

/// The first word of a string slice: everything up to the first space, or
/// the whole slice when it holds none.
pub fn find_first_word_slice_params(s: &str) -> (r: &str)
    ensures
        is_first_word_end(s@, r@.len() as int),
        r@ == s@.subrange(0, r@.len() as int),
{
    let i = first_space_index(s);
    s.substring_char(0, i)
}

} // verus!
