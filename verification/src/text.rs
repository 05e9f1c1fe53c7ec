//! Helpers on text, and what is taken on trust about `str` and `String`.

use vstd::prelude::*;
use vstd::string::StrSliceExecFns;

verus! {

/// `str`'s `==`: two string slices are equal when they hold the same
/// characters.
pub assume_specification[ <str as PartialEq>::eq ](a: &str, b: &str) -> (same: bool)
    ensures
        same == (a@ == b@),
;

/// `String::push`: the character is appended.
pub assume_specification[ String::push ](s: &mut String, c: char)
    ensures
        final(s)@ == old(s)@.push(c),
;

/// The text that bytes spell when each byte stands for the character with
/// its number: an ASCII byte for its ASCII character.
pub open spec fn bytes_as_text(bytes: Seq<u8>) -> Seq<char> {
    bytes.map_values(|b: u8| b as char)
}

/// Whether `text` is one of `list`.
pub fn contains_text(list: &Vec<String>, text: &str) -> (found: bool)
    ensures
        found == list.deep_view().contains(text@),
{
    let mut i: usize = 0;
    while i < list.len()
        invariant
            i <= list.len(),
            forall|j: int| 0 <= j < i ==> list.deep_view()[j] != text@,
        decreases list.len() - i,
    {
        if *list[i].as_str() == *text {
            assert(list.deep_view()[i as int] == text@);
            return true;
        }
        i += 1;
    }
    false
}

/// `head` is what stands in `s` before the first `sep`: all of `s` where
/// `sep` does not occur.
pub open spec fn is_head_before(head: Seq<char>, s: Seq<char>, sep: char) -> bool {
    &&& head.len() <= s.len()
    &&& head == s.take(head.len() as int)
    &&& !head.contains(sep)
    &&& head.len() < s.len() ==> s[head.len() as int] == sep
}

/// What stands in `s` before the first `sep`.
pub open spec fn head_of(s: Seq<char>, sep: char) -> Seq<char> {
    choose|head: Seq<char>| is_head_before(head, s, sep)
}

/// Only one text stands before the first `sep`.
pub proof fn lemma_head_before_unique(a: Seq<char>, b: Seq<char>, s: Seq<char>, sep: char)
    requires
        is_head_before(a, s, sep),
        is_head_before(b, s, sep),
    ensures
        a == b,
{
    if a.len() < b.len() {
        assert(b[a.len() as int] == sep);
    } else if b.len() < a.len() {
        assert(a[b.len() as int] == sep);
    }
}

/// What stands in `s` before the first `sep`.
pub fn head_before(s: &str, sep: char) -> (head: &str)
    ensures
        is_head_before(head@, s@, sep),
        head@ == head_of(s@, sep),
{
    let total = s.unicode_len();
    let mut n: usize = 0;
    let mut found = false;
    for c in it: s.chars()
        invariant
            it.seq() == s@,
            total == s@.len(),
            n <= it.index(),
            !found ==> n == it.index(),
            found ==> n < s@.len() && s@[n as int] == sep,
            forall|j: int| 0 <= j < n ==> s@[j] != sep,
    {
        if !found {
            if c == sep {
                found = true;
            } else {
                n += 1;
            }
        }
    }
    let head = s.substring_char(0, n);
    proof {
        assert(is_head_before(head@, s@, sep));
        lemma_head_before_unique(head@, head_of(s@, sep), s@, sep);
    }
    head
}

} // verus!
