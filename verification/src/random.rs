//! The sources of randomness, and what is taken on trust about them.

use gpw::PasswordGenerator;
use rand::distr::Alphanumeric;
use rand::Rng;
use vstd::prelude::*;

verus! {

/// `gpw::PasswordGenerator`: a generator of pronounceable words. Nothing
/// inside it is seen here.
#[verifier::external_type_specification]
#[verifier::external_body]
pub struct ExPasswordGenerator(PasswordGenerator);

/// How long a word of the pronounceable generator can get.
pub const WORD_LENGTH: usize = 10;

/// An ASCII letter or digit.
pub open spec fn is_alphanumeric(b: u8) -> bool {
    ||| 0x30 <= b <= 0x39
    ||| 0x41 <= b <= 0x5a
    ||| 0x61 <= b <= 0x7a
}

/// What the pronounceable generator can hand out: lower-case letters, at
/// most [`WORD_LENGTH`] of them.
pub open spec fn is_word(s: Seq<char>) -> bool {
    &&& s.len() <= WORD_LENGTH
    &&& forall|i: int| 0 <= i < s.len() ==> 'a' <= #[trigger] s[i] <= 'z'
}

/// `Rng::sample` with `rand::distr::Alphanumeric` on the thread's generator
/// `rand::rng()`: one byte, which is an ASCII letter or digit. Which one is
/// up to chance.
#[verifier::external_body]
pub(crate) fn random_alphanumeric() -> (b: u8)
    ensures
        is_alphanumeric(b),
{
    rand::rng().sample(Alphanumeric)
}

/// `PasswordGenerator::default`: a generator of pronounceable words.
#[verifier::external_body]
pub(crate) fn new_generator() -> PasswordGenerator {
    PasswordGenerator::default()
}

/// `PasswordGenerator::next`: the generator's next word, if it has one. The
/// word is built from the letters `a` to `z` only, starts out empty and
/// grows to [`WORD_LENGTH`] letters at most; the generator may also give it
/// up and hand out the empty word. Which word comes is up to chance.
#[verifier::external_body]
pub(crate) fn next_word(generator: &mut PasswordGenerator) -> (word: Option<String>)
    ensures
        word matches Some(w) ==> is_word(w@),
{
    generator.next()
}

} // verus!
