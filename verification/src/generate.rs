//! Fresh paste identifiers and device codes.

use crate::io::{known_owners, PasteStore};
use crate::model::owners;
use crate::params::{is_code_char, is_device_code, DEVICE_CODE_LENGTH};
use crate::random::{
    is_alphanumeric, is_word, new_generator, next_word, random_alphanumeric,
};
use crate::seq_lemmas::lemma_filter_take_step;
use crate::text::{bytes_as_text, contains_text};
use gpw::PasswordGenerator;
use vstd::prelude::*;

verus! {

/// How many characters an identifier has where no word could be had.
pub const FALLBACK_ID_LENGTH: usize = 6;

/// How many bytes are drawn at most for one device code.
pub const DRAWS_PER_CODE: usize = 256;

/// How many device codes are tried at most before giving up.
pub const CODE_ATTEMPTS: usize = 64;

/// An ASCII letter or digit.
pub open spec fn is_alphanumeric_char(c: char) -> bool {
    ||| '0' <= c <= '9'
    ||| 'A' <= c <= 'Z'
    ||| 'a' <= c <= 'z'
}

/// The identifier that stands in for a word: [`FALLBACK_ID_LENGTH`] ASCII
/// letters and digits.
pub open spec fn is_fallback_id(s: Seq<char>) -> bool {
    &&& s.len() == FALLBACK_ID_LENGTH
    &&& forall|i: int| 0 <= i < s.len() ==> is_alphanumeric_char(#[trigger] s[i])
}

/// What an identifier looks like: a word of the pronounceable generator or,
/// where it had none, a fallback identifier.
pub open spec fn is_id(s: Seq<char>) -> bool {
    is_word(s) || is_fallback_id(s)
}

/// A byte that may stand in a device code: `A` to `Z` or `0` to `9`.
pub open spec fn is_code_byte(b: u8) -> bool {
    ||| 0x41 <= b <= 0x5a
    ||| 0x30 <= b <= 0x39
}

/// The test that a byte may stand in a device code.
pub open spec fn code_bytes() -> spec_fn(u8) -> bool {
    |b: u8| is_code_byte(b)
}

/// Whether `b` may stand in a device code.
pub fn code_byte(b: u8) -> (ok: bool)
    ensures
        ok == is_code_byte(b),
{
    (0x41 <= b && b <= 0x5a) || (0x30 <= b && b <= 0x39)
}

/// The text that the bytes spell, each byte one character.
pub fn text_of(bytes: &Vec<u8>) -> (text: String)
    ensures
        text@ == bytes_as_text(bytes@),
{
    let mut text = String::new();
    let mut i: usize = 0;
    while i < bytes.len()
        invariant
            i <= bytes.len(),
            text@ == bytes_as_text(bytes@.take(i as int)),
        decreases bytes.len() - i,
    {
        text.push(bytes[i] as char);
        assert(bytes@.take(i + 1) =~= bytes@.take(i as int).push(bytes[i as int]));
        assert(bytes_as_text(bytes@.take(i + 1)) =~= bytes_as_text(bytes@.take(i as int)).push(
            bytes[i as int] as char,
        ));
        i += 1;
    }
    assert(bytes@.take(i as int) =~= bytes@);
    text
}

/// Six random ASCII letters and digits: the identifier for the case that no
/// word could be had.
pub fn fallback_id() -> (id: String)
    ensures
        is_fallback_id(id@),
{
    let mut bytes: Vec<u8> = Vec::new();
    while bytes.len() < FALLBACK_ID_LENGTH
        invariant
            bytes.len() <= FALLBACK_ID_LENGTH,
            forall|i: int| 0 <= i < bytes.len() ==> is_alphanumeric(#[trigger] bytes[i]),
        decreases FALLBACK_ID_LENGTH - bytes.len(),
    {
        let b = random_alphanumeric();
        bytes.push(b);
    }
    let id = text_of(&bytes);
    assert forall|i: int| 0 <= i < id@.len() implies is_alphanumeric_char(#[trigger] id@[i]) by {
        assert(id@[i] == bytes[i] as char);
    }
    id
}

/// The identifier that a draw from the generator of pronounceable words
/// leads to: the word itself where the generator had one, and what
/// [`fallback_id`] gives where it had none.
pub fn word_or_fallback(word: Option<String>) -> (id: String)
    ensures
        word matches Some(w) ==> id == w,
        word is None ==> is_fallback_id(id@),
{
    match word {
        Some(word) => word,
        None => fallback_id(),
    }
}

/// Generates a random identifier with the given generator of pronounceable
/// words: its next word or, where it has none, what [`fallback_id`] gives.
pub fn generate_id_with(generator: &mut PasswordGenerator) -> (id: String)
    ensures
        is_id(id@),
{
    word_or_fallback(next_word(generator))
}

/// Generates a 'pronounceable' random identifier, with a generator of its
/// own.
pub fn generate_id() -> (id: String)
    ensures
        is_id(id@),
{
    let mut generator = new_generator();
    generate_id_with(&mut generator)
}

/// The device code that a run of drawn bytes gives: its first
/// [`DEVICE_CODE_LENGTH`] bytes that may stand in a device code, as text.
/// Bytes that may not are passed over. There is no code where the run has
/// too few that may.
pub open spec fn code_of_draws(draws: Seq<u8>) -> Option<Seq<char>> {
    let usable = draws.filter(code_bytes());
    if usable.len() >= DEVICE_CODE_LENGTH {
        Some(bytes_as_text(usable.take(DEVICE_CODE_LENGTH as int)))
    } else {
        None
    }
}

/// The device code that the drawn bytes give, as [`code_of_draws`] says.
pub fn device_code_from_draws(draws: &Vec<u8>) -> (code: Option<String>)
    ensures
        code.deep_view() == code_of_draws(draws@),
        code matches Some(c) ==> is_device_code(c@),
{
    let mut usable: Vec<u8> = Vec::new();
    let mut i: usize = 0;
    assert(draws@.take(0).filter(code_bytes()) =~= Seq::<u8>::empty()) by {
        reveal(Seq::filter);
    }
    while i < draws.len() && usable.len() < DEVICE_CODE_LENGTH
        invariant
            i <= draws.len(),
            usable.len() <= DEVICE_CODE_LENGTH,
            usable@ == draws@.take(i as int).filter(code_bytes()),
        decreases draws.len() - i,
    {
        proof {
            lemma_filter_take_step(draws@, code_bytes(), i as int);
        }
        if code_byte(draws[i]) {
            usable.push(draws[i]);
        }
        i += 1;
    }
    let ghost all = draws@.filter(code_bytes());
    proof {
        let seen = draws@.take(i as int);
        let rest = draws@.skip(i as int);
        assert(draws@ =~= seen + rest);
        Seq::filter_distributes_over_add(seen, rest, code_bytes());
        if i == draws.len() {
            assert(seen =~= draws@);
        } else {
            assert(all.take(DEVICE_CODE_LENGTH as int) =~= usable@);
        }
    }
    if usable.len() == DEVICE_CODE_LENGTH {
        assert(all.take(DEVICE_CODE_LENGTH as int) =~= usable@);
        let code = text_of(&usable);
        assert forall|j: int| 0 <= j < code@.len() implies is_code_char(#[trigger] code@[j]) by {
            draws@.take(i as int).lemma_filter_pred(code_bytes(), j);
            assert(code@[j] == usable[j] as char);
        }
        Some(code)
    } else {
        None
    }
}

/// Draws random bytes until enough of them may stand in a device code, and
/// makes the code of them. At most [`DRAWS_PER_CODE`] bytes are drawn.
fn draw_device_code() -> (code: Option<String>)
    ensures
        code matches Some(c) ==> is_device_code(c@),
{
    let mut draws: Vec<u8> = Vec::new();
    let mut usable: usize = 0;
    while usable < DEVICE_CODE_LENGTH && draws.len() < DRAWS_PER_CODE
        invariant
            usable <= DEVICE_CODE_LENGTH,
            draws.len() <= DRAWS_PER_CODE,
        decreases DRAWS_PER_CODE - draws.len(),
    {
        let b = random_alphanumeric();
        if code_byte(b) {
            usable += 1;
        }
        draws.push(b);
    }
    device_code_from_draws(&draws)
}

/// The candidate, if there is one and it is none of the codes in use.
pub fn unused_code(candidate: Option<String>, in_use: &Vec<String>) -> (code: Option<String>)
    ensures
        code == if candidate is Some && !in_use.deep_view().contains(candidate->0@) {
            candidate
        } else {
            None
        },
{
    match candidate {
        Some(device_code) => {
            if contains_text(in_use, device_code.as_str()) {
                None
            } else {
                Some(device_code)
            }
        },
        None => None,
    }
}

/// Generates a device code that no stored paste is owned by: random codes
/// are tried until one is unused. Gives up, with `None`, after
/// [`CODE_ATTEMPTS`] tries; with the codes there are, that does not happen
/// in practice.
pub fn generate_unique_device_code(entries: &PasteStore) -> (code: Option<String>)
    ensures
        code matches Some(c) ==> is_device_code(c@) && !owners(entries@).contains(c@),
{
    let existing_devices = known_owners(entries);
    let mut attempt: usize = 0;
    while attempt < CODE_ATTEMPTS
        invariant
            forall|owner: Seq<char>|
                existing_devices.deep_view().contains(owner) <==> owners(entries@).contains(owner),
        decreases CODE_ATTEMPTS - attempt,
    {
        match unused_code(draw_device_code(), &existing_devices) {
            Some(device_code) => {
                return Some(device_code);
            },
            None => {},
        }
        attempt += 1;
    }
    None
}

} // verus!
