//! What a request says about its sender, read from its headers.

use crate::text::{head_before, head_of};
use std::ops::Deref;
use vstd::prelude::*;
use vstd::string::StrSliceExecFns;

verus! {

/// How many characters a device code has.
pub const DEVICE_CODE_LENGTH: usize = 8;

/// A character that may stand in a device code: `A` to `Z` or `0` to `9`.
pub open spec fn is_code_char(c: char) -> bool {
    ('A' <= c && c <= 'Z') || ('0' <= c && c <= '9')
}

/// A well-formed device code: [`DEVICE_CODE_LENGTH`] characters, each an
/// upper-case letter or a digit.
pub open spec fn is_device_code(s: Seq<char>) -> bool {
    &&& s.len() == DEVICE_CODE_LENGTH
    &&& forall|i: int| 0 <= i < s.len() ==> is_code_char(#[trigger] s[i])
}

/// Whether `c` may stand in a device code.
pub fn code_char(c: char) -> (ok: bool)
    ensures
        ok == is_code_char(c),
{
    ('A' <= c && c <= 'Z') || ('0' <= c && c <= '9')
}

/// Whether `code` is a well-formed device code.
pub fn valid_device_code(code: &str) -> (valid: bool)
    ensures
        valid == is_device_code(code@),
{
    if code.unicode_len() != DEVICE_CODE_LENGTH {
        return false;
    }
    let mut valid = true;
    for c in it: code.chars()
        invariant
            it.seq() == code@,
            valid == forall|j: int| 0 <= j < it.index() ==> is_code_char(#[trigger] code@[j]),
    {
        if !code_char(c) {
            valid = false;
        }
    }
    valid
}

/// Holds a value that determines whether or not a request wanted a plaintext
/// response.
pub struct IsPlaintextRequest(pub bool);

impl Deref for IsPlaintextRequest {
    type Target = bool;

    fn deref(&self) -> (wanted: &bool)
        ensures
            *wanted == self.0,
    {
        &self.0
    }
}

/// Whether a request with this content type and this `User-Agent` header
/// wants plain text: one that says so in its content type, one that names no
/// agent, and one that comes from a console client, whose agent names
/// `Wget`, `curl` or `HTTPie` before the first `/`.
pub open spec fn wants_plaintext(content_type: Seq<char>, user_agent: Option<Seq<char>>) -> bool {
    ||| content_type == "text/plain"@
    ||| user_agent is None
    ||| head_of(user_agent->0, '/') == "Wget"@
    ||| head_of(user_agent->0, '/') == "curl"@
    ||| head_of(user_agent->0, '/') == "HTTPie"@
}

impl IsPlaintextRequest {
    /// Decides from the content type and the `User-Agent` header, if there is
    /// one, whether the sender wants plain text.
    pub fn from_headers(content_type: &str, user_agent: Option<&str>) -> (wanted:
        IsPlaintextRequest)
        ensures
            wanted.0 == wants_plaintext(content_type@, user_agent.deep_view()),
    {
        if *content_type == *"text/plain" {
            return IsPlaintextRequest(true);
        }
        match user_agent {
            None => IsPlaintextRequest(true),
            Some(agent) => {
                let product = head_before(agent, '/');
                IsPlaintextRequest(
                    *product == *"Wget" || *product == *"curl" || *product == *"HTTPie",
                )
            },
        }
    }
}

/// The `Host` header of a request, where it had one that is text.
pub struct HostHeader(pub Option<String>);

/// The device code that a request carries. The inner value is `None` where
/// the request had no `Device-Code` header or an ill-formed one.
pub struct DeviceCode(pub Option<String>);

impl DeviceCode {
    /// Reads the device code from the text of the `Device-Code` header, if
    /// the request had one.
    pub fn from_header(value: Option<&str>) -> (code: DeviceCode)
        ensures
            code.0.deep_view() == if value matches Some(text) && is_device_code(text@) {
                value.deep_view()
            } else {
                None
            },
    {
        match value {
            Some(text) => {
                if valid_device_code(text) {
                    DeviceCode(Some(text.to_owned()))
                } else {
                    DeviceCode(None)
                }
            },
            None => DeviceCode(None),
        }
    }
}

} // verus!
