use vstd::prelude::*;
use vstd::utf8::encode_utf8;
use crate::error::{AddressProblem, AuthError, UsernameProblem};
use crate::token::chars_of;

verus! {

/// The length of a text in UTF-8 bytes.
pub open spec fn byte_len(s: Seq<char>) -> nat {
    encode_utf8(s).len()
}

/// A character allowed in a username: an ASCII letter or digit, `-` or `_`.
pub open spec fn is_username_char(c: char) -> bool {
    ('a' <= c && c <= 'z') || ('A' <= c && c <= 'Z') || ('0' <= c && c <= '9') || c == '-' || c
        == '_'
}

/// An ASCII hexadecimal digit.
pub open spec fn is_hex_char(c: char) -> bool {
    ('0' <= c && c <= '9') || ('a' <= c && c <= 'f') || ('A' <= c && c <= 'F')
}

/// What is wrong with a username, if anything.
pub open spec fn username_problem(s: Seq<char>) -> Option<UsernameProblem> {
    if !(3 <= byte_len(s) <= 32) {
        Some(UsernameProblem::Length)
    } else if exists|i: int| 0 <= i < s.len() && !is_username_char(#[trigger] s[i]) {
        Some(UsernameProblem::Character)
    } else {
        None
    }
}

/// The shape of a linked address's characters: `0x`, then
/// hexadecimal digits.
pub open spec fn address_chars_ok(s: Seq<char>) -> bool {
    &&& s.len() >= 2
    &&& s[0] == '0'
    &&& s[1] == 'x'
    &&& forall|i: int| 2 <= i < s.len() ==> is_hex_char(#[trigger] s[i])
}

/// What is wrong with a linked address, if anything.
pub open spec fn address_problem(s: Seq<char>) -> Option<AddressProblem> {
    if byte_len(s) != 42 {
        Some(AddressProblem::Length)
    } else if !address_chars_ok(s) {
        Some(AddressProblem::Character)
    } else {
        None
    }
}

/// Whether `c` may appear in a username.
pub fn legal_char(c: char) -> (r: bool)
    ensures
        r == is_username_char(c),
{
    ('a' <= c && c <= 'z') || ('A' <= c && c <= 'Z') || ('0' <= c && c <= '9') || c == '-' || c
        == '_'
}

/// Whether `c` may appear in the body of a linked address.
pub fn legal_ethaddr(c: char) -> (r: bool)
    ensures
        r == is_hex_char(c),
{
    ('0' <= c && c <= '9') || ('a' <= c && c <= 'f') || ('A' <= c && c <= 'F')
}

/// Checks that a username is legal, before any store access.
pub fn verify_username(username: &str) -> (r: Result<(), AuthError>)
    ensures
        match username_problem(username@) {
            None => r is Ok,
            Some(p) => r matches Err(AuthError::InvalidRequest(q)) && q == p,
        },
{
    let n = username.as_bytes().len();
    if !(3 <= n && n <= 32) {
        return Err(AuthError::InvalidRequest(UsernameProblem::Length));
    }
    let cs = chars_of(username);
    let mut i: usize = 0;
    while i < cs.len()
        invariant
            i <= cs@.len(),
            cs@ == username@,
            3 <= byte_len(username@) <= 32,
            forall|j: int| 0 <= j < i ==> is_username_char(#[trigger] cs@[j]),
        decreases cs.len() - i,
    {
        if !legal_char(cs[i]) {
            assert(!is_username_char(username@[i as int]));
            return Err(AuthError::InvalidRequest(UsernameProblem::Character));
        }
        i = i + 1;
    }
    Ok(())
}

/// Checks that a linked address is legal, before any store access.
pub fn verify_ethaddr(ethaddr: &str) -> (r: Result<(), AuthError>)
    ensures
        match address_problem(ethaddr@) {
            None => r is Ok,
            Some(p) => r matches Err(AuthError::InvalidEthAddr(q)) && q == p,
        },
{
    if ethaddr.as_bytes().len() != 42 {
        return Err(AuthError::InvalidEthAddr(AddressProblem::Length));
    }
    let cs = chars_of(ethaddr);
    if cs.len() < 2 || cs[0] != '0' || cs[1] != 'x' {
        return Err(AuthError::InvalidEthAddr(AddressProblem::Character));
    }
    let mut i: usize = 2;
    while i < cs.len()
        invariant
            2 <= i <= cs@.len(),
            cs@ == ethaddr@,
            byte_len(ethaddr@) == 42,
            cs@[0] == '0',
            cs@[1] == 'x',
            forall|j: int| 2 <= j < i ==> is_hex_char(#[trigger] cs@[j]),
        decreases cs.len() - i,
    {
        if !legal_ethaddr(cs[i]) {
            assert(!is_hex_char(ethaddr@[i as int]));
            return Err(AuthError::InvalidEthAddr(AddressProblem::Character));
        }
        i = i + 1;
    }
    Ok(())
}

} // verus!
