//! Tag-address codec.
//!
//! A cartridge is addressed by a 16-hex-digit tag identifier.  On
//! storage the identifier is obfuscated: each 8-character half is run
//! through a fixed index permutation, the rotated second half names
//! the directory and the rotated first half names the file inside it.
//! The permutation is an involution, so the same transform recovers
//! the identifier from the two path components.

use vstd::prelude::*;

use crate::fault::Fault;

verus! {

/// The fixed index permutation applied to an 8-character name:
/// output character `i` is the input character at `[6,7,4,5,2,3,0,1][i]`.
pub open spec fn spec_rotate(s: Seq<char>) -> Seq<char> {
    seq![s[6], s[7], s[4], s[5], s[2], s[3], s[0], s[1]]
}

/// Sentinel returned for inputs that are not exactly 8 characters long.
pub open spec fn invalid_marker() -> Seq<char> {
    "INVALID"@
}

/// Relies on `String::push`: appends the one character to the string.
#[verifier::external_body]
fn push_char(s: &mut String, c: char)
    ensures
        final(s)@ == old(s)@.push(c),
{
    s.push(c);
}

/// Applies the fixed index permutation to an 8-character name; any
/// input of another length yields the invalid sentinel, never a
/// partial transform.
pub fn rotate_bytewise(input: &str) -> (r: String)
    ensures
        input@.len() == 8 ==> r@ == spec_rotate(input@),
        input@.len() != 8 ==> r@ == invalid_marker(),
{
    if input.unicode_len() != 8 {
        return "INVALID".to_owned();
    }
    let mut out = String::new();
    out.append(input.substring_char(6, 8));
    out.append(input.substring_char(4, 6));
    out.append(input.substring_char(2, 4));
    out.append(input.substring_char(0, 2));
    proof {
        assert(out@ =~= spec_rotate(input@));
    }
    out
}

/// Law: the rotation permutation is an involution, so applying it
/// twice to any 8-character string gives the string back.
pub proof fn lemma_rotate_involution(s: Seq<char>)
    requires
        s.len() == 8,
    ensures
        spec_rotate(spec_rotate(s)) == s,
{
    assert(spec_rotate(spec_rotate(s)) =~= s);
}

/// A hexadecimal digit, either case.
pub open spec fn is_hex_char(c: char) -> bool {
    ('0' <= c && c <= '9') || ('a' <= c && c <= 'f') || ('A' <= c && c <= 'F')
}

/// A well-formed tag identifier: exactly 16 hexadecimal characters.
pub open spec fn valid_tag_id(s: Seq<char>) -> bool {
    s.len() == 16 && forall|i: int| 0 <= i < 16 ==> is_hex_char(#[trigger] s[i])
}

fn hex_digit(c: char) -> (b: bool)
    ensures
        b == is_hex_char(c),
{
    ('0' <= c && c <= '9') || ('a' <= c && c <= 'f') || ('A' <= c && c <= 'F')
}

/// Checks that a tag identifier is exactly 16 hexadecimal characters;
/// anything else is rejected as a validation fault.
pub fn check_tag_id_validity(tag_id: &str) -> (r: Result<(), Fault>)
    ensures
        r is Ok <==> valid_tag_id(tag_id@),
        r is Err ==> r == Result::<(), Fault>::Err(Fault::Validation),
{
    if tag_id.unicode_len() != 16 {
        return Err(Fault::Validation);
    }
    for i in 0..16usize
        invariant
            tag_id@.len() == 16,
            forall|j: int| 0 <= j < i ==> is_hex_char(#[trigger] tag_id@[j]),
    {
        if !hex_digit(tag_id.get_char(i)) {
            return Err(Fault::Validation);
        }
    }
    Ok(())
}

/// Uppercases one hexadecimal digit; other characters pass unchanged.
pub open spec fn spec_upper_hex(c: char) -> char {
    if c == 'a' {
        'A'
    } else if c == 'b' {
        'B'
    } else if c == 'c' {
        'C'
    } else if c == 'd' {
        'D'
    } else if c == 'e' {
        'E'
    } else if c == 'f' {
        'F'
    } else {
        c
    }
}

/// Uppercase normalization, applied to names before they are written.
pub open spec fn spec_upper(s: Seq<char>) -> Seq<char> {
    s.map_values(|c: char| spec_upper_hex(c))
}

fn upper_hex(c: char) -> (r: char)
    ensures
        r == spec_upper_hex(c),
{
    if c == 'a' {
        'A'
    } else if c == 'b' {
        'B'
    } else if c == 'c' {
        'C'
    } else if c == 'd' {
        'D'
    } else if c == 'e' {
        'E'
    } else if c == 'f' {
        'F'
    } else {
        c
    }
}

fn upper_substring(s: &str, from: usize, to: usize) -> (r: String)
    requires
        from <= to <= s@.len(),
    ensures
        r@ == spec_upper(s@.subrange(from as int, to as int)),
{
    let mut out = String::new();
    let mut i: usize = from;
    while i < to
        invariant
            from <= i <= to <= s@.len(),
            out@ == spec_upper(s@.subrange(from as int, i as int)),
        decreases to - i,
    {
        let c = upper_hex(s.get_char(i));
        push_char(&mut out, c);
        proof {
            assert(out@ =~= spec_upper(s@.subrange(from as int, i + 1 as int)));
        }
        i += 1;
    }
    out
}

/// The two physical path components a tag identifier maps to, as
/// `(directory name, file name)`: the halves are uppercased and run
/// through the rotation, the second half naming the directory and the
/// first half the file inside it.
pub open spec fn spec_path_for(t: Seq<char>) -> (Seq<char>, Seq<char>) {
    (spec_rotate(spec_upper(t.subrange(8, 16))), spec_rotate(spec_upper(t.subrange(0, 8))))
}

/// Maps a tag identifier to its physical path components
/// `(directory name, file name)` under the content root.  A malformed
/// identifier is a hard validation failure, never a usable path.
pub fn path_for(tag_id: &str) -> (r: Result<(String, String), Fault>)
    ensures
        r is Ok <==> valid_tag_id(tag_id@),
        r is Err ==> r == Result::<(String, String), Fault>::Err(Fault::Validation),
        r matches Ok((d, f)) ==> d@ == spec_path_for(tag_id@).0 && f@ == spec_path_for(tag_id@).1,
{
    check_tag_id_validity(tag_id)?;
    let file_half = upper_substring(tag_id, 0, 8);
    let dir_half = upper_substring(tag_id, 8, 16);
    let dir_name = rotate_bytewise(dir_half.as_str());
    let file_name = rotate_bytewise(file_half.as_str());
    Ok((dir_name, file_name))
}

/// The tag identifier recovered from a file's own name and its parent
/// directory's name, where both are exactly 8 characters: the rotation
/// is self-inverse, so rotating each component again recovers the two
/// halves, file-derived half first.
pub open spec fn spec_tag_id_for(file_name: Seq<char>, dir_name: Seq<char>) -> Seq<char> {
    spec_rotate(file_name) + spec_rotate(dir_name)
}

/// Reconstructs a tag identifier from a file's own name and its parent
/// directory's name; absent unless both components are exactly
/// 8 characters long.
pub fn get_tag_id(file_name: &str, dir_name: &str) -> (r: Option<String>)
    ensures
        r is Some <==> file_name@.len() == 8 && dir_name@.len() == 8,
        r matches Some(t) ==> t@ == spec_tag_id_for(file_name@, dir_name@),
{
    if file_name.unicode_len() != 8 || dir_name.unicode_len() != 8 {
        return None;
    }
    let first_half = rotate_bytewise(file_name);
    let second_half = rotate_bytewise(dir_name);
    Some(first_half.concat(second_half.as_str()))
}

/// Law: recovering a tag identifier from the path components it was
/// written to gives the identifier back, in its uppercase
/// normalization.
pub proof fn lemma_tag_roundtrip(t: Seq<char>)
    requires
        valid_tag_id(t),
    ensures
        spec_tag_id_for(spec_path_for(t).1, spec_path_for(t).0) == spec_upper(t),
{
    let first = spec_upper(t.subrange(0, 8));
    let second = spec_upper(t.subrange(8, 16));
    lemma_rotate_involution(first);
    lemma_rotate_involution(second);
    assert(first + second =~= spec_upper(t));
}

/// Law: on an identifier that is already uppercase, the round trip
/// through the physical path is the identity.
pub proof fn lemma_tag_roundtrip_upper(t: Seq<char>)
    requires
        valid_tag_id(t),
        forall|i: int| 0 <= i < t.len() ==> spec_upper_hex(#[trigger] t[i]) == t[i],
    ensures
        spec_tag_id_for(spec_path_for(t).1, spec_path_for(t).0) == t,
{
    lemma_tag_roundtrip(t);
    assert(spec_upper(t) =~= t);
}

} // verus!
