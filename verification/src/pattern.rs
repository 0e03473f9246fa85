//! Wildcard patterns, matched by the `wildcard` crate.

use vstd::prelude::*;
use vstd::utf8::{encode_scalar, encode_utf8};
use wildcard::{Wildcard, WildcardError};

verus! {

/// The error of `wildcard::Wildcard::new`. Nothing is read from it.
#[verifier::external_type_specification]
#[verifier::external_body]
pub struct ExWildcardError(WildcardError);

/// Stands for what `wildcard::Wildcard::is_match` returns for the bytes of a
/// pattern that compiled and the bytes of an input. The crate lets `*` take
/// any run of bytes and `?` one byte, and a backslash make the next byte
/// literal; none of that is stated here, only that the answer is a function
/// of the two byte strings.
pub uninterp spec fn wildcard_accepts(pattern: Seq<u8>, input: Seq<u8>) -> bool;

/// The three bytes with a meaning in a pattern: `*`, `?` and the backslash.
pub open spec fn is_special(byte: u8) -> bool {
    byte == 0x2a || byte == 0x3f || byte == 0x5c
}

/// Every backslash of the pattern that is not itself escaped is followed by
/// one of the special bytes. Only such a pattern compiles.
pub open spec fn well_escaped(pattern: Seq<u8>) -> bool
    decreases pattern.len(),
{
    if pattern.len() == 0 {
        true
    } else if pattern[0] == 0x5c {
        pattern.len() >= 2 && is_special(pattern[1]) && well_escaped(pattern.skip(2))
    } else {
        well_escaped(pattern.skip(1))
    }
}

/// What matching the text against the pattern gives: the pattern has to
/// compile, and then the matcher decides.
pub open spec fn glob_outcome(pattern: Seq<char>, text: Seq<char>) -> Result<bool, &'static str> {
    if well_escaped(encode_utf8(pattern)) {
        Ok(wildcard_accepts(encode_utf8(pattern), encode_utf8(text)))
    } else {
        Err("Failed to compile wildcard pattern")
    }
}

/// Compiles `pattern` with `wildcard::Wildcard::new` and asks
/// `Wildcard::is_match` about `input`. The contract claims of the first that
/// it fails exactly on a backslash that escapes nothing special, which is what
/// the syntax check of the crate refuses, and of the second only that its
/// answer depends on the two byte strings.
#[verifier::external_body]
fn compile_and_match(pattern: &[u8], input: &[u8]) -> (r: Result<bool, WildcardError>)
    ensures
        r is Ok <==> well_escaped(pattern@),
        r matches Ok(found) ==> found == wildcard_accepts(pattern@, input@),
{
    Ok(Wildcard::new(pattern)?.is_match(input))
}

/// The outcome of a match for what the matcher returned: its answer, or the
/// one message that stands for every failure to compile.
pub fn outcome_of_match(matched: Result<bool, WildcardError>) -> (r: Result<bool, &'static str>)
    ensures
        r == (match matched {
            Ok(found) => Ok::<bool, &'static str>(found),
            Err(_) => Err::<bool, &'static str>("Failed to compile wildcard pattern"),
        }),
{
    match matched {
        Ok(found) => Ok(found),
        Err(_) => Err("Failed to compile wildcard pattern"),
    }
}

/// Matches `text` against `pattern`. Only `pattern` is read as a pattern;
/// a `*` or `?` in `text` is an ordinary character.
pub fn wildcard_matches(pattern: &str, text: &str) -> (r: Result<bool, &'static str>)
    ensures
        r == glob_outcome(pattern@, text@),
        r is Err <==> !well_escaped(encode_utf8(pattern@)),
{
    outcome_of_match(compile_and_match(pattern.as_bytes(), text.as_bytes()))
}

/// A pattern without a backslash compiles.
pub proof fn lemma_plain_pattern_compiles(pattern: Seq<u8>)
    requires
        !pattern.contains(0x5c),
    ensures
        well_escaped(pattern),
    decreases pattern.len(),
{
    if pattern.len() > 0 {
        assert(pattern[0] != 0x5c);
        let rest = pattern.skip(1);
        assert forall|k: int| 0 <= k < rest.len() implies rest[k] != 0x5c by {
            assert(rest[k] == pattern[k + 1]);
        }
        lemma_plain_pattern_compiles(rest);
    }
}

/// Among the bytes of a character only the backslash itself gives the
/// byte of a backslash.
proof fn lemma_bytes_of_char(c: char)
    ensures
        c != '\\' ==> !encode_scalar(c as u32).contains(0x5c),
{
    let v = c as u32;
    let bytes = encode_scalar(v);
    assert(v <= 0x7F ==> (v & 0x7F) == v) by (bit_vector);
    assert(forall|low: u8| 0xC0u8 | low != 0x5c) by (bit_vector);
    assert(forall|low: u8| 0xE0u8 | low != 0x5c) by (bit_vector);
    assert(forall|low: u8| 0xF0u8 | low != 0x5c) by (bit_vector);
    assert(forall|low: u8| 0x80u8 | low != 0x5c) by (bit_vector);
    if c != '\\' {
        assert forall|k: int| 0 <= k < bytes.len() implies bytes[k] != 0x5c by {}
    }
}

/// The bytes of a text without a backslash hold no backslash.
proof fn lemma_bytes_of_plain_text(text: Seq<char>)
    requires
        !text.contains('\\'),
    ensures
        !encode_utf8(text).contains(0x5c),
    decreases text.len(),
{
    if text.len() > 0 {
        let rest = text.drop_first();
        assert(text[0] != '\\');
        assert forall|k: int| 0 <= k < rest.len() implies rest[k] != '\\' by {
            assert(rest[k] == text[k + 1]);
        }
        lemma_bytes_of_char(text[0]);
        lemma_bytes_of_plain_text(rest);
        let head = encode_scalar(text[0] as u32);
        let tail = encode_utf8(rest);
        assert forall|k: int| 0 <= k < (head + tail).len() implies (head + tail)[k] != 0x5c by {
            if k < head.len() {
                assert(head[k] != 0x5c);
            } else {
                assert(tail[k - head.len()] != 0x5c);
            }
        }
    }
}

/// A declared text without a backslash is always a pattern: holding a text
/// against it gives an answer, never an error.
pub proof fn lemma_plain_text_is_a_pattern(pattern: Seq<char>, text: Seq<char>)
    requires
        !pattern.contains('\\'),
    ensures
        glob_outcome(pattern, text) is Ok,
{
    lemma_bytes_of_plain_text(pattern);
    lemma_plain_pattern_compiles(encode_utf8(pattern));
}

/// Only the declared side is read as a pattern: whether a match fails
/// depends on the pattern alone, never on the text that is held against it.
pub proof fn lemma_only_the_pattern_is_compiled(
    pattern: Seq<char>,
    first: Seq<char>,
    second: Seq<char>,
)
    ensures
        glob_outcome(pattern, first) is Err <==> glob_outcome(pattern, second) is Err,
        glob_outcome(pattern, first) is Err <==> !well_escaped(encode_utf8(pattern)),
{
}

} // verus!
