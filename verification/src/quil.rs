//! What the library has from the `quil-rs` engine: the rule for identifiers
//! and the text form of a memory reference.
//!
//! The functions here call into `quil-rs`. Their contracts are taken on trust
//! from that crate's source; nothing in this library proves them.

use vstd::prelude::*;

verus! {

/// A letter of the Latin alphabet or an underscore.
pub open spec fn is_identifier_start(c: char) -> bool {
    ||| 'A' as u32 <= c as u32 <= 'Z' as u32
    ||| 'a' as u32 <= c as u32 <= 'z' as u32
    ||| c == '_'
}

/// A letter, a decimal digit or an underscore.
pub open spec fn is_identifier_end(c: char) -> bool {
    is_identifier_start(c) || '0' as u32 <= c as u32 <= '9' as u32
}

/// A letter, a decimal digit, an underscore or a hyphen.
pub open spec fn is_identifier_part(c: char) -> bool {
    is_identifier_end(c) || c == '-'
}

/// Whether `name` is an identifier of Quil: it is not empty, starts with a
/// letter or an underscore, goes on with letters, digits, underscores and
/// hyphens, and does not end with a hyphen.
pub open spec fn is_identifier(name: Seq<char>) -> bool {
    &&& name.len() >= 1
    &&& is_identifier_start(name[0])
    &&& is_identifier_end(name[name.len() - 1])
    &&& forall|i: int| 0 < i < name.len() - 1 ==> is_identifier_part(#[trigger] name[i])
}

/// The character for a decimal digit.
pub open spec fn digit(d: nat) -> char {
    (('0' as u8) + d) as u8 as char
}

/// The decimal digits of `n`, without sign or padding.
pub open spec fn decimal(n: nat) -> Seq<char>
    decreases n,
{
    if n < 10 {
        seq![digit(n)]
    } else {
        decimal(n / 10).push(digit(n % 10))
    }
}

/// The text form of the place `index` in the region `name`: the name, then
/// the index in decimal between square brackets.
pub open spec fn memory_reference_text(name: Seq<char>, index: u64) -> Seq<char> {
    name + seq!['['] + decimal(index as nat) + seq![']']
}

/// The message with which the engine turns a name down.
pub open spec fn invalid_identifier_message(name: Seq<char>) -> Seq<char> {
    name + " is not a valid identifier"@
}

/// Calls `quil_rs::validation::identifier::validate_identifier`.
///
/// Trusted: that function matches the name against the pattern
/// `^([A-Za-z_]|[A-Za-z_][A-Za-z0-9\-_]*[A-Za-z0-9_])$`, which is what
/// `is_identifier` says, and fails with the error `Invalid(name)`, which
/// prints as the name followed by " is not a valid identifier".
#[verifier::external_body]
pub(crate) fn validate_identifier(name: &str) -> (r: Result<(), String>)
    ensures
        r is Ok <==> is_identifier(name@),
        r is Err ==> r->Err_0@ == invalid_identifier_message(name@),
{
    quil_rs::validation::identifier::validate_identifier(name).map_err(|e| e.to_string())
}

/// Builds a `quil_rs::instruction::MemoryReference` and calls its
/// `to_string`.
///
/// Trusted: its `Display` writes the name, an opening square bracket, the
/// index as `u64` prints (in decimal) and a closing square bracket.
#[verifier::external_body]
pub(crate) fn memory_reference_to_string(name: &str, index: u64) -> (r: String)
    ensures
        r@ == memory_reference_text(name@, index),
{
    quil_rs::instruction::MemoryReference::new(name.to_string(), index).to_string()
}

} // verus!
