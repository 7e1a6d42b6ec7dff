use vstd::prelude::*;
use vstd::utf8::encode_utf8;

verus! {

/// The shortest account identifier, in bytes.
pub const MIN_ACCOUNT_ID_LEN: usize = 2;

/// The longest account identifier, in bytes.
pub const MAX_ACCOUNT_ID_LEN: usize = 64;

/// A lower-case letter or a digit.
pub open spec fn is_id_char(byte: u8) -> bool {
    (0x61 <= byte <= 0x7a) || (0x30 <= byte <= 0x39)
}

/// A hyphen, an underscore or a dot.
pub open spec fn is_separator(byte: u8) -> bool {
    byte == 0x2d || byte == 0x5f || byte == 0x2e
}

/// Whether the bytes spell a valid account identifier: between two and
/// sixty-four bytes, each a lower-case letter, a digit or a separator, with
/// no separator at either end and no two separators in a row.
pub open spec fn valid_account_bytes(id: Seq<u8>) -> bool {
    &&& MIN_ACCOUNT_ID_LEN <= id.len() <= MAX_ACCOUNT_ID_LEN
    &&& forall|i: int| 0 <= i < id.len() ==> is_id_char(#[trigger] id[i]) || is_separator(id[i])
    &&& !is_separator(id[0])
    &&& !is_separator(id[id.len() - 1])
    &&& forall|i: int|
        0 <= i < id.len() - 1 ==> !(is_separator(#[trigger] id[i]) && is_separator(id[i + 1]))
}

/// Whether the string is a valid account identifier.
pub open spec fn valid_account_id(id: Seq<char>) -> bool {
    valid_account_bytes(encode_utf8(id))
}

/// Calls `near_sdk::env::is_valid_account_id`. That function accepts exactly
/// the byte strings of two to sixty-four bytes made of lower-case letters,
/// digits and the separators `-`, `_` and `.`, in which no separator stands
/// first, last, or next to another one; it reads nothing but its argument.
#[verifier::external_body]
fn account_bytes_are_valid(id: &[u8]) -> (valid: bool)
    ensures
        valid == valid_account_bytes(id@),
{
    near_sdk::env::is_valid_account_id(id)
}

/// Whether `id` is a valid account identifier.
pub fn is_valid_account_id(id: &String) -> (valid: bool)
    ensures
        valid == valid_account_id(id@),
{
    account_bytes_are_valid(id.as_str().as_bytes())
}

} // verus!
