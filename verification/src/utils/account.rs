//! Account names.

use vstd::prelude::*;

verus! {

/// Whether `c` is a lower-case letter or a digit.
pub open spec fn is_name_char(c: char) -> bool {
    ('a' <= c && c <= 'z') || ('0' <= c && c <= '9')
}

/// Whether `c` is one of the three separators of an account name.
pub open spec fn is_separator(c: char) -> bool {
    c == '-' || c == '_' || c == '.'
}

/// Whether `id` is a well-formed account name: 2 to 64 characters, each a
/// lower-case letter, a digit or a separator, with no separator at either end
/// and no two separators in a row.
pub open spec fn is_valid_account_id(id: Seq<char>) -> bool {
    &&& 2 <= id.len() <= 64
    &&& forall|i: int| 0 <= i < id.len() ==> is_name_char(#[trigger] id[i]) || is_separator(id[i])
    &&& !is_separator(id[0])
    &&& !is_separator(id[id.len() - 1])
    &&& forall|i: int|
        0 <= i < id.len() - 1 ==> !(is_separator(#[trigger] id[i]) && is_separator(id[i + 1]))
}

/// Asks `near_sdk::AccountId::validate` whether `id` is a well-formed account
/// name. Not proved: the contract restates the rules that the function
/// checks, which are its length limits of 2 and 64 and its scan for
/// characters other than `a-z`, `0-9`, `-`, `_`, `.` and for a separator at
/// either end or next to another one.
#[verifier::external_body]
pub(crate) fn account_id_is_valid(id: &str) -> (valid: bool)
    ensures
        valid == is_valid_account_id(id@),
{
    near_sdk::AccountId::validate(id).is_ok()
}

} // verus!
