//! New names for calls and requests.
use vstd::prelude::*;
use vstd::string::*;

verus! {

/// Whether a character of a new id stands between two groups.
pub open spec fn is_hyphen_place(i: int) -> bool {
    i == 8 || i == 13 || i == 18 || i == 23
}

/// A digit of an id.
pub open spec fn is_id_digit(c: char) -> bool {
    '0' <= c <= '9' || 'a' <= c <= 'f'
}

/// The form of a new id: five groups of digits, of the fourth version.
pub open spec fn is_new_id(id: Seq<char>) -> bool {
    &&& id.len() == 36
    &&& forall|i: int| 0 <= i < 36 && is_hyphen_place(i) ==> #[trigger] id[i] == '-'
    &&& forall|i: int| 0 <= i < 36 && !is_hyphen_place(i) ==> is_id_digit(#[trigger] id[i])
    &&& id[14] == '4'
}

/// `uuid::Uuid::new_v4`, written by its `Display`: a random id in the hyphenated form, in lower
/// case, with the version digit `4`. Which id it is depends on chance. The call panics only on
/// a system that has no randomness to give, which nothing that the library is handed can cause.
#[verifier::external_body]
pub(crate) fn new_id() -> (id: String)
    ensures
        is_new_id(id@),
{
    uuid::Uuid::new_v4().to_string()
}

} // verus!
