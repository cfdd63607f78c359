//! Names for backing files.

use uuid::Uuid;
use vstd::prelude::*;

verus! {

/// A digit of lower-case hexadecimal.
pub open spec fn is_lower_hex(c: char) -> bool {
    ('0' <= c && c <= '9') || ('a' <= c && c <= 'f')
}

/// The shape of every backing file's name: thirty-two lower-case
/// hexadecimal digits, so no separator and nothing that could leave the
/// directory it is joined to.
pub open spec fn is_file_name(name: Seq<char>) -> bool {
    &&& name.len() == 32
    &&& forall|i: int| 0 <= i < name.len() ==> is_lower_hex(#[trigger] name[i])
}

/// A fresh name from `Uuid::new_v4`, written out by its `Simple` adapter.
///
/// Trusted: the identifier is random, so only the shape of the text is
/// claimed, as the adapter's encoder produces it (two digits for each of the
/// sixteen bytes, no hyphens). `new_v4` panics when the operating system
/// cannot supply random bytes; no argument of ours can prevent that.
#[verifier::external_body]
pub(crate) fn fresh_file_name() -> (name: String)
    ensures
        is_file_name(name@),
{
    Uuid::new_v4().to_simple().to_string()
}

} // verus!
