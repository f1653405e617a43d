//! Identifiers of layers.

use vstd::prelude::*;
use vstd::string::*;

verus! {

/// Whether `c` is a lower-case hexadecimal digit.
pub open spec fn is_lower_hex(c: char) -> bool {
    ('0' <= c && c <= '9') || ('a' <= c && c <= 'f')
}

/// Whether position `i` of a hyphenated UUID holds a hyphen.
pub open spec fn is_hyphen_place(i: int) -> bool {
    i == 8 || i == 13 || i == 18 || i == 23
}

/// The text of a random UUID: five groups of lower-case hexadecimal digits between hyphens,
/// with the digit of version 4 and a digit of the RFC variant in their places.
pub open spec fn is_random_uuid(text: Seq<char>) -> bool {
    &&& text.len() == 36
    &&& forall|i: int|
        0 <= i < 36 ==> if is_hyphen_place(i) {
            #[trigger] text[i] == '-'
        } else {
            is_lower_hex(text[i])
        }
    &&& text[14] == '4'
    &&& (text[19] == '8' || text[19] == '9' || text[19] == 'a' || text[19] == 'b')
}

/// Calls `uuid::Uuid::new_v4` and writes the UUID out with its `Display`. Whatever random
/// bits come, the text is that of a version 4 UUID in lower-case hyphenated form. Nothing
/// is claimed of two calls giving different texts. Where the system has no random bytes to
/// give, `new_v4` panics; that depends on the machine alone.
#[verifier::external_body]
pub(crate) fn fresh_layer_id() -> (res: String)
    ensures
        is_random_uuid(res@),
{
    uuid::Uuid::new_v4().to_string()
}

} // verus!
