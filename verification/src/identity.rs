//! Identifiers of processes.

use uuid::Uuid;

use vstd::prelude::*;

verus! {

pub open spec fn is_lower_hex(c: char) -> bool {
    ||| '0' as u32 <= c as u32 <= '9' as u32
    ||| 'a' as u32 <= c as u32 <= 'f' as u32
}

/// The hyphenated, lower-case text of a random (version 4) UUID.
pub open spec fn is_random_uuid(s: Seq<char>) -> bool {
    &&& s.len() == 36
    &&& forall|i: int|
        0 <= i < 36 ==> if i == 8 || i == 13 || i == 18 || i == 23 {
            #[trigger] s[i] == '-'
        } else {
            is_lower_hex(s[i])
        }
    &&& s[14] == '4'
    &&& s[19] == '8' || s[19] == '9' || s[19] == 'a' || s[19] == 'b'
}

/// Whether an owner identifier is found again in a lock record: it has no space, which ends the
/// owner, and does not start with a quote, which counts as part of the quotation.
pub open spec fn is_safe_owner(owner: Seq<char>) -> bool {
    &&& !owner.contains(' ')
    &&& owner.len() > 0 ==> owner[0] != '"'
}

/// A universally unique identifier.
#[verifier::external_type_specification]
#[verifier::external_body]
pub struct ExUuid(uuid::Uuid);

/// The text that a UUID displays.
pub uninterp spec fn uuid_text(id: Uuid) -> Seq<char>;

/// `Uuid::new_v4` makes a random UUID. Of every outcome it is claimed that its text is the
/// hyphenated, lower-case text of a version 4 UUID; which one it is rests on chance.
pub assume_specification[ Uuid::new_v4 ]() -> (id: Uuid)
    ensures
        is_random_uuid(uuid_text(id)),
;

/// Displays a UUID by `to_string`, which gives its text.
#[verifier::external_body]
pub(crate) fn display_uuid(id: &Uuid) -> (text: String)
    ensures
        text@ == uuid_text(*id),
{
    id.to_string()
}

/// A random UUID can stand in a lock record as an owner.
pub proof fn law_random_uuid_is_safe_owner(id: Seq<char>)
    requires
        is_random_uuid(id),
    ensures
        is_safe_owner(id),
{
    assert forall|i: int| 0 <= i < id.len() implies id[i] != ' ' && id[i] != '"' by {
        assert(is_lower_hex(id[i]) || id[i] == '-');
    }
}

} // verus!
