//! User roles: the stored role text and the role a user effectively has.

use vstd::prelude::*;

use crate::text::same_text;

verus! {

/// The role a stored role text stands for: `"admin"` only for the exact
/// text `"admin"`, `"user"` for anything else.
pub open spec fn normalized_role(role: Seq<char>) -> Seq<char> {
    if role == "admin"@ {
        "admin"@
    } else {
        "user"@
    }
}

/// The role a user has, given the stored role and whether the user is one
/// of the configured root administrators.
pub open spec fn effective_role_of(stored_role: Seq<char>, is_root_admin: bool) -> Seq<char> {
    if is_root_admin {
        "admin"@
    } else {
        normalized_role(stored_role)
    }
}

/// Maps a stored role text to one of the two known roles.
pub fn normalize_role(role: &str) -> (normalized: &'static str)
    ensures
        normalized@ == normalized_role(role@),
{
    if same_text(role, "admin") {
        "admin"
    } else {
        "user"
    }
}

/// The role shown for a user: root administrators are always admins.
pub fn effective_role(stored_role: &str, is_root_admin: bool) -> (role: &'static str)
    ensures
        role@ == effective_role_of(stored_role@, is_root_admin),
{
    if is_root_admin {
        "admin"
    } else {
        normalize_role(stored_role)
    }
}

/// Every stored role reads as one of the two known roles, and as `admin`
/// only when it is exactly `admin`.
pub proof fn lemma_normalized_role_is_known(role: Seq<char>)
    ensures
        normalized_role(role) == "admin"@ || normalized_role(role) == "user"@,
        normalized_role(role) == "admin"@ <==> role == "admin"@,
{
    if role != "admin"@ {
        reveal_strlit("admin");
        reveal_strlit("user");
        assert("user"@.len() == 4);
        assert("admin"@.len() == 5);
    }
}

/// Root administrators are always shown as admins, whatever role is stored.
pub proof fn lemma_root_admin_is_admin(stored_role: Seq<char>)
    ensures
        effective_role_of(stored_role, true) == "admin"@,
{
}

} // verus!
