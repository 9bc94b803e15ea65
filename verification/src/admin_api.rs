//! The decisions of the admin endpoints. Each endpoint alternates lookups
//! in the database with decisions; the decisions are the functions here,
//! each taking what is known so far and naming the next lookup, the write
//! to make, or the rejection. The laws at the end state what the endpoints
//! guarantee whatever the lookups answer.

use vstd::prelude::*;

use crate::errors::AdminError;
use crate::errors::BadRequestReason;
use crate::permissions::all_permissions;
use crate::permissions::all_permissions_seq;
use crate::permissions::permission_named;
use crate::permissions::Permission;
use crate::text::same_text;

verus! {

/// The query of the admin user list: an optional search text.
pub struct AdminUsersQuery {
    pub q: Option<String>,
}

/// A request to give a user a role.
pub struct UpdateRoleRequest {
    pub role: String,
}

/// A request to grant (`enabled`) or revoke a permission.
pub struct UpdatePermissionRequest {
    pub permission: String,
    pub enabled: bool,
}

/// The permission the admin user list needs.
pub const LIST_USERS_PERMISSION: Permission = Permission::ManagePermissions;

/// The permission the statistics page needs.
pub const VIEW_STATS_PERMISSION: Permission = Permission::ViewAdminStats;

/// The first step of an access check.
#[derive(Clone, Copy, Debug, PartialEq, Eq, Structural)]
pub enum AccessCheck {
    /// Access is granted without a lookup.
    Granted,
    /// Whether the admin holds this permission must be looked up.
    LookUpPermission(Permission),
}

pub open spec fn access_check_for(admin_is_root: bool, required: Permission) -> AccessCheck {
    if admin_is_root {
        AccessCheck::Granted
    } else {
        AccessCheck::LookUpPermission(required)
    }
}

/// Root administrators pass every access check; anyone else needs the
/// required permission, which is then looked up.
pub fn begin_access_check(admin_is_root: bool, required: Permission) -> (check: AccessCheck)
    ensures
        check == access_check_for(admin_is_root, required),
{
    if admin_is_root {
        AccessCheck::Granted
    } else {
        AccessCheck::LookUpPermission(required)
    }
}

pub open spec fn access_decision(holds_permission: bool) -> Result<(), AdminError> {
    if holds_permission {
        Ok(())
    } else {
        Err(AdminError::Forbidden)
    }
}

/// The answer once the permission was looked up.
pub fn finish_access_check(holds_permission: bool) -> (decision: Result<(), AdminError>)
    ensures
        decision == access_decision(holds_permission),
{
    if holds_permission {
        Ok(())
    } else {
        Err(AdminError::Forbidden)
    }
}

/// The outcome of an access check, given what the lookup would answer.
pub open spec fn access_outcome(
    admin_is_root: bool,
    required: Permission,
    holds_permission: bool,
) -> Result<(), AdminError> {
    match access_check_for(admin_is_root, required) {
        AccessCheck::Granted => Ok(()),
        AccessCheck::LookUpPermission(_) => access_decision(holds_permission),
    }
}

/// The next step of a role change.
#[derive(Clone, Copy, Debug, PartialEq, Eq, Structural)]
pub enum RoleUpdateStep {
    /// Look up whether the target user exists.
    LookUpTarget,
    /// Look up whether the target user is a configured root administrator.
    CheckTargetRootAdmin,
    /// Store the requested role.
    WriteRole,
    /// Answer with this error.
    Reject(AdminError),
}

/// The roles a request may ask for.
pub open spec fn is_assignable_role(role: Seq<char>) -> bool {
    role == "user"@ || role == "admin"@
}

pub open spec fn role_update_start(role: Seq<char>, admin_is_root: bool) -> RoleUpdateStep {
    if !is_assignable_role(role) {
        RoleUpdateStep::Reject(AdminError::BadRequest(BadRequestReason::InvalidRole))
    } else if !admin_is_root {
        RoleUpdateStep::Reject(AdminError::Forbidden)
    } else {
        RoleUpdateStep::LookUpTarget
    }
}

pub open spec fn role_update_after_lookup(role: Seq<char>, target_exists: bool) -> RoleUpdateStep {
    if !target_exists {
        RoleUpdateStep::Reject(AdminError::NotFound)
    } else if role == "user"@ {
        RoleUpdateStep::CheckTargetRootAdmin
    } else {
        RoleUpdateStep::WriteRole
    }
}

pub open spec fn role_update_after_root_check(target_is_root: bool) -> RoleUpdateStep {
    if target_is_root {
        RoleUpdateStep::Reject(AdminError::Forbidden)
    } else {
        RoleUpdateStep::WriteRole
    }
}

/// A role change starts by checking the requested role, then that the
/// admin is a root administrator.
pub fn begin_role_update(request: &UpdateRoleRequest, admin_is_root: bool) -> (step:
    RoleUpdateStep)
    ensures
        step == role_update_start(request.role@, admin_is_root),
{
    let role = request.role.as_str();
    if !(same_text(role, "user") || same_text(role, "admin")) {
        RoleUpdateStep::Reject(AdminError::BadRequest(BadRequestReason::InvalidRole))
    } else if !admin_is_root {
        RoleUpdateStep::Reject(AdminError::Forbidden)
    } else {
        RoleUpdateStep::LookUpTarget
    }
}

/// After the target lookup: a missing user is not found; making someone a
/// plain user needs a check that they are not a root administrator.
pub fn role_update_target_found(request: &UpdateRoleRequest, target_exists: bool) -> (step:
    RoleUpdateStep)
    ensures
        step == role_update_after_lookup(request.role@, target_exists),
{
    if !target_exists {
        RoleUpdateStep::Reject(AdminError::NotFound)
    } else if same_text(request.role.as_str(), "user") {
        RoleUpdateStep::CheckTargetRootAdmin
    } else {
        RoleUpdateStep::WriteRole
    }
}

/// After the root administrator check: root administrators keep the admin
/// role.
pub fn role_update_root_checked(target_is_root: bool) -> (step: RoleUpdateStep)
    ensures
        step == role_update_after_root_check(target_is_root),
{
    if target_is_root {
        RoleUpdateStep::Reject(AdminError::Forbidden)
    } else {
        RoleUpdateStep::WriteRole
    }
}

/// Where a role change ends, given what each lookup would answer.
pub open spec fn role_update_outcome(
    role: Seq<char>,
    admin_is_root: bool,
    target_exists: bool,
    target_is_root: bool,
) -> RoleUpdateStep {
    let start = role_update_start(role, admin_is_root);
    if start != RoleUpdateStep::LookUpTarget {
        start
    } else {
        let found = role_update_after_lookup(role, target_exists);
        if found != RoleUpdateStep::CheckTargetRootAdmin {
            found
        } else {
            role_update_after_root_check(target_is_root)
        }
    }
}

/// The next step of a permission change.
#[derive(Clone, Copy, Debug, PartialEq, Eq, Structural)]
pub enum PermissionUpdateStep {
    /// Look up whether the target user exists; the request names this permission.
    LookUpTarget(Permission),
    /// Grant (`true`) or revoke (`false`) the permission.
    WritePermission(Permission, bool),
    /// Answer with this error.
    Reject(AdminError),
}

pub open spec fn permission_update_start(name: Seq<char>, admin_is_root: bool) -> PermissionUpdateStep {
    match permission_named(name) {
        None => PermissionUpdateStep::Reject(
            AdminError::BadRequest(BadRequestReason::InvalidPermission),
        ),
        Some(permission) => if permission == Permission::ManagePermissions && !admin_is_root {
            PermissionUpdateStep::Reject(AdminError::Forbidden)
        } else {
            PermissionUpdateStep::LookUpTarget(permission)
        },
    }
}

pub open spec fn permission_update_after_lookup(
    permission: Permission,
    enabled: bool,
    target_exists: bool,
) -> PermissionUpdateStep {
    if target_exists {
        PermissionUpdateStep::WritePermission(permission, enabled)
    } else {
        PermissionUpdateStep::Reject(AdminError::NotFound)
    }
}

/// A permission change starts by checking the permission name, then that
/// only root administrators hand out or take away the permission to
/// manage permissions.
pub fn begin_permission_update(request: &UpdatePermissionRequest, admin_is_root: bool) -> (step:
    PermissionUpdateStep)
    ensures
        step == permission_update_start(request.permission@, admin_is_root),
{
    let permission = match Permission::from_name(request.permission.as_str()) {
        Some(permission) => permission,
        None => {
            return PermissionUpdateStep::Reject(
                AdminError::BadRequest(BadRequestReason::InvalidPermission),
            );
        },
    };
    match permission {
        Permission::ManagePermissions => if !admin_is_root {
            return PermissionUpdateStep::Reject(AdminError::Forbidden);
        },
        _ => {},
    }
    PermissionUpdateStep::LookUpTarget(permission)
}

/// After the target lookup: a missing user is not found, otherwise the
/// permission is written as requested.
pub fn permission_update_target_found(
    permission: Permission,
    enabled: bool,
    target_exists: bool,
) -> (step: PermissionUpdateStep)
    ensures
        step == permission_update_after_lookup(permission, enabled, target_exists),
{
    if target_exists {
        PermissionUpdateStep::WritePermission(permission, enabled)
    } else {
        PermissionUpdateStep::Reject(AdminError::NotFound)
    }
}

/// Where a permission change ends, given what the lookup would answer.
pub open spec fn permission_update_outcome(
    name: Seq<char>,
    enabled: bool,
    admin_is_root: bool,
    target_exists: bool,
) -> PermissionUpdateStep {
    match permission_update_start(name, admin_is_root) {
        PermissionUpdateStep::LookUpTarget(permission) => permission_update_after_lookup(
            permission,
            enabled,
            target_exists,
        ),
        other => other,
    }
}

/// How a role write ends its transaction.
#[derive(Clone, Copy, Debug, PartialEq, Eq, Structural)]
pub enum TransactionEnd {
    /// The write was not made in a transaction.
    NoTransaction,
    Commit,
    Rollback,
}

/// Whether storing a role runs in a transaction: making someone an admin
/// also grants permissions, and both happen together or not at all.
pub open spec fn role_write_in_transaction(role: Seq<char>) -> bool {
    role == "admin"@
}

pub fn role_write_uses_transaction(role: &str) -> (transactional: bool)
    ensures
        transactional == role_write_in_transaction(role@),
{
    same_text(role, "admin")
}

/// The permissions granted along with a role, once `rows_affected` user
/// rows took it.
pub open spec fn role_write_grants(role: Seq<char>, rows_affected: int) -> Seq<Permission> {
    if role == "admin"@ && rows_affected > 0 {
        all_permissions_seq()
    } else {
        Seq::<Permission>::empty()
    }
}

/// What follows the role update of a role write.
pub struct RoleWriteFollowUp {
    /// Whether a user took the role.
    pub updated: bool,
    /// The permissions to grant before the transaction ends.
    pub grants: Vec<Permission>,
    pub end: TransactionEnd,
}

/// After the role update touched `rows_affected` rows: a new admin is
/// granted every permission and the transaction is committed; if no user
/// took the admin role, the transaction is rolled back.
pub fn role_write_follow_up(role: &str, rows_affected: u64) -> (follow_up: RoleWriteFollowUp)
    ensures
        follow_up.updated == (rows_affected > 0),
        follow_up.grants@ == role_write_grants(role@, rows_affected as int),
        follow_up.end == if role_write_in_transaction(role@) {
            if rows_affected > 0 {
                TransactionEnd::Commit
            } else {
                TransactionEnd::Rollback
            }
        } else {
            TransactionEnd::NoTransaction
        },
{
    let updated = rows_affected > 0;
    if role_write_uses_transaction(role) {
        if updated {
            RoleWriteFollowUp { updated, grants: all_permissions(), end: TransactionEnd::Commit }
        } else {
            RoleWriteFollowUp { updated, grants: Vec::new(), end: TransactionEnd::Rollback }
        }
    } else {
        RoleWriteFollowUp { updated, grants: Vec::new(), end: TransactionEnd::NoTransaction }
    }
}

/// Access to a guarded admin page is granted exactly to root administrators
/// and to holders of the page's permission; every refusal is `Forbidden`.
pub proof fn lemma_access_granted_iff_root_or_permitted(
    admin_is_root: bool,
    required: Permission,
    holds_permission: bool,
)
    ensures
        access_outcome(admin_is_root, required, holds_permission) is Ok <==> (admin_is_root
            || holds_permission),
        access_outcome(admin_is_root, required, holds_permission) is Err ==> access_outcome(
            admin_is_root,
            required,
            holds_permission,
        ) == Err::<(), AdminError>(AdminError::Forbidden),
{
}

/// A role change ends by writing the role or by a rejection; it writes the
/// role exactly when the role is `user` or `admin`, the admin is a root
/// administrator, the target exists, and the change would not make a root
/// administrator a plain user.
pub proof fn lemma_role_update_writes_only_when_allowed(
    role: Seq<char>,
    admin_is_root: bool,
    target_exists: bool,
    target_is_root: bool,
)
    ensures
        role_update_outcome(role, admin_is_root, target_exists, target_is_root) is WriteRole
            || role_update_outcome(role, admin_is_root, target_exists, target_is_root) is Reject,
        role_update_outcome(role, admin_is_root, target_exists, target_is_root)
            == RoleUpdateStep::WriteRole <==> (is_assignable_role(role) && admin_is_root
            && target_exists && !(role == "user"@ && target_is_root)),
{
}

/// A request for an unknown role is a bad request, whoever sends it and
/// whatever the target.
pub proof fn lemma_unknown_role_is_bad_request(
    role: Seq<char>,
    admin_is_root: bool,
    target_exists: bool,
    target_is_root: bool,
)
    requires
        !is_assignable_role(role),
    ensures
        role_update_outcome(role, admin_is_root, target_exists, target_is_root)
            == RoleUpdateStep::Reject(AdminError::BadRequest(BadRequestReason::InvalidRole)),
{
}

/// A configured root administrator can never be made a plain user.
pub proof fn lemma_root_admin_never_demoted(admin_is_root: bool, target_exists: bool)
    ensures
        role_update_outcome("user"@, admin_is_root, target_exists, true)
            != RoleUpdateStep::WriteRole,
{
}

/// A permission change writes exactly the requested grant or revocation of
/// a known permission to an existing user, and only root administrators
/// change who may manage permissions.
pub proof fn lemma_permission_update_writes_only_when_allowed(
    name: Seq<char>,
    enabled: bool,
    admin_is_root: bool,
    target_exists: bool,
    permission: Permission,
    written: bool,
)
    ensures
        permission_update_outcome(name, enabled, admin_is_root, target_exists) is WritePermission
            || permission_update_outcome(name, enabled, admin_is_root, target_exists) is Reject,
        permission_update_outcome(name, enabled, admin_is_root, target_exists)
            == PermissionUpdateStep::WritePermission(permission, written) <==> (permission_named(
            name,
        ) == Some(permission) && written == enabled && target_exists && (permission
            == Permission::ManagePermissions ==> admin_is_root)),
{
}

/// An unknown permission name is a bad request, whoever sends it.
pub proof fn lemma_unknown_permission_is_bad_request(
    name: Seq<char>,
    enabled: bool,
    admin_is_root: bool,
    target_exists: bool,
)
    requires
        permission_named(name) is None,
    ensures
        permission_update_outcome(name, enabled, admin_is_root, target_exists)
            == PermissionUpdateStep::Reject(
            AdminError::BadRequest(BadRequestReason::InvalidPermission),
        ),
{
}

/// Making an existing user an admin grants every permission; any other
/// role write grants none.
pub proof fn lemma_new_admin_gets_every_permission(role: Seq<char>, rows_affected: int)
    ensures
        (role == "admin"@ && rows_affected > 0) ==> role_write_grants(role, rows_affected)
            == all_permissions_seq(),
        !(role == "admin"@ && rows_affected > 0) ==> role_write_grants(role, rows_affected).len()
            == 0,
{
}

/// Which error a refused role change gets: an unknown role is a bad
/// request; a known role asked for by anyone but a root administrator, or
/// making a root administrator a plain user, is forbidden; a missing target
/// user is not found, for either role.
pub proof fn lemma_role_update_rejections(
    role: Seq<char>,
    admin_is_root: bool,
    target_exists: bool,
    target_is_root: bool,
)
    ensures
        role_update_outcome(role, admin_is_root, target_exists, target_is_root)
            == RoleUpdateStep::Reject(AdminError::BadRequest(BadRequestReason::InvalidRole))
            <==> !is_assignable_role(role),
        role_update_outcome(role, admin_is_root, target_exists, target_is_root)
            == RoleUpdateStep::Reject(AdminError::NotFound) <==> (is_assignable_role(role)
            && admin_is_root && !target_exists),
        role_update_outcome(role, admin_is_root, target_exists, target_is_root)
            == RoleUpdateStep::Reject(AdminError::Forbidden) <==> (is_assignable_role(role) && (
        !admin_is_root || (target_exists && role == "user"@ && target_is_root))),
{
}

/// Which error a refused permission change gets: an unknown permission is
/// a bad request; the permission to manage permissions, asked for by anyone
/// but a root administrator, is forbidden; otherwise a missing target user
/// is not found.
pub proof fn lemma_permission_update_rejections(
    name: Seq<char>,
    enabled: bool,
    admin_is_root: bool,
    target_exists: bool,
)
    ensures
        permission_update_outcome(name, enabled, admin_is_root, target_exists)
            == PermissionUpdateStep::Reject(
            AdminError::BadRequest(BadRequestReason::InvalidPermission),
        ) <==> permission_named(name) is None,
        permission_update_outcome(name, enabled, admin_is_root, target_exists)
            == PermissionUpdateStep::Reject(AdminError::Forbidden) <==> (permission_named(name)
            == Some(Permission::ManagePermissions) && !admin_is_root),
        permission_update_outcome(name, enabled, admin_is_root, target_exists)
            == PermissionUpdateStep::Reject(AdminError::NotFound) <==> (permission_named(name)
            is Some && !(permission_named(name) == Some(Permission::ManagePermissions)
            && !admin_is_root) && !target_exists),
{
}

} // verus!
