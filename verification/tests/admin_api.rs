use memebucket_server::admin_api::{
    begin_access_check, begin_permission_update, begin_role_update, finish_access_check,
    permission_update_target_found, role_update_root_checked, role_update_target_found,
    role_write_follow_up, role_write_uses_transaction, AccessCheck, PermissionUpdateStep,
    RoleUpdateStep, TransactionEnd, UpdatePermissionRequest, UpdateRoleRequest,
    LIST_USERS_PERMISSION, VIEW_STATS_PERMISSION,
};
use memebucket_server::errors::{AdminError, BadRequestReason, ServerFault};
use memebucket_server::permissions::{all_permissions, Permission, PermissionNames};
use memebucket_server::roles::{effective_role, normalize_role};
use memebucket_server::users::{
    has_configured_identity, identities_from_rows, map_user, mask_provider_user_id, plan_user_search,
    raw_discord_search_key, record_id_from_text, AdminUserRecord, RecordId, StoredIdentity,
};

fn role_request(role: &str) -> UpdateRoleRequest {
    UpdateRoleRequest { role: role.to_string() }
}

fn permission_request(permission: &str, enabled: bool) -> UpdatePermissionRequest {
    UpdatePermissionRequest { permission: permission.to_string(), enabled }
}

#[test]
fn admin_user_debug_output_redacts_provider_ids() {
    let provider_user_id = "discord-provider-id-9876543210";
    let record = AdminUserRecord {
        id: RecordId(0x0123_4567_89ab_cdef_0123_4567_89ab_cdef),
        username: Some("admin".to_string()),
        display_name: Some("Admin".to_string()),
        role: "admin".to_string(),
        identities: vec![StoredIdentity {
            id: RecordId(7),
            provider: "discord".to_string(),
            provider_user_id: provider_user_id.to_string(),
            display_name: None,
            avatar_url: None,
        }],
        permissions: PermissionNames::new(),
    };

    let debug_output = format!("{:?}", record.summary());

    assert!(!debug_output.contains(provider_user_id));
    assert!(debug_output.contains("identity_count: 1"));
}

#[test]
fn normalize_role_keeps_only_exact_admin() {
    assert_eq!(normalize_role("admin"), "admin");
    assert_eq!(normalize_role("user"), "user");
    assert_eq!(normalize_role("Admin"), "user");
    assert_eq!(normalize_role(" admin"), "user");
    assert_eq!(normalize_role(""), "user");
}

#[test]
fn effective_role_makes_root_admins_admin() {
    assert_eq!(effective_role("user", true), "admin");
    assert_eq!(effective_role("garbage", true), "admin");
    assert_eq!(effective_role("admin", false), "admin");
    assert_eq!(effective_role("user", false), "user");
    assert_eq!(effective_role("moderator", false), "user");
}

#[test]
fn mask_keeps_provider_and_last_four_characters() {
    assert_eq!(mask_provider_user_id("discord", "9876543210"), "discord:****3210");
    assert_eq!(mask_provider_user_id("github", "12345"), "github:****2345");
}

#[test]
fn mask_hides_ids_of_four_characters_or_fewer() {
    assert_eq!(mask_provider_user_id("discord", "1234"), "discord:****");
    assert_eq!(mask_provider_user_id("discord", "12"), "discord:****");
    assert_eq!(mask_provider_user_id("discord", ""), "discord:****");
}

#[test]
fn mask_counts_characters_not_bytes() {
    assert_eq!(mask_provider_user_id("x", "αβγδεζ"), "x:****γδεζ");
    assert_eq!(mask_provider_user_id("x", "αβγδ"), "x:****");
}

fn fake_key(secret: &[u8], raw_id: &str) -> String {
    format!("{}|{}", String::from_utf8_lossy(secret), raw_id)
}

#[test]
fn discord_prefixed_query_is_keyed_on_the_id() {
    assert_eq!(
        raw_discord_search_key("  discord:12345  ", "secret", fake_key),
        Some("secret|12345".to_string())
    );
    assert_eq!(
        raw_discord_search_key("discord:someone", "s", fake_key),
        Some("s|someone".to_string())
    );
    assert_eq!(raw_discord_search_key("discord:", "s", fake_key), Some("s|".to_string()));
}

#[test]
fn digit_query_is_a_discord_search() {
    assert_eq!(raw_discord_search_key("0042", "k", fake_key), Some("k|0042".to_string()));
}

#[test]
fn other_queries_have_no_discord_key() {
    assert_eq!(raw_discord_search_key("alice", "k", fake_key), None);
    assert_eq!(raw_discord_search_key("12a", "k", fake_key), None);
    assert_eq!(raw_discord_search_key("   ", "k", fake_key), None);
    assert_eq!(raw_discord_search_key("Discord:12", "k", fake_key), None);
}

#[test]
fn empty_secret_gives_no_discord_key() {
    assert_eq!(raw_discord_search_key("discord:12345", "", fake_key), None);
    assert_eq!(raw_discord_search_key("12345", "", fake_key), None);
}

#[test]
fn user_search_trims_and_wraps_query() {
    let search = plan_user_search(Some("  permission-user \n"), 50);
    assert_eq!(search.pattern, Some("%permission-user%".to_string()));
    assert_eq!(search.limit, 50);
}

#[test]
fn user_search_without_text_lists_everyone() {
    assert_eq!(plan_user_search(None, 10).pattern, None);
    assert_eq!(plan_user_search(Some("   "), 10).pattern, None);
    assert_eq!(plan_user_search(Some(""), 10).pattern, None);
}

#[test]
fn user_search_limit_is_clamped() {
    assert_eq!(plan_user_search(None, 0).limit, 1);
    assert_eq!(plan_user_search(None, -7).limit, 1);
    assert_eq!(plan_user_search(None, 1).limit, 1);
    assert_eq!(plan_user_search(None, 49).limit, 49);
    assert_eq!(plan_user_search(None, 51).limit, 50);
    assert_eq!(plan_user_search(None, i64::MAX).limit, 50);
}

#[test]
fn permission_names_round_trip() {
    for permission in all_permissions() {
        assert_eq!(Permission::from_name(permission.name()), Some(permission));
    }
    assert_eq!(Permission::from_name("not_a_permission"), None);
    assert_eq!(Permission::from_name("Upload_local_images"), None);
    assert_eq!(
        all_permissions(),
        vec![
            Permission::UploadLocalImages,
            Permission::ViewAdminStats,
            Permission::ManagePermissions
        ]
    );
}

#[test]
fn permission_names_collapse_duplicates() {
    let names = PermissionNames::from_names(vec![
        "upload_local_images".to_string(),
        "upload_local_images".to_string(),
        "view_admin_stats".to_string(),
    ]);
    assert_eq!(names.len(), 2);
    assert!(names.contains("upload_local_images"));
    assert!(names.contains("view_admin_stats"));
    assert!(!names.contains("manage_permissions"));
    assert!(!names.is_empty());
    assert!(PermissionNames::new().is_empty());
    assert!(PermissionNames::from_names(Vec::new()).is_empty());
}

#[test]
fn root_admin_skips_permission_lookup() {
    assert_eq!(begin_access_check(true, VIEW_STATS_PERMISSION), AccessCheck::Granted);
    assert_eq!(
        begin_access_check(false, VIEW_STATS_PERMISSION),
        AccessCheck::LookUpPermission(Permission::ViewAdminStats)
    );
    assert_eq!(
        begin_access_check(false, LIST_USERS_PERMISSION),
        AccessCheck::LookUpPermission(Permission::ManagePermissions)
    );
}

#[test]
fn stats_access_for_normal_admin_depends_on_view_permission() {
    let check = begin_access_check(false, VIEW_STATS_PERMISSION);
    assert_eq!(check, AccessCheck::LookUpPermission(Permission::ViewAdminStats));
    assert_eq!(finish_access_check(false), Err(AdminError::Forbidden));
    assert_eq!(finish_access_check(true), Ok(()));
}

#[test]
fn discord_spellings_of_one_id_share_a_key() {
    let prefixed = raw_discord_search_key("discord:123456789", "secret", fake_key);
    let plain = raw_discord_search_key("123456789", "secret", fake_key);
    let spaced = raw_discord_search_key("  123456789  ", "secret", fake_key);
    assert!(prefixed.is_some());
    assert_eq!(prefixed, plain);
    assert_eq!(plain, spaced);
}

#[test]
fn configured_identity_is_found_among_linked_identities() {
    let identity = |provider: &str, id: &str| StoredIdentity {
        id: RecordId(1),
        provider: provider.to_string(),
        provider_user_id: id.to_string(),
        display_name: None,
        avatar_url: None,
    };
    let identities = vec![identity("github", "octo"), identity("discord", "root-id")];
    let root = |provider: &String, id: &String| provider == "discord" && id == "root-id";
    assert!(has_configured_identity(&identities, root));
    assert!(!has_configured_identity(&vec![identity("github", "octo")], root));
    assert!(!has_configured_identity(&Vec::new(), root));
}

#[test]
fn role_update_rejects_unknown_role_first() {
    let step = begin_role_update(&role_request("owner"), false);
    assert_eq!(step, RoleUpdateStep::Reject(AdminError::BadRequest(BadRequestReason::InvalidRole)));
    let error = AdminError::BadRequest(BadRequestReason::InvalidRole);
    assert_eq!(error.message(), Some("role must be user or admin"));
}

#[test]
fn role_update_needs_root_admin() {
    assert_eq!(
        begin_role_update(&role_request("admin"), false),
        RoleUpdateStep::Reject(AdminError::Forbidden)
    );
    assert_eq!(begin_role_update(&role_request("user"), true), RoleUpdateStep::LookUpTarget);
}

#[test]
fn role_update_missing_target_is_not_found() {
    assert_eq!(
        role_update_target_found(&role_request("admin"), false),
        RoleUpdateStep::Reject(AdminError::NotFound)
    );
}

#[test]
fn demotion_checks_root_admin_and_promotion_writes() {
    assert_eq!(
        role_update_target_found(&role_request("user"), true),
        RoleUpdateStep::CheckTargetRootAdmin
    );
    assert_eq!(role_update_target_found(&role_request("admin"), true), RoleUpdateStep::WriteRole);
    assert_eq!(role_update_root_checked(true), RoleUpdateStep::Reject(AdminError::Forbidden));
    assert_eq!(role_update_root_checked(false), RoleUpdateStep::WriteRole);
}

#[test]
fn permission_update_rejects_unknown_permission() {
    let step = begin_permission_update(&permission_request("not_a_permission", true), true);
    assert_eq!(
        step,
        PermissionUpdateStep::Reject(AdminError::BadRequest(BadRequestReason::InvalidPermission))
    );
    assert_eq!(
        AdminError::BadRequest(BadRequestReason::InvalidPermission).message(),
        Some("invalid permission")
    );
}

#[test]
fn only_root_admin_changes_manage_permissions() {
    assert_eq!(
        begin_permission_update(&permission_request("manage_permissions", true), false),
        PermissionUpdateStep::Reject(AdminError::Forbidden)
    );
    assert_eq!(
        begin_permission_update(&permission_request("manage_permissions", false), true),
        PermissionUpdateStep::LookUpTarget(Permission::ManagePermissions)
    );
    assert_eq!(
        begin_permission_update(&permission_request("upload_local_images", true), false),
        PermissionUpdateStep::LookUpTarget(Permission::UploadLocalImages)
    );
}

#[test]
fn permission_update_writes_for_existing_target() {
    assert_eq!(
        permission_update_target_found(Permission::ViewAdminStats, true, true),
        PermissionUpdateStep::WritePermission(Permission::ViewAdminStats, true)
    );
    assert_eq!(
        permission_update_target_found(Permission::ViewAdminStats, false, false),
        PermissionUpdateStep::Reject(AdminError::NotFound)
    );
}

#[test]
fn promoting_to_admin_grants_every_permission_in_one_transaction() {
    assert!(role_write_uses_transaction("admin"));
    assert!(!role_write_uses_transaction("user"));
    let follow_up = role_write_follow_up("admin", 1);
    assert!(follow_up.updated);
    assert_eq!(follow_up.grants, all_permissions());
    assert_eq!(follow_up.end, TransactionEnd::Commit);
}

#[test]
fn promoting_missing_user_rolls_back() {
    let follow_up = role_write_follow_up("admin", 0);
    assert!(!follow_up.updated);
    assert!(follow_up.grants.is_empty());
    assert_eq!(follow_up.end, TransactionEnd::Rollback);
}

#[test]
fn plain_role_write_grants_nothing() {
    let follow_up = role_write_follow_up("user", 1);
    assert!(follow_up.updated);
    assert!(follow_up.grants.is_empty());
    assert_eq!(follow_up.end, TransactionEnd::NoTransaction);
    assert!(!role_write_follow_up("user", 0).updated);
}

#[test]
fn stats_unavailable_message() {
    assert_eq!(
        AdminError::InternalServerError(ServerFault::StatsUnavailable).message(),
        Some("admin stats unavailable")
    );
    assert_eq!(AdminError::Forbidden.message(), None);
    assert_eq!(AdminError::NotFound.message(), None);
}

#[test]
fn record_ids_read_uuid_text() {
    let id = record_id_from_text("a1a2a3a4-b1b2-c1c2-d1d2-d3d4d5d6d7d8").unwrap();
    assert_eq!(id, RecordId(0xa1a2a3a4b1b2c1c2d1d2d3d4d5d6d7d8));
    assert!(record_id_from_text("not-a-uuid").is_err());
}

#[test]
fn identity_rows_are_read_until_a_bad_id() {
    let rows = vec![
        (
            "00000000-0000-0000-0000-000000000001".to_string(),
            "discord".to_string(),
            "123456789".to_string(),
            Some("Name".to_string()),
            None,
        ),
        (
            "00000000-0000-0000-0000-000000000002".to_string(),
            "github".to_string(),
            "octo".to_string(),
            None,
            Some("https://example.com/a.png".to_string()),
        ),
    ];
    let identities = identities_from_rows(&rows).unwrap();
    assert_eq!(identities.len(), 2);
    assert_eq!(identities[0].id, RecordId(1));
    assert_eq!(identities[0].provider, "discord");
    assert_eq!(identities[0].provider_user_id, "123456789");
    assert_eq!(identities[0].display_name, Some("Name".to_string()));
    assert_eq!(identities[1].id, RecordId(2));
    assert_eq!(identities[1].avatar_url, Some("https://example.com/a.png".to_string()));

    let mut bad = rows.clone();
    bad.push(("nope".to_string(), "x".to_string(), "y".to_string(), None, None));
    assert!(identities_from_rows(&bad).is_err());
}

#[test]
fn map_user_shows_uuid_role_masks_and_flags() {
    let record = AdminUserRecord {
        id: RecordId(0xa1a2a3a4b1b2c1c2d1d2d3d4d5d6d7d8),
        username: Some("alice".to_string()),
        display_name: None,
        role: "user".to_string(),
        identities: vec![StoredIdentity {
            id: RecordId(9),
            provider: "discord".to_string(),
            provider_user_id: "9876543210".to_string(),
            display_name: None,
            avatar_url: None,
        }],
        permissions: PermissionNames::from_names(vec!["view_admin_stats".to_string()]),
    };
    let response = map_user(record, true);
    assert_eq!(response.id, "a1a2a3a4-b1b2-c1c2-d1d2-d3d4d5d6d7d8");
    assert_eq!(response.username, Some("alice".to_string()));
    assert_eq!(response.display_name, None);
    assert_eq!(response.role, "admin");
    assert!(response.is_root_admin);
    assert_eq!(response.identities.len(), 1);
    assert_eq!(response.identities[0].provider, "discord");
    assert_eq!(response.identities[0].masked_id, "discord:****3210");
    assert!(!response.permissions.upload_local_images);
    assert!(response.permissions.view_admin_stats);
    assert!(!response.permissions.manage_permissions);
}

#[test]
fn map_user_pads_small_ids() {
    let record = AdminUserRecord {
        id: RecordId(1),
        username: None,
        display_name: Some("Bob".to_string()),
        role: "admin".to_string(),
        identities: Vec::new(),
        permissions: PermissionNames::new(),
    };
    let response = map_user(record, false);
    assert_eq!(response.id, "00000000-0000-0000-0000-000000000001");
    assert_eq!(response.role, "admin");
    assert!(response.identities.is_empty());
}
