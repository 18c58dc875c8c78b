use central_repository::entitlement::{
    apply_user_update, authorize_session_delete, authorize_user_delete, authorize_user_update,
    entitlements_visible_to, session_visible_to, user_can_write_format, Access, AccessLevel,
    Entitlement, UpdatableModel, User,
};
use central_repository::error::DatabaseQueryError;
use central_repository::records::{OutcomeKind, UploadSession};
use central_repository::schema::{ColumnKind, ColumnSchema, Format, FormatSchema};
use central_repository::search::SearchQuery;

fn user(id: u128, superuser: bool) -> User {
    User {
        id,
        username: format!("user{}", id),
        password: String::new(),
        is_superuser: superuser,
        active: true,
    }
}

fn format_named(id: i32, name: &str) -> Format {
    Format {
        id,
        name: name.to_string(),
        description: String::new(),
        created_at: 0,
        schema: FormatSchema(vec![ColumnSchema {
            name: "amount".to_string(),
            regex: None,
            kind: ColumnKind::Number,
        }]),
        retention_period_minutes: 0,
    }
}

fn read_access() -> Access {
    Access { read: true, write: false, limited_delete: false, delete: false }
}

fn entitlement(user_id: u128, format_id: i32, access: Access) -> Entitlement {
    Entitlement { user_id, format_id, created_at: 0, access }
}

fn empty_query() -> SearchQuery {
    SearchQuery { formats: None, upload_session: None, query: vec![] }
}

fn session_of(id: i32, format_id: i32, created_at: i64) -> UploadSession {
    UploadSession {
        id,
        created_at,
        record_count: 0,
        format_id,
        user_id: 9,
        outcome: OutcomeKind::Success,
        detail: String::new(),
    }
}

#[test]
fn superuser_sees_every_format() {
    let formats = vec![format_named(1, "a"), format_named(2, "b")];
    let p = empty_query().get_readable_formats_for_user(&user(1, true), &formats, &vec![]);
    assert_eq!(p.formats.len(), 2);
}

#[test]
fn regular_user_sees_only_read_entitled_formats() {
    let formats = vec![format_named(1, "a"), format_named(2, "b"), format_named(3, "c")];
    let ents = vec![
        entitlement(7, 1, read_access()),
        entitlement(7, 3, Access { read: false, write: true, limited_delete: false, delete: false }),
        entitlement(8, 2, read_access()),
    ];
    let p = empty_query().get_readable_formats_for_user(&user(7, false), &formats, &ents);
    let ids: Vec<i32> = p.formats.iter().map(|f| f.id).collect();
    assert_eq!(ids, vec![1]);
}

#[test]
fn id_filter_narrows_a_superuser_too() {
    let formats = vec![format_named(1, "a"), format_named(2, "b")];
    let query = SearchQuery { formats: Some(vec![2]), upload_session: None, query: vec![] };
    let p = query.get_readable_formats_for_user(&user(1, true), &formats, &vec![]);
    let ids: Vec<i32> = p.formats.iter().map(|f| f.id).collect();
    assert_eq!(ids, vec![2]);
}

#[test]
fn write_needs_a_write_entitlement() {
    let ents = vec![entitlement(7, 1, read_access())];
    assert!(!user_can_write_format(&user(7, false), &ents, 1));
    assert!(user_can_write_format(&user(1, true), &ents, 1));
    let ents2 = vec![entitlement(
        7,
        1,
        Access { read: false, write: true, limited_delete: false, delete: false },
    )];
    assert!(user_can_write_format(&user(7, false), &ents2, 1));
}

#[test]
fn full_delete_ignores_session_age() {
    let ents = vec![entitlement(
        7,
        1,
        Access { read: false, write: false, limited_delete: false, delete: true },
    )];
    let old_session = session_of(5, 1, 0);
    let now = 1_000_000_000;
    assert!(authorize_session_delete(&user(7, false), &ents, &old_session, now, 24).is_ok());
}

#[test]
fn limited_delete_respects_the_window() {
    let ents = vec![entitlement(
        7,
        1,
        Access { read: false, write: false, limited_delete: true, delete: false },
    )];
    let now = 1_000_000_000;
    let fresh = session_of(5, 1, now - 3600);
    let stale = session_of(6, 1, now - 25 * 3600);
    assert!(authorize_session_delete(&user(7, false), &ents, &fresh, now, 24).is_ok());
    assert_eq!(
        authorize_session_delete(&user(7, false), &ents, &stale, now, 24),
        Err(DatabaseQueryError::InsufficientPermissions)
    );
}

#[test]
fn no_delete_entitlement_is_denied() {
    let ents = vec![entitlement(7, 1, read_access())];
    let session = session_of(5, 1, 0);
    assert_eq!(
        authorize_session_delete(&user(7, false), &ents, &session, 10, 24),
        Err(DatabaseQueryError::InsufficientPermissions)
    );
    assert!(authorize_session_delete(&user(1, true), &ents, &session, 10, 24).is_ok());
}

#[test]
fn entitlement_listing_is_scoped_to_the_caller() {
    let ents = vec![
        entitlement(7, 1, read_access()),
        entitlement(8, 2, read_access()),
        entitlement(7, 3, read_access()),
    ];
    let mine = entitlements_visible_to(&user(7, false), &ents);
    assert_eq!(mine.len(), 2);
    assert!(mine.iter().all(|e| e.user_id == 7));
    let all = entitlements_visible_to(&user(1, true), &ents);
    assert_eq!(all.len(), 3);
}

#[test]
fn session_visibility_follows_any_entitlement() {
    let ents = vec![entitlement(7, 1, read_access())];
    let visible = session_of(5, 1, 0);
    let hidden = session_of(6, 2, 0);
    assert!(session_visible_to(&user(7, false), &ents, &visible));
    assert!(!session_visible_to(&user(7, false), &ents, &hidden));
    assert!(session_visible_to(&user(1, true), &ents, &hidden));
}

fn no_patch() -> UpdatableModel {
    UpdatableModel { username: None, password: None, is_superuser: None, active: None }
}

#[test]
fn users_may_update_themselves_but_not_sensitive_flags() {
    let alice = user(7, false);
    assert!(authorize_user_update(&alice, &alice, &no_patch(), true).is_ok());
    let promote = UpdatableModel { is_superuser: Some(true), ..no_patch() };
    assert!(authorize_user_update(&alice, &alice, &promote, true).is_err());
    let bob = user(8, false);
    assert!(authorize_user_update(&alice, &bob, &no_patch(), true).is_err());
    let admin = user(1, true);
    assert!(authorize_user_update(&admin, &bob, &promote, true).is_ok());
}

#[test]
fn protected_superusers_cannot_be_modified_or_deleted() {
    let admin = user(1, true);
    let other_admin = user(2, true);
    assert!(authorize_user_update(&admin, &other_admin, &no_patch(), true).is_err());
    assert!(authorize_user_update(&admin, &other_admin, &no_patch(), false).is_ok());
    assert!(authorize_user_delete(&admin, &other_admin, true).is_err());
    assert!(authorize_user_delete(&admin, &other_admin, false).is_ok());
}

#[test]
fn deletion_needs_an_admin_and_never_oneself() {
    let admin = user(1, true);
    let alice = user(7, false);
    assert!(authorize_user_delete(&alice, &admin, true).is_err());
    assert!(authorize_user_delete(&admin, &admin, true).is_err());
    assert!(authorize_user_delete(&admin, &alice, true).is_ok());
}

#[test]
fn update_merge_keeps_absent_fields() {
    let alice = user(7, false);
    let patch = UpdatableModel {
        username: Some("alicia".to_string()),
        password: None,
        is_superuser: None,
        active: Some(false),
    };
    let updated = apply_user_update(alice, patch);
    assert_eq!(updated.id, 7);
    assert_eq!(updated.username, "alicia");
    assert_eq!(updated.password, "");
    assert!(!updated.is_superuser);
    assert!(!updated.active);
}

#[test]
fn access_sets_report_their_levels() {
    let none = Access { read: false, write: false, limited_delete: false, delete: false };
    assert!(none.is_empty());
    let rw = Access { read: true, write: true, limited_delete: false, delete: false };
    assert!(!rw.is_empty());
    assert!(rw.contains(AccessLevel::Read));
    assert!(rw.contains(AccessLevel::Write));
    assert!(!rw.contains(AccessLevel::Delete));
    assert!(!rw.contains(AccessLevel::LimitedDelete));
}
