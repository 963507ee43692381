use hrm_system::auth::{
    change_own_password, create_user, delete_user, ensure_default_admin, get_all_users,
    get_current_user, login, logout, reset_user_password, update_user,
};
use hrm_system::db::Database;
use hrm_system::models::{
    CreateUserRequest, HrmError, LoginRequest, UpdateUserRequest, UserPermissions, UserSession,
};
use hrm_system::session::CurrentUser;

const NOW: &str = "2024-05-01 10:00:00";
const LATER: &str = "2024-05-02 09:30:00";

fn bootstrapped() -> Database {
    let mut db = Database::new();
    assert!(ensure_default_admin(&mut db, NOW));
    db
}

fn login_as(db: &mut Database, current: &mut CurrentUser, username: &str, password: &str) -> UserSession {
    login(
        db,
        current,
        LoginRequest { username: username.to_string(), password: password.to_string() },
        LATER,
    )
    .unwrap()
}

fn user_request(username: &str, role: &str, permissions: Option<UserPermissions>) -> CreateUserRequest {
    CreateUserRequest {
        username: username.to_string(),
        password: "pw".to_string(),
        full_name: format!("{} Person", username),
        role: role.to_string(),
        department_access: None,
        permissions,
    }
}

#[test]
fn first_run_creates_the_bootstrap_admin_once() {
    let mut db = Database::new();
    assert!(ensure_default_admin(&mut db, NOW));
    assert!(!ensure_default_admin(&mut db, NOW));
    let mut current = CurrentUser::new();
    let sess = login_as(&mut db, &mut current, "admin", "admin123");
    assert_eq!(sess.username, "admin");
    assert_eq!(sess.full_name, "System Administrator");
    assert_eq!(sess.role, "admin");
    assert_eq!(sess.permissions, UserPermissions::admin());
}

#[test]
fn login_fills_the_slot_and_records_the_time() {
    let mut db = bootstrapped();
    let mut current = CurrentUser::new();
    assert!(get_current_user(&current).is_none());
    let sess = login_as(&mut db, &mut current, "admin", "admin123");
    let held = get_current_user(&current).unwrap();
    assert_eq!(held.user_id, sess.user_id);
    assert_eq!(held.username, "admin");
    let listing = get_all_users(&db, &current).unwrap();
    assert_eq!(listing[0].last_login.as_deref(), Some(LATER));
    logout(&mut current);
    assert!(get_current_user(&current).is_none());
}

#[test]
fn login_rejects_wrong_password_and_unknown_user_alike() {
    let mut db = bootstrapped();
    let mut current = CurrentUser::new();
    let wrong = login(
        &mut db,
        &mut current,
        LoginRequest { username: "admin".to_string(), password: "nope".to_string() },
        LATER,
    );
    assert_eq!(wrong.unwrap_err(), HrmError::InvalidCredentials);
    let unknown = login(
        &mut db,
        &mut current,
        LoginRequest { username: "ghost".to_string(), password: "admin123".to_string() },
        LATER,
    );
    assert_eq!(unknown.unwrap_err(), HrmError::InvalidCredentials);
    assert!(get_current_user(&current).is_none());
}

#[test]
fn login_reports_a_deactivated_account() {
    let mut db = bootstrapped();
    let mut current = CurrentUser::new();
    let admin_sess = login_as(&mut db, &mut current, "admin", "admin123");
    assert!(create_user(&mut db, &current, user_request("maya", "viewer", None), NOW).is_ok());
    // deactivate the account
    let users = get_all_users(&db, &current).unwrap();
    let maya = users.iter().find(|u| u.username == "maya").unwrap();
    assert!(update_user(
        &mut db,
        &current,
        UpdateUserRequest {
            user_id: maya.id,
            full_name: maya.full_name.clone(),
            role: maya.role.clone(),
            department_access: None,
            is_active: false,
            permissions: None,
        },
    )
    .is_ok());
    let mut other = CurrentUser::new();
    let r = login(
        &mut db,
        &mut other,
        LoginRequest { username: "maya".to_string(), password: "pw".to_string() },
        LATER,
    );
    assert_eq!(r.unwrap_err(), HrmError::AccountDisabled);
    assert_eq!(admin_sess.username, "admin");
}

#[test]
fn create_user_without_the_capability_inserts_nothing() {
    let mut db = bootstrapped();
    let mut current = CurrentUser::new();
    login_as(&mut db, &mut current, "admin", "admin123");
    // a session without manage rights, permissions granted at login time
    let mut limited = CurrentUser::new();
    limited.set(UserSession {
        user_id: 99,
        username: "limited".to_string(),
        full_name: "Limited".to_string(),
        role: "viewer".to_string(),
        department_access: None,
        permissions: UserPermissions::viewer(),
    });
    let r = create_user(&mut db, &limited, user_request("eve", "viewer", None), NOW);
    assert_eq!(r, Err(HrmError::PermissionDenied));
    let listing = get_all_users(&db, &current).unwrap();
    assert_eq!(listing.len(), 1);
    // without any session the same call is unauthenticated
    let nobody = CurrentUser::new();
    let r = create_user(&mut db, &nobody, user_request("eve", "viewer", None), NOW);
    assert_eq!(r, Err(HrmError::Unauthenticated));
}

#[test]
fn create_user_validates_role_and_username() {
    let mut db = bootstrapped();
    let mut current = CurrentUser::new();
    login_as(&mut db, &mut current, "admin", "admin123");
    assert_eq!(
        create_user(&mut db, &current, user_request("eve", "boss", None), NOW),
        Err(HrmError::ValidationError)
    );
    assert!(create_user(&mut db, &current, user_request("eve", "hr_staff", None), NOW).is_ok());
    assert_eq!(
        create_user(&mut db, &current, user_request("eve", "viewer", None), NOW),
        Err(HrmError::DuplicateKey)
    );
    let listing = get_all_users(&db, &current).unwrap();
    assert_eq!(listing.len(), 2);
    let eve = listing.iter().find(|u| u.username == "eve").unwrap();
    assert_eq!(eve.role, "hr_staff");
    assert_eq!(eve.permissions, Some(UserPermissions::hr_staff()));
    assert!(eve.is_active);
    assert_eq!(eve.created_at.as_deref(), Some(NOW));
}

#[test]
fn an_explicit_permission_override_wins_over_the_role() {
    let mut db = bootstrapped();
    let mut current = CurrentUser::new();
    login_as(&mut db, &mut current, "admin", "admin123");
    let all = UserPermissions::admin();
    assert!(create_user(&mut db, &current, user_request("eve", "viewer", Some(all)), NOW).is_ok());
    let listing = get_all_users(&db, &current).unwrap();
    let eve = listing.iter().find(|u| u.username == "eve").unwrap();
    assert_eq!(eve.permissions, Some(all));
}

#[test]
fn admins_cannot_delete_their_own_account() {
    let mut db = bootstrapped();
    let mut current = CurrentUser::new();
    let sess = login_as(&mut db, &mut current, "admin", "admin123");
    assert!(create_user(&mut db, &current, user_request("eve", "viewer", None), NOW).is_ok());
    let r = delete_user(&mut db, &current, sess.user_id);
    assert_eq!(r, Err(HrmError::SelfDeleteRejected));
    let listing = get_all_users(&db, &current).unwrap();
    assert_eq!(listing.len(), 2);
    // any other account deletes fine
    let eve_id = listing.iter().find(|u| u.username == "eve").unwrap().id;
    assert!(delete_user(&mut db, &current, eve_id).is_ok());
    assert_eq!(get_all_users(&db, &current).unwrap().len(), 1);
}

#[test]
fn listing_users_needs_the_manage_capability() {
    let db = bootstrapped();
    let nobody = CurrentUser::new();
    assert_eq!(get_all_users(&db, &nobody).unwrap_err(), HrmError::Unauthenticated);
}

#[test]
fn password_reset_takes_effect_at_next_login() {
    let mut db = bootstrapped();
    let mut current = CurrentUser::new();
    login_as(&mut db, &mut current, "admin", "admin123");
    assert!(create_user(&mut db, &current, user_request("eve", "viewer", None), NOW).is_ok());
    let eve_id = get_all_users(&db, &current)
        .unwrap()
        .iter()
        .find(|u| u.username == "eve")
        .unwrap()
        .id;
    assert!(reset_user_password(&mut db, &current, eve_id, "fresh".to_string()).is_ok());
    let mut other = CurrentUser::new();
    let stale = login(
        &mut db,
        &mut other,
        LoginRequest { username: "eve".to_string(), password: "pw".to_string() },
        LATER,
    );
    assert_eq!(stale.unwrap_err(), HrmError::InvalidCredentials);
    let fresh = login_as(&mut db, &mut other, "eve", "fresh");
    assert_eq!(fresh.username, "eve");
}

#[test]
fn changing_ones_own_password_checks_the_old_one() {
    let mut db = bootstrapped();
    let mut current = CurrentUser::new();
    login_as(&mut db, &mut current, "admin", "admin123");
    assert_eq!(
        change_own_password(&mut db, &current, "wrong".to_string(), "next".to_string()),
        Err(HrmError::InvalidCredentials)
    );
    assert!(change_own_password(&mut db, &current, "admin123".to_string(), "next".to_string()).is_ok());
    let mut other = CurrentUser::new();
    let sess = login_as(&mut db, &mut other, "admin", "next");
    assert_eq!(sess.username, "admin");
    // with no session the call is unauthenticated
    let nobody = CurrentUser::new();
    assert_eq!(
        change_own_password(&mut db, &nobody, "next".to_string(), "x".to_string()),
        Err(HrmError::Unauthenticated)
    );
}

#[test]
fn permission_edits_do_not_touch_open_sessions() {
    let mut db = bootstrapped();
    let mut current = CurrentUser::new();
    login_as(&mut db, &mut current, "admin", "admin123");
    assert!(create_user(
        &mut db,
        &current,
        user_request("mgr", "hr_manager", None),
        NOW
    )
    .is_ok());
    let mut mgr_slot = CurrentUser::new();
    let mgr_sess = login_as(&mut db, &mut mgr_slot, "mgr", "pw");
    assert!(mgr_sess.permissions.can_add_employees);
    // demote the manager while their session is open
    let mgr_id = mgr_sess.user_id;
    assert!(update_user(
        &mut db,
        &current,
        UpdateUserRequest {
            user_id: mgr_id,
            full_name: "mgr Person".to_string(),
            role: "viewer".to_string(),
            department_access: None,
            is_active: true,
            permissions: None,
        },
    )
    .is_ok());
    // the open session still carries the permissions copied at login
    let held = get_current_user(&mgr_slot).unwrap();
    assert!(held.permissions.can_add_employees);
    // a fresh login picks up the new set
    let mut fresh = CurrentUser::new();
    let new_sess = login_as(&mut db, &mut fresh, "mgr", "pw");
    assert!(!new_sess.permissions.can_add_employees);
}

#[test]
fn update_of_a_missing_user_silently_succeeds() {
    let mut db = bootstrapped();
    let mut current = CurrentUser::new();
    login_as(&mut db, &mut current, "admin", "admin123");
    assert!(update_user(
        &mut db,
        &current,
        UpdateUserRequest {
            user_id: 4040,
            full_name: "Ghost".to_string(),
            role: "viewer".to_string(),
            department_access: None,
            is_active: true,
            permissions: None,
        },
    )
    .is_ok());
    assert!(delete_user(&mut db, &current, 4040).is_ok());
    assert!(reset_user_password(&mut db, &current, 4040, "x".to_string()).is_ok());
    assert_eq!(get_all_users(&db, &current).unwrap().len(), 1);
}
