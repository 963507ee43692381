//! Authentication and user management: login and logout against the
//! session slot, and the administrator-gated account operations.

use vstd::prelude::*;
use crate::credential::{hash_password, spec_hash, spec_verify, verify_password};
use crate::db::{
    has_user_id, has_username, lemma_removed_id_not_found, lemma_user_id_index,
    lemma_username_index, opt_view, user_id_index, username_index, Database,
};
use crate::gate::{check_permission, spec_allowed, spec_has_cap, Capability};
use crate::models::{
    clone_opt_string, spec_admin_permissions, spec_permissions_from_role, spec_session_of,
    CreateUserRequest, HrmError, LoginRequest, UpdateUserRequest, User, UserInfo, UserPermissions,
    UserSession,
};
use crate::session::CurrentUser;
use crate::text::str_eq;

verus! {

/// The role names the system accepts on account creation.
pub open spec fn valid_role(role: Seq<char>) -> bool {
    ||| role == "admin"@
    ||| role == "hr_manager"@
    ||| role == "hr_staff"@
    ||| role == "viewer"@
    ||| role == "custom"@
}

fn valid_role_exec(role: &str) -> (r: bool)
    ensures
        r == valid_role(role@),
{
    str_eq(role, "admin") || str_eq(role, "hr_manager") || str_eq(role, "hr_staff") || str_eq(
        role,
        "viewer",
    ) || str_eq(role, "custom")
}

/// The permission set an account request carries: the explicit override
/// when present, else the set the role derives to. No check ties an
/// override back to the role; that is accepted behaviour.
pub open spec fn requested_permissions(
    explicit: Option<UserPermissions>,
    role: Seq<char>,
) -> UserPermissions {
    match explicit {
        Some(p) => p,
        None => spec_permissions_from_role(role),
    }
}

/// What the stored row of a freshly logged-in user must hold: the same
/// account, with the login time recorded.
pub open spec fn logged_in_user_matches(st: User, u: User, now: Seq<char>) -> bool {
    &&& st.id == u.id
    &&& st.username == u.username
    &&& st.password_hash == u.password_hash
    &&& st.full_name == u.full_name
    &&& st.role == u.role
    &&& st.department_access == u.department_access
    &&& st.is_active == u.is_active
    &&& st.permissions == u.permissions
    &&& st.created_at == u.created_at
    &&& opt_view(st.last_login) == Some(now)
}

/// Checks the credentials against the user table; on success stores a
/// copy of the account's identity and permissions in the session slot,
/// records the login time on the account, and returns the session. An
/// unknown username and a wrong password fail alike; a deactivated
/// account is reported as such before the password is checked.
pub fn login(
    db: &mut Database,
    current: &mut CurrentUser,
    request: LoginRequest,
    now: &str,
) -> (r: Result<UserSession, HrmError>)
    requires
        old(db).wf(),
    ensures
        final(db).wf(),
        final(db).employees() == old(db).employees(),
        final(db).audit_logs() == old(db).audit_logs(),
        final(db).spec_next_user_id() == old(db).spec_next_user_id(),
        final(db).spec_next_audit_id() == old(db).spec_next_audit_id(),
        ({
            let users = old(db).users();
            let has = has_username(users, request.username@);
            let at = username_index(users, request.username@);
            match r {
                Ok(sess) => {
                    let u = users[at];
                    &&& has
                    &&& u.is_active
                    &&& spec_verify(request.password@, u.password_hash@)
                    &&& sess == spec_session_of(u)
                    &&& exists|st: User|
                        logged_in_user_matches(st, u, now@) && final(db).users()
                            == #[trigger] users.update(at, st)
                    &&& final(current)@ == Some(sess)
                },
                Err(e) => {
                    &&& *final(db) == *old(db)
                    &&& final(current)@ == old(current)@
                    &&& ({
                        ||| (e == HrmError::InvalidCredentials && !has)
                        ||| (has && e == HrmError::AccountDisabled && !users[at].is_active)
                        ||| (has && e == HrmError::InvalidCredentials && users[at].is_active
                            && !spec_verify(request.password@, users[at].password_hash@))
                    })
                },
            }
        }),
{
    match db.find_user_by_name(request.username.as_str()) {
        None => Err(HrmError::InvalidCredentials),
        Some(i) => {
            proof {
                lemma_username_index(db.users(), request.username@, i as int);
            }
            let row = db.user_table()[i].clone();
            if !row.is_active {
                return Err(HrmError::AccountDisabled);
            }
            if !verify_password(request.password.as_str(), row.password_hash.as_str()) {
                return Err(HrmError::InvalidCredentials);
            }
            let sess = UserSession {
                user_id: row.id,
                username: row.username.clone(),
                full_name: row.full_name.clone(),
                role: row.role.clone(),
                department_access: clone_opt_string(&row.department_access),
                permissions: row.permissions,
            };
            let mut updated = row;
            updated.last_login = Some(String::from_str(now));
            db.replace_user_at(i, updated);
            current.set(sess.clone());
            Ok(sess)
        },
    }
}

/// Clears the session slot.
pub fn logout(current: &mut CurrentUser)
    ensures
        final(current)@ is None,
{
    current.clear();
}

/// A copy of the current session, if anyone is logged in.
pub fn get_current_user(current: &CurrentUser) -> (r: Option<UserSession>)
    ensures
        r == current@,
{
    current.get()
}

/// What a freshly created account must hold.
pub open spec fn created_user_matches(
    u: User,
    request: CreateUserRequest,
    id: int,
    now: Seq<char>,
) -> bool {
    &&& u.id == id
    &&& u.username == request.username
    &&& u.password_hash@ == spec_hash(request.password@)
    &&& u.full_name == request.full_name
    &&& u.role == request.role
    &&& u.department_access == request.department_access
    &&& u.is_active == true
    &&& u.permissions == requested_permissions(request.permissions, request.role@)
    &&& opt_view(u.created_at) == Some(now)
    &&& u.last_login is None
}

/// Creates a user account: requires the manage-users capability, rejects
/// an unknown role, rejects a taken username leaving the table unchanged,
/// and otherwise appends the account under the next id.
pub fn create_user(
    db: &mut Database,
    current: &CurrentUser,
    request: CreateUserRequest,
    now: &str,
) -> (r: Result<(), HrmError>)
    requires
        old(db).wf(),
        old(db).spec_next_user_id() < i32::MAX,
    ensures
        final(db).wf(),
        final(db).employees() == old(db).employees(),
        final(db).audit_logs() == old(db).audit_logs(),
        r is Ok <==> (spec_allowed(current@, Capability::ManageUsers) && valid_role(request.role@)
            && !has_username(old(db).users(), request.username@)),
        r is Ok ==> final(db).spec_next_user_id() == old(db).spec_next_user_id() + 1,
        final(db).spec_next_audit_id() == old(db).spec_next_audit_id(),
        r is Ok ==> exists|u: User|
            created_user_matches(u, request, old(db).spec_next_user_id(), now@) && final(db).users()
                == #[trigger] old(db).users().push(u),
        r is Err ==> *final(db) == *old(db),
        match r {
            Ok(_) => true,
            Err(e) => {
                ||| (e == HrmError::Unauthenticated && current@ is None)
                ||| (e == HrmError::PermissionDenied && current@ is Some && !spec_allowed(
                    current@,
                    Capability::ManageUsers,
                ))
                ||| (e == HrmError::ValidationError && spec_allowed(
                    current@,
                    Capability::ManageUsers,
                ) && !valid_role(request.role@))
                ||| (e == HrmError::DuplicateKey && spec_allowed(current@, Capability::ManageUsers)
                    && valid_role(request.role@) && has_username(
                    old(db).users(),
                    request.username@,
                ))
            },
        },
{
    let who = current.get();
    if let Err(e) = check_permission(&who, Capability::ManageUsers) {
        return Err(e);
    }
    if !valid_role_exec(request.role.as_str()) {
        return Err(HrmError::ValidationError);
    }
    if db.find_user_by_name(request.username.as_str()).is_some() {
        return Err(HrmError::DuplicateKey);
    }
    let password_hash = hash_password(request.password.as_str());
    let permissions = match request.permissions {
        Some(p) => p,
        None => UserPermissions::from_role(request.role.as_str()),
    };
    let id = db.next_id_for_user();
    let user = User {
        id,
        username: request.username,
        password_hash,
        full_name: request.full_name,
        role: request.role,
        department_access: request.department_access,
        is_active: true,
        permissions,
        created_at: Some(String::from_str(now)),
        last_login: None,
    };
    let ghost u = user;
    db.push_user(user);
    Ok(())
}

/// What an account listing row must hold: everything but the password
/// digest, which never leaves the store.
pub open spec fn user_info_matches(ui: UserInfo, u: User) -> bool {
    &&& ui.id == u.id
    &&& ui.username == u.username
    &&& ui.full_name == u.full_name
    &&& ui.role == u.role
    &&& ui.department_access == u.department_access
    &&& ui.is_active == u.is_active
    &&& ui.permissions == Some(u.permissions)
    &&& ui.created_at == u.created_at
    &&& ui.last_login == u.last_login
}

/// Lists every account in id order, for administrators.
pub fn get_all_users(db: &Database, current: &CurrentUser) -> (r: Result<Vec<UserInfo>, HrmError>)
    requires
        db.wf(),
    ensures
        match r {
            Ok(v) => spec_allowed(current@, Capability::ManageUsers) && v@.len()
                == db.users().len() && forall|k: int|
                0 <= k < v@.len() ==> user_info_matches(#[trigger] v@[k], db.users()[k]),
            Err(e) => {
                &&& !spec_allowed(current@, Capability::ManageUsers)
                &&& ((e == HrmError::Unauthenticated && current@ is None) || (e
                    == HrmError::PermissionDenied && current@ is Some))
            },
        },
{
    let who = current.get();
    if let Err(e) = check_permission(&who, Capability::ManageUsers) {
        return Err(e);
    }
    let rows = db.user_table();
    let n = rows.len();
    let mut out: Vec<UserInfo> = Vec::new();
    let mut i: usize = 0;
    while i < n
        invariant
            i <= n,
            n == db.users().len(),
            rows@ == db.users(),
            out@.len() == i,
            forall|k: int| 0 <= k < i ==> user_info_matches(#[trigger] out@[k], db.users()[k]),
        decreases n - i,
    {
        let u = &rows[i];
        out.push(
            UserInfo {
                id: u.id,
                username: u.username.clone(),
                full_name: u.full_name.clone(),
                role: u.role.clone(),
                department_access: clone_opt_string(&u.department_access),
                is_active: u.is_active,
                permissions: Some(u.permissions),
                created_at: clone_opt_string(&u.created_at),
                last_login: clone_opt_string(&u.last_login),
            },
        );
        i += 1;
    }
    Ok(out)
}

/// What an updated account must hold: the request's fields, with the id,
/// username, password digest and history kept.
pub open spec fn updated_user_matches(st: User, request: UpdateUserRequest, prev: User) -> bool {
    &&& st.id == prev.id
    &&& st.username == prev.username
    &&& st.password_hash == prev.password_hash
    &&& st.full_name == request.full_name
    &&& st.role == request.role
    &&& st.department_access == request.department_access
    &&& st.is_active == request.is_active
    &&& st.permissions == requested_permissions(request.permissions, request.role@)
    &&& st.created_at == prev.created_at
    &&& st.last_login == prev.last_login
}

/// Updates an account by id: requires the manage-users capability and
/// silently succeeds when the id misses.
pub fn update_user(
    db: &mut Database,
    current: &CurrentUser,
    request: UpdateUserRequest,
) -> (r: Result<(), HrmError>)
    requires
        old(db).wf(),
    ensures
        final(db).wf(),
        final(db).employees() == old(db).employees(),
        final(db).audit_logs() == old(db).audit_logs(),
        final(db).spec_next_user_id() == old(db).spec_next_user_id(),
        final(db).spec_next_audit_id() == old(db).spec_next_audit_id(),
        r is Ok <==> spec_allowed(current@, Capability::ManageUsers),
        r is Ok ==> ({
            let had = has_user_id(old(db).users(), request.user_id as int);
            let at = user_id_index(old(db).users(), request.user_id as int);
            &&& had ==> exists|st: User|
                updated_user_matches(st, request, old(db).users()[at]) && final(db).users()
                    == #[trigger] old(db).users().update(at, st)
            &&& !had ==> final(db).users() == old(db).users()
        }),
        r is Err ==> *final(db) == *old(db),
        match r {
            Ok(_) => true,
            Err(e) => {
                ||| (e == HrmError::Unauthenticated && current@ is None)
                ||| (e == HrmError::PermissionDenied && current@ is Some && !spec_allowed(
                    current@,
                    Capability::ManageUsers,
                ))
            },
        },
{
    let who = current.get();
    if let Err(e) = check_permission(&who, Capability::ManageUsers) {
        return Err(e);
    }
    let permissions = match request.permissions {
        Some(p) => p,
        None => UserPermissions::from_role(request.role.as_str()),
    };
    match db.find_user_by_id(request.user_id) {
        Some(i) => {
            proof {
                lemma_user_id_index(db.users(), request.user_id as int, i as int);
            }
            let prev = &db.user_table()[i];
            let updated = User {
                id: prev.id,
                username: prev.username.clone(),
                password_hash: prev.password_hash.clone(),
                full_name: request.full_name,
                role: request.role,
                department_access: request.department_access,
                is_active: request.is_active,
                permissions,
                created_at: clone_opt_string(&prev.created_at),
                last_login: clone_opt_string(&prev.last_login),
            };
            db.replace_user_at(i, updated);
            Ok(())
        },
        None => Ok(()),
    }
}

/// Deletes an account by id: requires the manage-users capability, never
/// deletes the operator's own account whatever their permissions, and
/// silently succeeds when the id misses. After a successful delete the id
/// is gone.
pub fn delete_user(db: &mut Database, current: &CurrentUser, user_id: i32) -> (r: Result<
    (),
    HrmError,
>)
    requires
        old(db).wf(),
    ensures
        final(db).wf(),
        final(db).employees() == old(db).employees(),
        final(db).audit_logs() == old(db).audit_logs(),
        final(db).spec_next_user_id() == old(db).spec_next_user_id(),
        final(db).spec_next_audit_id() == old(db).spec_next_audit_id(),
        r is Ok <==> (match current@ {
            Some(s) => spec_has_cap(s.permissions, Capability::ManageUsers) && s.user_id != user_id,
            None => false,
        }),
        r is Ok ==> ({
            let had = has_user_id(old(db).users(), user_id as int);
            let at = user_id_index(old(db).users(), user_id as int);
            &&& had ==> final(db).users() == old(db).users().remove(at)
            &&& !had ==> final(db).users() == old(db).users()
            &&& !has_user_id(final(db).users(), user_id as int)
        }),
        r is Err ==> *final(db) == *old(db),
        match r {
            Ok(_) => true,
            Err(e) => {
                ||| (e == HrmError::Unauthenticated && current@ is None)
                ||| (e == HrmError::PermissionDenied && current@ is Some && !spec_allowed(
                    current@,
                    Capability::ManageUsers,
                ))
                ||| (e == HrmError::SelfDeleteRejected && spec_allowed(
                    current@,
                    Capability::ManageUsers,
                ) && (match current@ {
                    Some(s) => s.user_id == user_id,
                    None => false,
                }))
            },
        },
{
    let who = current.get();
    if let Err(e) = check_permission(&who, Capability::ManageUsers) {
        return Err(e);
    }
    let current_user_id = match &who {
        Some(s) => s.user_id,
        None => 0,
    };
    if current_user_id == user_id {
        return Err(HrmError::SelfDeleteRejected);
    }
    match db.find_user_by_id(user_id) {
        Some(i) => {
            proof {
                lemma_user_id_index(db.users(), user_id as int, i as int);
            }
            db.remove_user_at(i);
            proof {
                lemma_removed_id_not_found(old(db).users(), i as int, user_id as int);
            }
            Ok(())
        },
        None => Ok(()),
    }
}

/// What an account with a reset password must hold: the same account
/// under a new digest.
pub open spec fn rehashed_user_matches(st: User, prev: User, password: Seq<char>) -> bool {
    &&& st.id == prev.id
    &&& st.username == prev.username
    &&& st.password_hash@ == spec_hash(password)
    &&& st.full_name == prev.full_name
    &&& st.role == prev.role
    &&& st.department_access == prev.department_access
    &&& st.is_active == prev.is_active
    &&& st.permissions == prev.permissions
    &&& st.created_at == prev.created_at
    &&& st.last_login == prev.last_login
}

/// Resets an account's password by id: requires the manage-users
/// capability, silently succeeds when the id misses.
pub fn reset_user_password(
    db: &mut Database,
    current: &CurrentUser,
    user_id: i32,
    new_password: String,
) -> (r: Result<(), HrmError>)
    requires
        old(db).wf(),
    ensures
        final(db).wf(),
        final(db).employees() == old(db).employees(),
        final(db).audit_logs() == old(db).audit_logs(),
        final(db).spec_next_user_id() == old(db).spec_next_user_id(),
        final(db).spec_next_audit_id() == old(db).spec_next_audit_id(),
        r is Ok <==> spec_allowed(current@, Capability::ManageUsers),
        r is Ok ==> ({
            let had = has_user_id(old(db).users(), user_id as int);
            let at = user_id_index(old(db).users(), user_id as int);
            &&& had ==> exists|st: User|
                rehashed_user_matches(st, old(db).users()[at], new_password@) && final(db).users()
                    == #[trigger] old(db).users().update(at, st)
            &&& !had ==> final(db).users() == old(db).users()
        }),
        r is Err ==> *final(db) == *old(db),
        match r {
            Ok(_) => true,
            Err(e) => {
                ||| (e == HrmError::Unauthenticated && current@ is None)
                ||| (e == HrmError::PermissionDenied && current@ is Some && !spec_allowed(
                    current@,
                    Capability::ManageUsers,
                ))
            },
        },
{
    let who = current.get();
    if let Err(e) = check_permission(&who, Capability::ManageUsers) {
        return Err(e);
    }
    match db.find_user_by_id(user_id) {
        Some(i) => {
            proof {
                lemma_user_id_index(db.users(), user_id as int, i as int);
            }
            let mut updated = db.user_table()[i].clone();
            updated.password_hash = hash_password(new_password.as_str());
            db.replace_user_at(i, updated);
            Ok(())
        },
        None => Ok(()),
    }
}

/// Changes the logged-in operator's own password: needs a session (but no
/// particular capability), the account still on file, and the current
/// password to verify.
pub fn change_own_password(
    db: &mut Database,
    current: &CurrentUser,
    current_password: String,
    new_password: String,
) -> (r: Result<(), HrmError>)
    requires
        old(db).wf(),
    ensures
        final(db).wf(),
        final(db).employees() == old(db).employees(),
        final(db).audit_logs() == old(db).audit_logs(),
        final(db).spec_next_user_id() == old(db).spec_next_user_id(),
        final(db).spec_next_audit_id() == old(db).spec_next_audit_id(),
        match current@ {
            None => r == Err::<(), HrmError>(HrmError::Unauthenticated) && *final(db) == *old(db),
            Some(s) => {
                let had = has_user_id(old(db).users(), s.user_id as int);
                let at = user_id_index(old(db).users(), s.user_id as int);
                match r {
                    Ok(_) => {
                        &&& had
                        &&& spec_verify(current_password@, old(db).users()[at].password_hash@)
                        &&& exists|st: User|
                            rehashed_user_matches(st, old(db).users()[at], new_password@)
                                && final(db).users() == #[trigger] old(db).users().update(at, st)
                    },
                    Err(e) => {
                        &&& *final(db) == *old(db)
                        &&& ((e == HrmError::NotFound && !had) || (e == HrmError::InvalidCredentials
                            && had && !spec_verify(
                            current_password@,
                            old(db).users()[at].password_hash@,
                        )))
                    },
                }
            },
        },
{
    let who = current.get();
    let user_id = match &who {
        Some(s) => s.user_id,
        None => {
            return Err(HrmError::Unauthenticated);
        },
    };
    match db.find_user_by_id(user_id) {
        None => Err(HrmError::NotFound),
        Some(i) => {
            proof {
                lemma_user_id_index(db.users(), user_id as int, i as int);
            }
            if !verify_password(
                current_password.as_str(),
                db.user_table()[i].password_hash.as_str(),
            ) {
                return Err(HrmError::InvalidCredentials);
            }
            let mut updated = db.user_table()[i].clone();
            updated.password_hash = hash_password(new_password.as_str());
            db.replace_user_at(i, updated);
            Ok(())
        },
    }
}

/// What the bootstrap administrator account must hold.
pub open spec fn default_admin_matches(u: User, id: int, now: Seq<char>) -> bool {
    &&& u.id == id
    &&& u.username@ == "admin"@
    &&& u.password_hash@ == spec_hash("admin123"@)
    &&& u.full_name@ == "System Administrator"@
    &&& u.role@ == "admin"@
    &&& u.department_access is None
    &&& u.is_active == true
    &&& u.permissions == spec_admin_permissions()
    &&& opt_view(u.created_at) == Some(now)
    &&& u.last_login is None
}

/// On first run, when the user table is empty, creates the bootstrap
/// administrator account (username `admin`, password `admin123`, to be
/// changed on first login). Otherwise changes nothing.
pub fn ensure_default_admin(db: &mut Database, now: &str) -> (created: bool)
    requires
        old(db).wf(),
        old(db).spec_next_user_id() < i32::MAX,
    ensures
        final(db).wf(),
        final(db).employees() == old(db).employees(),
        final(db).audit_logs() == old(db).audit_logs(),
        created == (old(db).users().len() == 0),
        created ==> final(db).spec_next_user_id() == old(db).spec_next_user_id() + 1,
        final(db).spec_next_audit_id() == old(db).spec_next_audit_id(),
        created ==> exists|u: User|
            default_admin_matches(u, old(db).spec_next_user_id(), now@) && final(db).users()
                == #[trigger] old(db).users().push(u),
        !created ==> *final(db) == *old(db),
{
    if db.user_table().len() > 0 {
        return false;
    }
    let id = db.next_id_for_user();
    let user = User {
        id,
        username: String::from_str("admin"),
        password_hash: hash_password("admin123"),
        full_name: String::from_str("System Administrator"),
        role: String::from_str("admin"),
        department_access: None,
        is_active: true,
        permissions: UserPermissions::admin(),
        created_at: Some(String::from_str(now)),
        last_login: None,
    };
    db.push_user(user);
    true
}

} // verus!
