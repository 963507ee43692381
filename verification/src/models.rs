//! Data model: the entities the system stores (employees, users, audit
//! log entries), the request and result shapes of its operations, the
//! permission sets and the fixed role table that derives them, and the
//! error taxonomy.

use vstd::prelude::*;
use crate::text::str_eq;

verus! {

/// The eleven independent capabilities a user may hold.
#[derive(Clone, Copy, PartialEq, Eq, Structural, Debug)]
pub struct UserPermissions {
    pub can_view_employees: bool,
    pub can_add_employees: bool,
    pub can_edit_employees: bool,
    pub can_delete_employees: bool,
    pub can_manage_users: bool,
    pub can_view_all_departments: bool,
    pub can_export_data: bool,
    pub can_view_reports: bool,
    pub can_manage_settings: bool,
    pub can_backup_database: bool,
    pub can_view_audit_logs: bool,
}

/// The permission set granted to administrators: every capability.
pub open spec fn spec_admin_permissions() -> UserPermissions {
    UserPermissions {
        can_view_employees: true,
        can_add_employees: true,
        can_edit_employees: true,
        can_delete_employees: true,
        can_manage_users: true,
        can_view_all_departments: true,
        can_export_data: true,
        can_view_reports: true,
        can_manage_settings: true,
        can_backup_database: true,
        can_view_audit_logs: true,
    }
}

/// The permission set granted to HR managers.
pub open spec fn spec_hr_manager_permissions() -> UserPermissions {
    UserPermissions {
        can_view_employees: true,
        can_add_employees: true,
        can_edit_employees: true,
        can_delete_employees: true,
        can_manage_users: false,
        can_view_all_departments: true,
        can_export_data: true,
        can_view_reports: true,
        can_manage_settings: false,
        can_backup_database: false,
        can_view_audit_logs: false,
    }
}

/// The permission set granted to HR staff.
pub open spec fn spec_hr_staff_permissions() -> UserPermissions {
    UserPermissions {
        can_view_employees: true,
        can_add_employees: true,
        can_edit_employees: false,
        can_delete_employees: false,
        can_manage_users: false,
        can_view_all_departments: false,
        can_export_data: false,
        can_view_reports: false,
        can_manage_settings: false,
        can_backup_database: false,
        can_view_audit_logs: false,
    }
}

/// The permission set granted to viewers, and the default for any role
/// outside the fixed table: read-only access to employee records.
pub open spec fn spec_viewer_permissions() -> UserPermissions {
    UserPermissions {
        can_view_employees: true,
        can_add_employees: false,
        can_edit_employees: false,
        can_delete_employees: false,
        can_manage_users: false,
        can_view_all_departments: false,
        can_export_data: false,
        can_view_reports: false,
        can_manage_settings: false,
        can_backup_database: false,
        can_view_audit_logs: false,
    }
}

/// The fixed role table: what permission set each role name derives to.
/// Role names outside the table derive to the viewer set.
pub open spec fn spec_permissions_from_role(role: Seq<char>) -> UserPermissions {
    if role == "admin"@ {
        spec_admin_permissions()
    } else if role == "hr_manager"@ {
        spec_hr_manager_permissions()
    } else if role == "hr_staff"@ {
        spec_hr_staff_permissions()
    } else {
        spec_viewer_permissions()
    }
}

impl Default for UserPermissions {
    /// The default permission set equals the viewer set.
    fn default() -> (r: Self)
        ensures
            r == spec_viewer_permissions(),
    {
        UserPermissions {
            can_view_employees: true,
            can_add_employees: false,
            can_edit_employees: false,
            can_delete_employees: false,
            can_manage_users: false,
            can_view_all_departments: false,
            can_export_data: false,
            can_view_reports: false,
            can_manage_settings: false,
            can_backup_database: false,
            can_view_audit_logs: false,
        }
    }
}

impl UserPermissions {
    pub fn admin() -> (r: Self)
        ensures
            r == spec_admin_permissions(),
    {
        UserPermissions {
            can_view_employees: true,
            can_add_employees: true,
            can_edit_employees: true,
            can_delete_employees: true,
            can_manage_users: true,
            can_view_all_departments: true,
            can_export_data: true,
            can_view_reports: true,
            can_manage_settings: true,
            can_backup_database: true,
            can_view_audit_logs: true,
        }
    }

    pub fn hr_manager() -> (r: Self)
        ensures
            r == spec_hr_manager_permissions(),
    {
        UserPermissions {
            can_view_employees: true,
            can_add_employees: true,
            can_edit_employees: true,
            can_delete_employees: true,
            can_manage_users: false,
            can_view_all_departments: true,
            can_export_data: true,
            can_view_reports: true,
            can_manage_settings: false,
            can_backup_database: false,
            can_view_audit_logs: false,
        }
    }

    pub fn hr_staff() -> (r: Self)
        ensures
            r == spec_hr_staff_permissions(),
    {
        UserPermissions {
            can_view_employees: true,
            can_add_employees: true,
            can_edit_employees: false,
            can_delete_employees: false,
            can_manage_users: false,
            can_view_all_departments: false,
            can_export_data: false,
            can_view_reports: false,
            can_manage_settings: false,
            can_backup_database: false,
            can_view_audit_logs: false,
        }
    }

    pub fn viewer() -> (r: Self)
        ensures
            r == spec_viewer_permissions(),
    {
        UserPermissions {
            can_view_employees: true,
            can_add_employees: false,
            can_edit_employees: false,
            can_delete_employees: false,
            can_manage_users: false,
            can_view_all_departments: false,
            can_export_data: false,
            can_view_reports: false,
            can_manage_settings: false,
            can_backup_database: false,
            can_view_audit_logs: false,
        }
    }

    /// Derives the permission set for a role name from the fixed table.
    pub fn from_role(role: &str) -> (r: Self)
        ensures
            r == spec_permissions_from_role(role@),
    {
        if str_eq(role, "admin") {
            Self::admin()
        } else if str_eq(role, "hr_manager") {
            Self::hr_manager()
        } else if str_eq(role, "hr_staff") {
            Self::hr_staff()
        } else if str_eq(role, "viewer") {
            Self::viewer()
        } else {
            Self::default()
        }
    }
}

/// Role names outside the fixed table derive to the same permission set as
/// the viewer role.
pub proof fn lemma_unknown_role_derives_viewer(role: Seq<char>)
    requires
        role != "admin"@,
        role != "hr_manager"@,
        role != "hr_staff"@,
    ensures
        spec_permissions_from_role(role) == spec_viewer_permissions(),
{
}

/// An employee record. The EPF number is the stable external primary key;
/// `created_at` is assigned by the store on creation and never changed.
#[derive(Debug)]
pub struct Employee {
    pub epf_number: String,
    pub name_with_initials: String,
    pub full_name: String,
    pub dob: Option<String>,
    pub police_area: Option<String>,
    pub transport_route: Option<String>,
    pub mobile_1: Option<String>,
    pub mobile_2: Option<String>,
    pub address: Option<String>,
    pub date_of_join: Option<String>,
    pub date_of_resign: Option<String>,
    pub working_status: String,
    pub marital_status: Option<String>,
    pub cader: Option<String>,
    pub designation: Option<String>,
    pub allocation: Option<String>,
    pub department: Option<String>,
    pub image_path: Option<String>,
    pub created_at: Option<String>,
}

/// An optional-field filter over the employee list: empty fields are
/// ignored, the EPF field matches as a substring, the rest match exactly.
#[derive(Debug)]
pub struct EmployeeFilters {
    pub epf_number: String,
    pub department: String,
    pub transport_route: String,
    pub working_status: String,
}

/// Aggregate counts for the dashboard.
#[derive(Debug)]
pub struct DashboardStats {
    pub total_employees: i32,
    pub active_employees: i32,
    pub resigned_employees: i32,
    pub departments: Vec<DepartmentCount>,
    pub caders: Vec<DepartmentCount>,
    pub allocations: Vec<DepartmentCount>,
    pub recent_joinings: i32,
    pub recent_resignations: i32,
}

/// One group in a grouped count.
#[derive(Debug)]
pub struct DepartmentCount {
    pub name: String,
    pub count: i32,
}

/// A system user account. The id is assigned by the store; the username is
/// unique; the password digest never leaves the store.
#[derive(Debug)]
pub struct User {
    pub id: i32,
    pub username: String,
    pub password_hash: String,
    pub full_name: String,
    pub role: String,
    pub department_access: Option<String>,
    pub is_active: bool,
    pub permissions: UserPermissions,
    pub created_at: Option<String>,
    pub last_login: Option<String>,
}

/// The record of the currently authenticated operator: a copy of the
/// user's identity and of their permission set as of login time.
#[derive(Debug)]
pub struct UserSession {
    pub user_id: i32,
    pub username: String,
    pub full_name: String,
    pub role: String,
    pub department_access: Option<String>,
    pub permissions: UserPermissions,
}

/// The session a user's record gives rise to at login time.
pub open spec fn spec_session_of(u: User) -> UserSession {
    UserSession {
        user_id: u.id,
        username: u.username,
        full_name: u.full_name,
        role: u.role,
        department_access: u.department_access,
        permissions: u.permissions,
    }
}

/// Request to create a user account. When `permissions` is absent the set
/// derives from the role; an explicit set overrides the role unchecked.
#[derive(Debug)]
pub struct CreateUserRequest {
    pub username: String,
    pub password: String,
    pub full_name: String,
    pub role: String,
    pub department_access: Option<String>,
    pub permissions: Option<UserPermissions>,
}

/// Request to update a user account; a full replace of the mutable fields.
#[derive(Debug)]
pub struct UpdateUserRequest {
    pub user_id: i32,
    pub full_name: String,
    pub role: String,
    pub department_access: Option<String>,
    pub is_active: bool,
    pub permissions: Option<UserPermissions>,
}

/// Login request.
#[derive(Debug)]
pub struct LoginRequest {
    pub username: String,
    pub password: String,
}

/// A user account as listed to administrators: everything but the
/// password digest.
#[derive(Debug)]
pub struct UserInfo {
    pub id: i32,
    pub username: String,
    pub full_name: String,
    pub role: String,
    pub department_access: Option<String>,
    pub is_active: bool,
    pub permissions: Option<UserPermissions>,
    pub created_at: Option<String>,
    pub last_login: Option<String>,
}

/// An audit log entry; immutable once written.
#[derive(Debug)]
pub struct AuditLog {
    pub id: i32,
    pub user_id: Option<i32>,
    pub username: String,
    pub action: String,
    pub entity_type: String,
    pub entity_id: Option<String>,
    pub old_value: Option<String>,
    pub new_value: Option<String>,
    pub details: Option<String>,
    pub created_at: Option<String>,
}

/// Filters and pagination for the audit log query: empty fields are
/// ignored, the username matches as a substring, action and entity type
/// match exactly, the date range compares the date part of the timestamp.
#[derive(Debug)]
pub struct AuditLogFilters {
    pub username: String,
    pub action: String,
    pub entity_type: String,
    pub start_date: String,
    pub end_date: String,
    pub limit: i32,
    pub offset: i32,
}

/// One page of audit log entries together with the total number of
/// entries the filters match.
#[derive(Debug)]
pub struct AuditLogResult {
    pub logs: Vec<AuditLog>,
    pub total_count: i32,
}

/// The base directory under which the store keeps its files; callers
/// resolve the relative paths the library hands out against it.
#[derive(Debug)]
pub struct AppDataDir(pub String);

/// How an operation can fail.
#[derive(Clone, Copy, PartialEq, Eq, Structural, Debug)]
pub enum HrmError {
    /// A mutating operation was attempted with no active session.
    Unauthenticated,
    /// The session lacks the capability the operation needs.
    PermissionDenied,
    /// A keyed lookup missed.
    NotFound,
    /// A create would violate key uniqueness.
    DuplicateKey,
    /// An input value was rejected, such as an unrecognized role.
    ValidationError,
    /// A user attempted to delete their own account.
    SelfDeleteRejected,
    /// Login with an unknown username or a wrong password.
    InvalidCredentials,
    /// Login into a deactivated account.
    AccountDisabled,
    /// A file or store operation failed.
    IOFailure,
}

/// The user-facing description of each error.
pub open spec fn spec_error_message(e: HrmError) -> Seq<char> {
    match e {
        HrmError::Unauthenticated => "Not logged in"@,
        HrmError::PermissionDenied => "Permission denied"@,
        HrmError::NotFound => "Record not found"@,
        HrmError::DuplicateKey => "A record with this key already exists"@,
        HrmError::ValidationError => "Invalid value"@,
        HrmError::SelfDeleteRejected => "Cannot delete your own account"@,
        HrmError::InvalidCredentials => "Invalid username or password"@,
        HrmError::AccountDisabled => "Account is deactivated. Please contact administrator."@,
        HrmError::IOFailure => "File or database operation failed"@,
    }
}

impl HrmError {
    /// The user-facing description of the error, as the boundary reports it.
    pub fn message(&self) -> (r: String)
        ensures
            r@ == spec_error_message(*self),
    {
        match self {
            HrmError::Unauthenticated => String::from_str("Not logged in"),
            HrmError::PermissionDenied => String::from_str("Permission denied"),
            HrmError::NotFound => String::from_str("Record not found"),
            HrmError::DuplicateKey => String::from_str("A record with this key already exists"),
            HrmError::ValidationError => String::from_str("Invalid value"),
            HrmError::SelfDeleteRejected => String::from_str("Cannot delete your own account"),
            HrmError::InvalidCredentials => String::from_str("Invalid username or password"),
            HrmError::AccountDisabled => String::from_str(
                "Account is deactivated. Please contact administrator.",
            ),
            HrmError::IOFailure => String::from_str("File or database operation failed"),
        }
    }
}

/// Copies an optional string.
pub fn clone_opt_string(o: &Option<String>) -> (r: Option<String>)
    ensures
        r == *o,
{
    match o {
        Some(s) => Some(s.clone()),
        None => None,
    }
}

impl Clone for Employee {
    /// An exact copy.
    fn clone(&self) -> (r: Self)
        ensures
            r == *self,
    {
        Employee {
            epf_number: self.epf_number.clone(),
            name_with_initials: self.name_with_initials.clone(),
            full_name: self.full_name.clone(),
            dob: clone_opt_string(&self.dob),
            police_area: clone_opt_string(&self.police_area),
            transport_route: clone_opt_string(&self.transport_route),
            mobile_1: clone_opt_string(&self.mobile_1),
            mobile_2: clone_opt_string(&self.mobile_2),
            address: clone_opt_string(&self.address),
            date_of_join: clone_opt_string(&self.date_of_join),
            date_of_resign: clone_opt_string(&self.date_of_resign),
            working_status: self.working_status.clone(),
            marital_status: clone_opt_string(&self.marital_status),
            cader: clone_opt_string(&self.cader),
            designation: clone_opt_string(&self.designation),
            allocation: clone_opt_string(&self.allocation),
            department: clone_opt_string(&self.department),
            image_path: clone_opt_string(&self.image_path),
            created_at: clone_opt_string(&self.created_at),
        }
    }
}

impl Clone for User {
    /// An exact copy.
    fn clone(&self) -> (r: Self)
        ensures
            r == *self,
    {
        User {
            id: self.id,
            username: self.username.clone(),
            password_hash: self.password_hash.clone(),
            full_name: self.full_name.clone(),
            role: self.role.clone(),
            department_access: clone_opt_string(&self.department_access),
            is_active: self.is_active,
            permissions: self.permissions,
            created_at: clone_opt_string(&self.created_at),
            last_login: clone_opt_string(&self.last_login),
        }
    }
}

impl Clone for UserSession {
    /// An exact copy.
    fn clone(&self) -> (r: Self)
        ensures
            r == *self,
    {
        UserSession {
            user_id: self.user_id,
            username: self.username.clone(),
            full_name: self.full_name.clone(),
            role: self.role.clone(),
            department_access: clone_opt_string(&self.department_access),
            permissions: self.permissions,
        }
    }
}

impl Clone for AuditLog {
    /// An exact copy.
    fn clone(&self) -> (r: Self)
        ensures
            r == *self,
    {
        AuditLog {
            id: self.id,
            user_id: self.user_id,
            username: self.username.clone(),
            action: self.action.clone(),
            entity_type: self.entity_type.clone(),
            entity_id: clone_opt_string(&self.entity_id),
            old_value: clone_opt_string(&self.old_value),
            new_value: clone_opt_string(&self.new_value),
            details: clone_opt_string(&self.details),
            created_at: clone_opt_string(&self.created_at),
        }
    }
}

} // verus!
