//! Authorization: the permission test at the top of every mutating
//! operation. It reads only the session handed to it, never the user
//! table, so permission edits made after login do not affect an open
//! session.

use vstd::prelude::*;
use crate::models::{HrmError, UserPermissions, UserSession};

verus! {

/// The named capabilities a permission set grants.
#[derive(Clone, Copy, PartialEq, Eq, Structural, Debug)]
pub enum Capability {
    ViewEmployees,
    AddEmployees,
    EditEmployees,
    DeleteEmployees,
    ManageUsers,
    ViewAllDepartments,
    ExportData,
    ViewReports,
    ManageSettings,
    BackupDatabase,
    ViewAuditLogs,
}

/// Whether a permission set grants a capability.
pub open spec fn spec_has_cap(p: UserPermissions, c: Capability) -> bool {
    match c {
        Capability::ViewEmployees => p.can_view_employees,
        Capability::AddEmployees => p.can_add_employees,
        Capability::EditEmployees => p.can_edit_employees,
        Capability::DeleteEmployees => p.can_delete_employees,
        Capability::ManageUsers => p.can_manage_users,
        Capability::ViewAllDepartments => p.can_view_all_departments,
        Capability::ExportData => p.can_export_data,
        Capability::ViewReports => p.can_view_reports,
        Capability::ManageSettings => p.can_manage_settings,
        Capability::BackupDatabase => p.can_backup_database,
        Capability::ViewAuditLogs => p.can_view_audit_logs,
    }
}

/// Whether the session, if any, grants a capability.
pub open spec fn spec_allowed(who: Option<UserSession>, c: Capability) -> bool {
    match who {
        Some(s) => spec_has_cap(s.permissions, c),
        None => false,
    }
}

/// Whether a permission set grants a capability.
pub fn has_cap(p: &UserPermissions, c: Capability) -> (r: bool)
    ensures
        r == spec_has_cap(*p, c),
{
    match c {
        Capability::ViewEmployees => p.can_view_employees,
        Capability::AddEmployees => p.can_add_employees,
        Capability::EditEmployees => p.can_edit_employees,
        Capability::DeleteEmployees => p.can_delete_employees,
        Capability::ManageUsers => p.can_manage_users,
        Capability::ViewAllDepartments => p.can_view_all_departments,
        Capability::ExportData => p.can_export_data,
        Capability::ViewReports => p.can_view_reports,
        Capability::ManageSettings => p.can_manage_settings,
        Capability::BackupDatabase => p.can_backup_database,
        Capability::ViewAuditLogs => p.can_view_audit_logs,
    }
}

/// The authorization test: no session fails as unauthenticated, a
/// session without the capability fails as denied.
pub fn check_permission(who: &Option<UserSession>, c: Capability) -> (r: Result<(), HrmError>)
    ensures
        r is Ok <==> spec_allowed(*who, c),
        r is Err ==> ({
            ||| (r == Err::<(), HrmError>(HrmError::Unauthenticated) && who is None)
            ||| (r == Err::<(), HrmError>(HrmError::PermissionDenied) && who is Some
                && !spec_allowed(*who, c))
        }),
{
    match who {
        None => Err(HrmError::Unauthenticated),
        Some(s) => {
            if has_cap(&s.permissions, c) {
                Ok(())
            } else {
                Err(HrmError::PermissionDenied)
            }
        },
    }
}

} // verus!
