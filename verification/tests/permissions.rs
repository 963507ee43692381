use hrm_system::models::UserPermissions;

fn assert_set(
    p: &UserPermissions,
    expected: [bool; 11],
) {
    assert_eq!(p.can_view_employees, expected[0]);
    assert_eq!(p.can_add_employees, expected[1]);
    assert_eq!(p.can_edit_employees, expected[2]);
    assert_eq!(p.can_delete_employees, expected[3]);
    assert_eq!(p.can_manage_users, expected[4]);
    assert_eq!(p.can_view_all_departments, expected[5]);
    assert_eq!(p.can_export_data, expected[6]);
    assert_eq!(p.can_view_reports, expected[7]);
    assert_eq!(p.can_manage_settings, expected[8]);
    assert_eq!(p.can_backup_database, expected[9]);
    assert_eq!(p.can_view_audit_logs, expected[10]);
}

#[test]
fn admin_role_grants_everything() {
    let p = UserPermissions::from_role("admin");
    assert_set(&p, [true; 11]);
}

#[test]
fn hr_manager_role_table_row() {
    let p = UserPermissions::from_role("hr_manager");
    assert_set(
        &p,
        [true, true, true, true, false, true, true, true, false, false, false],
    );
}

#[test]
fn hr_staff_role_table_row() {
    let p = UserPermissions::from_role("hr_staff");
    assert_set(
        &p,
        [true, true, false, false, false, false, false, false, false, false, false],
    );
}

#[test]
fn viewer_role_table_row() {
    let p = UserPermissions::from_role("viewer");
    assert_set(
        &p,
        [true, false, false, false, false, false, false, false, false, false, false],
    );
}

#[test]
fn unknown_roles_derive_the_viewer_set() {
    let viewer = UserPermissions::viewer();
    for role in ["custom", "", "Admin", "superuser", "hr_staff "] {
        let p = UserPermissions::from_role(role);
        assert_eq!(p, viewer);
    }
}

#[test]
fn default_set_equals_viewer_set() {
    assert_eq!(UserPermissions::default(), UserPermissions::viewer());
}
