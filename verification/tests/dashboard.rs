use hrm_system::db::Database;
use hrm_system::employees::create_employee;
use hrm_system::info::{format_file_size, get_database_info};
use hrm_system::models::{Employee, UserPermissions, UserSession};
use hrm_system::session::CurrentUser;
use hrm_system::stats::get_dashboard_stats;

const NOW: &str = "2024-05-01 10:00:00";

fn emp(epf: &str, status: &str, dept: Option<&str>, joined: Option<&str>, resigned: Option<&str>) -> Employee {
    Employee {
        epf_number: epf.to_string(),
        name_with_initials: format!("E{}", epf),
        full_name: format!("E{} Full", epf),
        dob: None,
        police_area: None,
        transport_route: None,
        mobile_1: None,
        mobile_2: None,
        address: None,
        date_of_join: joined.map(|d| d.to_string()),
        date_of_resign: resigned.map(|d| d.to_string()),
        working_status: status.to_string(),
        marital_status: None,
        cader: None,
        designation: None,
        allocation: None,
        department: dept.map(|d| d.to_string()),
        image_path: None,
        created_at: None,
    }
}

fn admin_current() -> CurrentUser {
    let mut current = CurrentUser::new();
    current.set(UserSession {
        user_id: 1,
        username: "admin".to_string(),
        full_name: "Admin".to_string(),
        role: "admin".to_string(),
        department_access: None,
        permissions: UserPermissions::admin(),
    });
    current
}

#[test]
fn head_counts_partition_by_status() {
    let mut db = Database::new();
    let current = admin_current();
    let rows = [
        emp("1", "active", Some("IT"), None, None),
        emp("2", "active", Some("IT"), None, None),
        emp("3", "resign", Some("IT"), None, None),
        emp("4", "leave", None, None, None),
        emp("5", "active", Some("HR"), None, None),
    ];
    for e in rows {
        assert!(create_employee(&mut db, &current, e, NOW).is_ok());
    }
    let s = get_dashboard_stats(&db, "2024-04-01");
    assert_eq!(s.total_employees, 5);
    assert_eq!(s.active_employees, 3);
    assert_eq!(s.resigned_employees, 1);
    // the remaining status class accounts for the rest
    assert_eq!(s.total_employees, s.active_employees + s.resigned_employees + 1);
}

#[test]
fn department_breakdown_counts_active_rows_largest_first() {
    let mut db = Database::new();
    let current = admin_current();
    let rows = [
        emp("1", "active", Some("IT"), None, None),
        emp("2", "active", Some("IT"), None, None),
        emp("3", "active", Some("HR"), None, None),
        emp("4", "resign", Some("HR"), None, None),
        emp("5", "active", None, None, None),
    ];
    for e in rows {
        assert!(create_employee(&mut db, &current, e, NOW).is_ok());
    }
    let s = get_dashboard_stats(&db, "2024-04-01");
    assert_eq!(s.departments.len(), 3);
    assert_eq!(s.departments[0].name, "IT");
    assert_eq!(s.departments[0].count, 2);
    let mut rest: Vec<(String, i32)> = s.departments[1..]
        .iter()
        .map(|g| (g.name.clone(), g.count))
        .collect();
    rest.sort();
    // resigned rows are not grouped; a missing department groups as Unassigned
    assert_eq!(rest, vec![("HR".to_string(), 1), ("Unassigned".to_string(), 1)]);
}

#[test]
fn recent_windows_compare_dates_as_text() {
    let mut db = Database::new();
    let current = admin_current();
    let rows = [
        emp("1", "active", None, Some("2024-04-30"), None),
        emp("2", "active", None, Some("2024-04-01"), None),
        emp("3", "resign", None, Some("2024-03-01"), Some("2024-04-29")),
        emp("4", "resign", None, None, Some("2024-03-30")),
    ];
    for e in rows {
        assert!(create_employee(&mut db, &current, e, NOW).is_ok());
    }
    let s = get_dashboard_stats(&db, "2024-04-01");
    assert_eq!(s.recent_joinings, 2);
    assert_eq!(s.recent_resignations, 1);
}

#[test]
fn empty_store_dashboard_is_all_zero() {
    let db = Database::new();
    let s = get_dashboard_stats(&db, "2024-04-01");
    assert_eq!(s.total_employees, 0);
    assert_eq!(s.active_employees, 0);
    assert_eq!(s.resigned_employees, 0);
    assert!(s.departments.is_empty());
    assert!(s.caders.is_empty());
    assert!(s.allocations.is_empty());
}

#[test]
fn file_sizes_format_with_two_truncated_decimals() {
    assert_eq!(format_file_size(0), "0 bytes");
    assert_eq!(format_file_size(512), "512 bytes");
    assert_eq!(format_file_size(1024), "1.00 KB");
    assert_eq!(format_file_size(1536), "1.50 KB");
    assert_eq!(format_file_size(10 * 1024 + 100), "10.09 KB");
    assert_eq!(format_file_size(5 * 1048576), "5.00 MB");
    assert_eq!(format_file_size(3 * 1073741824 + 1073741824 / 4), "3.25 GB");
}

#[test]
fn database_info_reports_counts_and_size() {
    let mut db = Database::new();
    assert!(hrm_system::auth::ensure_default_admin(&mut db, NOW));
    let current = admin_current();
    assert!(create_employee(&mut db, &current, emp("1", "active", None, None, None), NOW).is_ok());
    let info = get_database_info(&db, 2048);
    assert_eq!(info.employee_count, 1);
    assert_eq!(info.user_count, 1);
    assert_eq!(info.size_bytes, 2048);
    assert_eq!(info.size_formatted, "2.00 KB");
}
