use hrm_system::audit::get_audit_logs;
use hrm_system::db::Database;
use hrm_system::employees::{
    create_employee, delete_employee, get_employee_by_epf, get_employees, update_employee,
};
use hrm_system::json::employee_to_json;
use hrm_system::models::{
    AuditLogFilters, Employee, EmployeeFilters, HrmError, UserPermissions, UserSession,
};
use hrm_system::session::CurrentUser;
use hrm_system::stats::{get_distinct_departments, get_distinct_transport_routes};

const NOW: &str = "2024-05-01 10:00:00";

fn emp(epf: &str, name: &str, dept: Option<&str>, status: &str) -> Employee {
    Employee {
        epf_number: epf.to_string(),
        name_with_initials: name.to_string(),
        full_name: format!("{} Full", name),
        dob: None,
        police_area: None,
        transport_route: None,
        mobile_1: None,
        mobile_2: None,
        address: None,
        date_of_join: None,
        date_of_resign: None,
        working_status: status.to_string(),
        marital_status: None,
        cader: None,
        designation: None,
        allocation: None,
        department: dept.map(|d| d.to_string()),
        image_path: None,
        created_at: None,
    }
}

fn admin_current() -> CurrentUser {
    let mut current = CurrentUser::new();
    current.set(UserSession {
        user_id: 1,
        username: "admin".to_string(),
        full_name: "System Administrator".to_string(),
        role: "admin".to_string(),
        department_access: None,
        permissions: UserPermissions::admin(),
    });
    current
}

fn viewer_current() -> CurrentUser {
    let mut current = CurrentUser::new();
    current.set(UserSession {
        user_id: 2,
        username: "ted".to_string(),
        full_name: "Ted".to_string(),
        role: "viewer".to_string(),
        department_access: None,
        permissions: UserPermissions::viewer(),
    });
    current
}

fn no_filters() -> EmployeeFilters {
    EmployeeFilters {
        epf_number: String::new(),
        department: String::new(),
        transport_route: String::new(),
        working_status: String::new(),
    }
}

fn all_logs(db: &Database) -> Vec<hrm_system::models::AuditLog> {
    let r = get_audit_logs(
        db,
        &AuditLogFilters {
            username: String::new(),
            action: String::new(),
            entity_type: String::new(),
            start_date: String::new(),
            end_date: String::new(),
            limit: -1,
            offset: 0,
        },
    );
    r.logs
}

#[test]
fn create_then_read_back() {
    let mut db = Database::new();
    let current = admin_current();
    assert!(create_employee(&mut db, &current, emp("100", "A. B.", Some("IT"), "active"), NOW).is_ok());
    let e = get_employee_by_epf(&db, "100".to_string()).unwrap();
    assert_eq!(e.epf_number, "100");
    assert_eq!(e.name_with_initials, "A. B.");
    assert_eq!(e.department.as_deref(), Some("IT"));
    assert_eq!(e.created_at.as_deref(), Some(NOW));
}

#[test]
fn duplicate_key_is_rejected_and_row_untouched() {
    let mut db = Database::new();
    let current = admin_current();
    assert!(create_employee(&mut db, &current, emp("100", "First", Some("IT"), "active"), NOW).is_ok());
    let r = create_employee(&mut db, &current, emp("100", "Second", Some("HR"), "resign"), NOW);
    assert_eq!(r, Err(HrmError::DuplicateKey));
    let e = get_employee_by_epf(&db, "100".to_string()).unwrap();
    assert_eq!(e.name_with_initials, "First");
    assert_eq!(e.department.as_deref(), Some("IT"));
    assert_eq!(get_employees(&db, &no_filters()).len(), 1);
}

#[test]
fn delete_then_read_reports_not_found() {
    let mut db = Database::new();
    let current = admin_current();
    assert!(create_employee(&mut db, &current, emp("7", "G.", None, "active"), NOW).is_ok());
    assert!(delete_employee(&mut db, &current, "7".to_string(), NOW).is_ok());
    assert!(matches!(get_employee_by_epf(&db, "7".to_string()), Err(HrmError::NotFound)));
}

#[test]
fn mutations_without_a_session_are_unauthenticated() {
    let mut db = Database::new();
    let current = CurrentUser::new();
    let r = create_employee(&mut db, &current, emp("1", "A", None, "active"), NOW);
    assert_eq!(r, Err(HrmError::Unauthenticated));
    assert_eq!(
        update_employee(&mut db, &current, emp("1", "A", None, "active"), NOW),
        Err(HrmError::Unauthenticated)
    );
    assert_eq!(
        delete_employee(&mut db, &current, "1".to_string(), NOW),
        Err(HrmError::Unauthenticated)
    );
    assert!(get_employees(&db, &no_filters()).is_empty());
    assert!(all_logs(&db).is_empty());
}

#[test]
fn mutations_without_the_capability_are_denied() {
    let mut db = Database::new();
    let admin = admin_current();
    assert!(create_employee(&mut db, &admin, emp("1", "A", None, "active"), NOW).is_ok());
    let viewer = viewer_current();
    assert_eq!(
        create_employee(&mut db, &viewer, emp("2", "B", None, "active"), NOW),
        Err(HrmError::PermissionDenied)
    );
    assert_eq!(
        update_employee(&mut db, &viewer, emp("1", "A2", None, "active"), NOW),
        Err(HrmError::PermissionDenied)
    );
    assert_eq!(
        delete_employee(&mut db, &viewer, "1".to_string(), NOW),
        Err(HrmError::PermissionDenied)
    );
    assert_eq!(get_employees(&db, &no_filters()).len(), 1);
    assert_eq!(all_logs(&db).len(), 1);
}

#[test]
fn department_filter_returns_exactly_matching_rows() {
    let mut db = Database::new();
    let current = admin_current();
    assert!(create_employee(&mut db, &current, emp("3", "C", Some("HR"), "active"), NOW).is_ok());
    assert!(create_employee(&mut db, &current, emp("1", "A", Some("IT"), "active"), NOW).is_ok());
    assert!(create_employee(&mut db, &current, emp("2", "B", Some("IT"), "resign"), NOW).is_ok());
    assert!(create_employee(&mut db, &current, emp("4", "D", None, "active"), NOW).is_ok());
    let mut f = no_filters();
    f.department = "IT".to_string();
    let rows = get_employees(&db, &f);
    assert_eq!(rows.len(), 2);
    assert_eq!(rows[0].epf_number, "1");
    assert_eq!(rows[1].epf_number, "2");
    for r in &rows {
        assert_eq!(r.department.as_deref(), Some("IT"));
    }
}

#[test]
fn empty_filter_lists_all_rows_in_key_order() {
    let mut db = Database::new();
    let current = admin_current();
    for epf in ["20", "1", "10", "2"] {
        assert!(create_employee(&mut db, &current, emp(epf, "X", None, "active"), NOW).is_ok());
    }
    let rows = get_employees(&db, &no_filters());
    let keys: Vec<&str> = rows.iter().map(|e| e.epf_number.as_str()).collect();
    // text keys sort lexicographically
    assert_eq!(keys, vec!["1", "10", "2", "20"]);
}

#[test]
fn epf_filter_matches_as_substring() {
    let mut db = Database::new();
    let current = admin_current();
    for epf in ["100", "210", "333"] {
        assert!(create_employee(&mut db, &current, emp(epf, "X", None, "active"), NOW).is_ok());
    }
    let mut f = no_filters();
    f.epf_number = "10".to_string();
    let rows = get_employees(&db, &f);
    let keys: Vec<&str> = rows.iter().map(|e| e.epf_number.as_str()).collect();
    assert_eq!(keys, vec!["100", "210"]);
}

#[test]
fn status_filter_matches_exactly() {
    let mut db = Database::new();
    let current = admin_current();
    assert!(create_employee(&mut db, &current, emp("1", "A", None, "active"), NOW).is_ok());
    assert!(create_employee(&mut db, &current, emp("2", "B", None, "resign"), NOW).is_ok());
    let mut f = no_filters();
    f.working_status = "resign".to_string();
    let rows = get_employees(&db, &f);
    assert_eq!(rows.len(), 1);
    assert_eq!(rows[0].epf_number, "2");
}

#[test]
fn each_employee_mutation_writes_one_audit_entry() {
    let mut db = Database::new();
    let current = admin_current();
    let e = emp("9", "E. F.", Some("IT"), "active");
    let create_image = employee_to_json(&e);
    assert!(create_employee(&mut db, &current, e, NOW).is_ok());
    let logs = all_logs(&db);
    assert_eq!(logs.len(), 1);
    assert_eq!(logs[0].action, "CREATE");
    assert_eq!(logs[0].entity_type, "EMPLOYEE");
    assert_eq!(logs[0].entity_id.as_deref(), Some("9"));
    assert_eq!(logs[0].username, "admin");
    assert_eq!(logs[0].user_id, Some(1));
    assert_eq!(logs[0].old_value, None);
    assert_eq!(logs[0].new_value.as_deref(), Some(create_image.as_str()));
    assert_eq!(logs[0].details.as_deref(), Some("Created employee: E. F. (9)"));
    assert_eq!(logs[0].created_at.as_deref(), Some(NOW));

    let before = get_employee_by_epf(&db, "9".to_string()).unwrap();
    let before_image = employee_to_json(&before);
    let updated = emp("9", "E. F. Jr.", Some("HR"), "active");
    let update_image = employee_to_json(&updated);
    assert!(update_employee(&mut db, &current, updated, NOW).is_ok());
    let logs = all_logs(&db);
    assert_eq!(logs.len(), 2);
    assert_eq!(logs[0].action, "UPDATE");
    assert_eq!(logs[0].old_value.as_deref(), Some(before_image.as_str()));
    assert_eq!(logs[0].new_value.as_deref(), Some(update_image.as_str()));
    // the stored row keeps its creation stamp across the update
    let after = get_employee_by_epf(&db, "9".to_string()).unwrap();
    assert_eq!(after.created_at.as_deref(), Some(NOW));
    assert_eq!(after.name_with_initials, "E. F. Jr.");

    let removed_image = employee_to_json(&after);
    assert!(delete_employee(&mut db, &current, "9".to_string(), NOW).is_ok());
    let logs = all_logs(&db);
    assert_eq!(logs.len(), 3);
    assert_eq!(logs[0].action, "DELETE");
    assert_eq!(logs[0].old_value.as_deref(), Some(removed_image.as_str()));
    assert_eq!(logs[0].new_value, None);
    assert_eq!(logs[0].details.as_deref(), Some("Deleted employee: E. F. Jr. (9)"));
}

#[test]
fn update_of_a_missing_key_silently_succeeds() {
    let mut db = Database::new();
    let current = admin_current();
    let r = update_employee(&mut db, &current, emp("404", "Ghost", None, "active"), NOW);
    assert!(r.is_ok());
    assert!(get_employees(&db, &no_filters()).is_empty());
    let logs = all_logs(&db);
    assert_eq!(logs.len(), 1);
    assert_eq!(logs[0].action, "UPDATE");
    assert_eq!(logs[0].old_value, None);
}

#[test]
fn delete_of_a_missing_key_silently_succeeds() {
    let mut db = Database::new();
    let current = admin_current();
    let r = delete_employee(&mut db, &current, "404".to_string(), NOW);
    assert!(r.is_ok());
    let logs = all_logs(&db);
    assert_eq!(logs.len(), 1);
    assert_eq!(logs[0].action, "DELETE");
    assert_eq!(logs[0].details.as_deref(), Some("Deleted employee:  (404)"));
}

#[test]
fn distinct_lookups_sort_and_skip_blanks() {
    let mut db = Database::new();
    let current = admin_current();
    let mut a = emp("1", "A", Some("IT"), "active");
    a.transport_route = Some("R2".to_string());
    let mut b = emp("2", "B", Some("HR"), "active");
    b.transport_route = Some("R1".to_string());
    let mut c = emp("3", "C", Some("IT"), "active");
    c.transport_route = Some(String::new());
    let d = emp("4", "D", None, "active");
    for e in [a, b, c, d] {
        assert!(create_employee(&mut db, &current, e, NOW).is_ok());
    }
    assert_eq!(get_distinct_departments(&db), vec!["HR".to_string(), "IT".to_string()]);
    assert_eq!(
        get_distinct_transport_routes(&db),
        vec!["R1".to_string(), "R2".to_string()]
    );
}

#[test]
fn json_image_is_exact_and_escapes() {
    let mut e = emp("1", "Q", None, "active");
    e.name_with_initials = "A \"quoted\" \\ name\nline".to_string();
    e.department = Some("R&D".to_string());
    let s = employee_to_json(&e);
    let expected = "{\"epf_number\":\"1\",\"name_with_initials\":\"A \\\"quoted\\\" \\\\ name\\nline\",\"full_name\":\"Q Full\",\"dob\":null,\"police_area\":null,\"transport_route\":null,\"mobile_1\":null,\"mobile_2\":null,\"address\":null,\"date_of_join\":null,\"date_of_resign\":null,\"working_status\":\"active\",\"marital_status\":null,\"cader\":null,\"designation\":null,\"allocation\":null,\"department\":\"R&D\",\"image_path\":null,\"created_at\":null}";
    assert_eq!(s, expected);
    // the image is well-formed JSON carrying the same fields
    let v: serde_json::Value = serde_json::from_str(&s).unwrap();
    assert_eq!(v["epf_number"], serde_json::Value::String("1".to_string()));
    assert_eq!(
        v["name_with_initials"],
        serde_json::Value::String("A \"quoted\" \\ name\nline".to_string())
    );
    assert!(v["dob"].is_null());
}

#[test]
fn export_import_round_trips_both_tables() {
    let mut db = Database::new();
    assert!(hrm_system::auth::ensure_default_admin(&mut db, NOW));
    let current = admin_current();
    assert!(create_employee(&mut db, &current, emp("1", "A", Some("IT"), "active"), NOW).is_ok());
    assert!(create_employee(&mut db, &current, emp("2", "B", None, "resign"), NOW).is_ok());
    let employees_before = get_employees(&db, &no_filters());
    let snapshot = db.export_snapshot();

    let mut other = Database::new();
    other.import_snapshot(snapshot);
    let employees_after = get_employees(&other, &no_filters());
    assert_eq!(employees_after.len(), employees_before.len());
    for (x, y) in employees_before.iter().zip(employees_after.iter()) {
        assert_eq!(employee_to_json(x), employee_to_json(y));
    }
    assert_eq!(all_logs(&other).len(), all_logs(&db).len());
    let users_before = hrm_system::auth::get_all_users(&db, &current).unwrap();
    let users_after = hrm_system::auth::get_all_users(&other, &current).unwrap();
    assert_eq!(users_before.len(), users_after.len());
    assert_eq!(users_before[0].username, users_after[0].username);
}
