use hrm_system::db::Database;
use hrm_system::employees::create_employee;
use hrm_system::json::employee_to_json;
use hrm_system::models::{Employee, HrmError, UserPermissions, UserSession};
use hrm_system::session::CurrentUser;
use hrm_system::stats::{
    get_distinct_allocations, get_distinct_designations, get_distinct_police_areas,
};

const NOW: &str = "2024-05-01 10:00:00";

fn emp(epf: &str) -> Employee {
    Employee {
        epf_number: epf.to_string(),
        name_with_initials: "N".to_string(),
        full_name: "N Full".to_string(),
        dob: None,
        police_area: None,
        transport_route: None,
        mobile_1: None,
        mobile_2: None,
        address: None,
        date_of_join: None,
        date_of_resign: None,
        working_status: "active".to_string(),
        marital_status: None,
        cader: None,
        designation: None,
        allocation: None,
        department: None,
        image_path: None,
        created_at: None,
    }
}

fn admin_current() -> CurrentUser {
    let mut current = CurrentUser::new();
    current.set(UserSession {
        user_id: 1,
        username: "admin".to_string(),
        full_name: "Admin".to_string(),
        role: "admin".to_string(),
        department_access: None,
        permissions: UserPermissions::admin(),
    });
    current
}

#[test]
fn every_error_has_its_user_facing_message() {
    assert_eq!(HrmError::Unauthenticated.message(), "Not logged in");
    assert_eq!(HrmError::PermissionDenied.message(), "Permission denied");
    assert_eq!(HrmError::NotFound.message(), "Record not found");
    assert_eq!(HrmError::DuplicateKey.message(), "A record with this key already exists");
    assert_eq!(HrmError::ValidationError.message(), "Invalid value");
    assert_eq!(HrmError::SelfDeleteRejected.message(), "Cannot delete your own account");
    assert_eq!(HrmError::InvalidCredentials.message(), "Invalid username or password");
    assert_eq!(
        HrmError::AccountDisabled.message(),
        "Account is deactivated. Please contact administrator."
    );
    assert_eq!(HrmError::IOFailure.message(), "File or database operation failed");
}

#[test]
fn remaining_distinct_lookups_cover_their_columns() {
    let mut db = Database::new();
    let current = admin_current();
    let mut a = emp("1");
    a.police_area = Some("North".to_string());
    a.designation = Some("Clerk".to_string());
    a.allocation = Some("Line 2".to_string());
    let mut b = emp("2");
    b.police_area = Some("East".to_string());
    b.designation = Some("Clerk".to_string());
    b.allocation = Some("Line 1".to_string());
    for e in [a, b] {
        assert!(create_employee(&mut db, &current, e, NOW).is_ok());
    }
    assert_eq!(get_distinct_police_areas(&db), vec!["East".to_string(), "North".to_string()]);
    assert_eq!(get_distinct_designations(&db), vec!["Clerk".to_string()]);
    assert_eq!(
        get_distinct_allocations(&db),
        vec!["Line 1".to_string(), "Line 2".to_string()]
    );
}

#[test]
fn json_images_carry_unicode_and_control_characters() {
    let mut e = emp("u1");
    e.full_name = "Zoë \u{1F3E2} tab\there".to_string();
    e.address = Some("line1\u{0}\u{1f}".to_string());
    let s = employee_to_json(&e);
    let v: serde_json::Value = serde_json::from_str(&s).unwrap();
    assert_eq!(
        v["full_name"],
        serde_json::Value::String("Zoë \u{1F3E2} tab\there".to_string())
    );
    assert_eq!(
        v["address"],
        serde_json::Value::String("line1\u{0}\u{1f}".to_string())
    );
    assert!(s.contains("\\u0000"));
    assert!(s.contains("\\u001f"));
    assert!(s.contains("\\t"));
}

#[test]
fn employee_keys_may_be_unicode() {
    let mut db = Database::new();
    let current = admin_current();
    assert!(create_employee(&mut db, &current, emp("épf-1"), NOW).is_ok());
    let r = create_employee(&mut db, &current, emp("épf-1"), NOW);
    assert!(matches!(r, Err(HrmError::DuplicateKey)));
    let got = hrm_system::employees::get_employee_by_epf(&db, "épf-1".to_string()).unwrap();
    assert_eq!(got.epf_number, "épf-1");
}

#[test]
fn negative_offset_reads_from_the_start() {
    let mut db = Database::new();
    hrm_system::audit::log_audit_action(
        &mut db,
        None,
        "a".to_string(),
        "LOGIN".to_string(),
        "SYSTEM".to_string(),
        None,
        None,
        None,
        None,
        NOW,
    );
    let r = hrm_system::audit::get_audit_logs(
        &db,
        &hrm_system::models::AuditLogFilters {
            username: String::new(),
            action: String::new(),
            entity_type: String::new(),
            start_date: String::new(),
            end_date: String::new(),
            limit: 10,
            offset: -5,
        },
    );
    assert_eq!(r.total_count, 1);
    assert_eq!(r.logs.len(), 1);
}
