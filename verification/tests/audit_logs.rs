use hrm_system::audit::{create_audit_log, get_audit_log_summary, get_audit_logs, log_audit_action};
use hrm_system::db::Database;
use hrm_system::models::AuditLogFilters;
use hrm_system::session::CurrentUser;

fn no_log_filters() -> AuditLogFilters {
    AuditLogFilters {
        username: String::new(),
        action: String::new(),
        entity_type: String::new(),
        start_date: String::new(),
        end_date: String::new(),
        limit: -1,
        offset: 0,
    }
}

fn record(db: &mut Database, username: &str, action: &str, when: &str) {
    log_audit_action(
        db,
        None,
        username.to_string(),
        action.to_string(),
        "SYSTEM".to_string(),
        None,
        None,
        None,
        None,
        when,
    );
}

#[test]
fn entries_come_back_newest_first_with_total() {
    let mut db = Database::new();
    record(&mut db, "a", "LOGIN", "2024-05-01 08:00:00");
    record(&mut db, "b", "CREATE", "2024-05-01 09:00:00");
    record(&mut db, "c", "DELETE", "2024-05-01 10:00:00");
    let r = get_audit_logs(&db, &no_log_filters());
    assert_eq!(r.total_count, 3);
    let users: Vec<&str> = r.logs.iter().map(|l| l.username.as_str()).collect();
    assert_eq!(users, vec!["c", "b", "a"]);
    let ids: Vec<i32> = r.logs.iter().map(|l| l.id).collect();
    assert_eq!(ids, vec![3, 2, 1]);
}

#[test]
fn pagination_slices_the_newest_first_order() {
    let mut db = Database::new();
    for k in 0..5 {
        record(&mut db, &format!("u{}", k), "VIEW", "2024-05-01 08:00:00");
    }
    let mut f = no_log_filters();
    f.limit = 2;
    f.offset = 1;
    let r = get_audit_logs(&db, &f);
    assert_eq!(r.total_count, 5);
    let users: Vec<&str> = r.logs.iter().map(|l| l.username.as_str()).collect();
    assert_eq!(users, vec!["u3", "u2"]);
    // an offset past the end yields an empty page, the total stands
    f.offset = 99;
    let r = get_audit_logs(&db, &f);
    assert_eq!(r.total_count, 5);
    assert!(r.logs.is_empty());
    // a negative limit means no limit
    f.offset = 3;
    f.limit = -1;
    let r = get_audit_logs(&db, &f);
    let users: Vec<&str> = r.logs.iter().map(|l| l.username.as_str()).collect();
    assert_eq!(users, vec!["u1", "u0"]);
}

#[test]
fn filters_pick_username_substring_action_and_dates() {
    let mut db = Database::new();
    record(&mut db, "amara", "CREATE", "2024-05-01 08:00:00");
    record(&mut db, "bob", "CREATE", "2024-05-02 08:00:00");
    record(&mut db, "mara", "DELETE", "2024-05-03 08:00:00");

    let mut f = no_log_filters();
    f.username = "mara".to_string();
    let r = get_audit_logs(&db, &f);
    assert_eq!(r.total_count, 2);

    let mut f = no_log_filters();
    f.action = "CREATE".to_string();
    let r = get_audit_logs(&db, &f);
    assert_eq!(r.total_count, 2);

    let mut f = no_log_filters();
    f.start_date = "2024-05-02".to_string();
    f.end_date = "2024-05-02".to_string();
    let r = get_audit_logs(&db, &f);
    assert_eq!(r.total_count, 1);
    assert_eq!(r.logs[0].username, "bob");
}

#[test]
fn generic_entries_fall_back_to_the_system_tag() {
    let mut db = Database::new();
    let nobody = CurrentUser::new();
    assert!(create_audit_log(
        &mut db,
        &nobody,
        "EXPORT".to_string(),
        "DATABASE".to_string(),
        None,
        None,
        None,
        Some("export to disk".to_string()),
        "2024-05-01 08:00:00",
    )
    .is_ok());
    let r = get_audit_logs(&db, &no_log_filters());
    assert_eq!(r.logs[0].username, "system");
    assert_eq!(r.logs[0].user_id, None);
    assert_eq!(r.logs[0].details.as_deref(), Some("export to disk"));
}

#[test]
fn summary_counts_and_ranks_actions_and_users() {
    let mut db = Database::new();
    record(&mut db, "a", "LOGIN", "2024-04-20 08:00:00");
    record(&mut db, "a", "CREATE", "2024-05-01 08:00:00");
    record(&mut db, "a", "CREATE", "2024-05-02 08:00:00");
    record(&mut db, "b", "CREATE", "2024-05-02 09:00:00");
    record(&mut db, "b", "DELETE", "2024-05-02 10:00:00");
    let s = get_audit_log_summary(&db, "2024-05-02", "2024-04-26");
    assert_eq!(s.total_logs, 5);
    assert_eq!(s.today_logs, 3);
    assert_eq!(s.week_logs, 4);
    assert_eq!(s.action_breakdown[0].name, "CREATE");
    assert_eq!(s.action_breakdown[0].count, 3);
    let mut rest: Vec<(String, i32)> = s.action_breakdown[1..]
        .iter()
        .map(|g| (g.name.clone(), g.count))
        .collect();
    rest.sort();
    assert_eq!(rest, vec![("DELETE".to_string(), 1), ("LOGIN".to_string(), 1)]);
    // users ranked within the window only: a has 2, b has 2 (the old LOGIN is outside)
    assert_eq!(s.active_users.len(), 2);
    assert_eq!(s.active_users[0].count, 2);
    assert_eq!(s.active_users[1].count, 2);
}

#[test]
fn summary_caps_the_action_list_at_ten() {
    let mut db = Database::new();
    for k in 0..12 {
        // one entry per distinct action, plus extras for the first
        record(&mut db, "a", &format!("ACTION{:02}", k), "2024-05-01 08:00:00");
    }
    record(&mut db, "a", "ACTION00", "2024-05-01 08:00:00");
    let s = get_audit_log_summary(&db, "2024-05-01", "2024-04-26");
    assert_eq!(s.action_breakdown.len(), 10);
    assert_eq!(s.action_breakdown[0].name, "ACTION00");
    assert_eq!(s.action_breakdown[0].count, 2);
    for g in &s.action_breakdown[1..] {
        assert_eq!(g.count, 1);
    }
}
