//! Employee commands: filtered listing, keyed lookup, and the gated
//! mutations, each of which appends exactly one audit entry.

use vstd::prelude::*;
use crate::db::{
    actor_id, actor_name, audit_entry_matches, employee_index, has_employee, lemma_employee_index,
    lemma_removed_key_not_found, opt_view, Database,
};
use crate::gate::{check_permission, spec_allowed, Capability};
use crate::json::{employee_to_json, json_of_employee};
use crate::models::{clone_opt_string, Employee, EmployeeFilters, HrmError, UserSession};
use crate::seq_util::{lemma_filter_empty, lemma_filter_push};
use crate::session::CurrentUser;
use crate::text::{is_substring, str_contains, str_eq};

verus! {

/// Whether an employee passes the filter object: empty filter fields are
/// ignored, the EPF field matches as a substring, department and
/// transport route and working status match exactly (an absent column
/// never matches a non-empty filter).
pub open spec fn emp_matches(e: Employee, f: EmployeeFilters) -> bool {
    &&& (f.epf_number@.len() == 0 || is_substring(e.epf_number@, f.epf_number@))
    &&& (f.department@.len() == 0 || match e.department {
        Some(d) => d@ == f.department@,
        None => false,
    })
    &&& (f.transport_route@.len() == 0 || match e.transport_route {
        Some(t) => t@ == f.transport_route@,
        None => false,
    })
    &&& (f.working_status@.len() == 0 || e.working_status@ == f.working_status@)
}

/// The filter as a predicate over employees.
pub open spec fn emp_pred(f: EmployeeFilters) -> spec_fn(Employee) -> bool {
    |e: Employee| emp_matches(e, f)
}

fn emp_matches_exec(e: &Employee, f: &EmployeeFilters) -> (r: bool)
    ensures
        r == emp_matches(*e, *f),
{
    let epf_ok = if f.epf_number.as_str().is_empty() {
        true
    } else {
        str_contains(e.epf_number.as_str(), f.epf_number.as_str())
    };
    let dept_ok = if f.department.as_str().is_empty() {
        true
    } else {
        match &e.department {
            Some(d) => str_eq(d.as_str(), f.department.as_str()),
            None => false,
        }
    };
    let route_ok = if f.transport_route.as_str().is_empty() {
        true
    } else {
        match &e.transport_route {
            Some(t) => str_eq(t.as_str(), f.transport_route.as_str()),
            None => false,
        }
    };
    let status_ok = if f.working_status.as_str().is_empty() {
        true
    } else {
        str_eq(e.working_status.as_str(), f.working_status.as_str())
    };
    epf_ok && dept_ok && route_ok && status_ok
}

/// The rows the filter admits, in the table's order: ascending by EPF
/// number.
pub fn get_employees(db: &Database, filters: &EmployeeFilters) -> (r: Vec<Employee>)
    requires
        db.wf(),
    ensures
        r@ == db.employees().filter(emp_pred(*filters)),
{
    let ghost pred = emp_pred(*filters);
    let rows = db.employee_table();
    let n = rows.len();
    let mut out: Vec<Employee> = Vec::new();
    let mut i: usize = 0;
    proof {
        assert(db.employees().take(0) =~= Seq::<Employee>::empty());
        lemma_filter_empty(db.employees().take(0), pred);
    }
    while i < n
        invariant
            i <= n,
            n == db.employees().len(),
            rows@ == db.employees(),
            pred == emp_pred(*filters),
            out@ == db.employees().take(i as int).filter(pred),
        decreases n - i,
    {
        let keep = emp_matches_exec(&rows[i], filters);
        proof {
            lemma_filter_push(db.employees().take(i as int), db.employees()[i as int], pred);
            assert(db.employees().take(i + 1) =~= db.employees().take(i as int).push(
                db.employees()[i as int],
            ));
        }
        if keep {
            out.push(rows[i].clone());
        }
        i += 1;
    }
    proof {
        assert(db.employees().take(n as int) =~= db.employees());
    }
    out
}

/// An empty filter object admits every row: the listing is then the whole
/// table, ascending by EPF number.
pub proof fn lemma_empty_filter_lists_all(s: Seq<Employee>, f: EmployeeFilters)
    requires
        f.epf_number@.len() == 0,
        f.department@.len() == 0,
        f.transport_route@.len() == 0,
        f.working_status@.len() == 0,
    ensures
        s.filter(emp_pred(f)) == s,
    decreases s.len(),
{
    if s.len() == 0 {
        lemma_filter_empty(s, emp_pred(f));
    } else {
        lemma_empty_filter_lists_all(s.drop_last(), f);
        lemma_filter_push(s.drop_last(), s.last(), emp_pred(f));
        assert(s.drop_last().push(s.last()) =~= s);
        assert(s.filter(emp_pred(f)) =~= s);
    }
}

/// A filtered listing keeps the table's order: it still ascends strictly
/// by EPF number.
pub proof fn lemma_filtered_listing_stays_sorted(s: Seq<Employee>, pred: spec_fn(Employee) -> bool)
    requires
        crate::db::employees_wf(s),
    ensures
        crate::db::employees_wf(s.filter(pred)),
    decreases s.len(),
{
    if s.len() > 0 {
        let t = s.drop_last();
        lemma_filtered_listing_stays_sorted(t, pred);
        lemma_filter_push(t, s.last(), pred);
        assert(t.push(s.last()) =~= s);
        if pred(s.last()) {
            let f = s.filter(pred);
            assert(f == t.filter(pred).push(s.last()));
            assert forall|i: int, j: int| 0 <= i < j < f.len() implies crate::text::lex_lt(
                (#[trigger] f[i]).epf_number@,
                (#[trigger] f[j]).epf_number@,
            ) by {
                if j == f.len() - 1 {
                    crate::seq_util::lemma_filter_element_of(t, pred, i);
                    let k = choose|k: int| 0 <= k < t.len() && #[trigger] t[k] == t.filter(pred)[i];
                    assert(s[k] == f[i]);
                    assert(crate::text::lex_lt(s[k].epf_number@, s[s.len() - 1].epf_number@));
                }
            }
        }
    }
}

/// The record with the given key; `NotFound` when the key misses.
pub fn get_employee_by_epf(db: &Database, epf_number: String) -> (r: Result<Employee, HrmError>)
    requires
        db.wf(),
    ensures
        match r {
            Ok(e) => has_employee(db.employees(), epf_number@) && e == db.employees()[
                employee_index(db.employees(), epf_number@)],
            Err(err) => err == HrmError::NotFound && !has_employee(db.employees(), epf_number@),
        },
{
    match db.find_employee(epf_number.as_str()) {
        Some(i) => {
            proof {
                lemma_employee_index(db.employees(), epf_number@, i as int);
            }
            Ok(db.employee_table()[i].clone())
        },
        None => Err(HrmError::NotFound),
    }
}

/// What the stored row of a newly created employee must hold: the
/// caller's fields, with the creation timestamp assigned by the store.
pub open spec fn stored_employee_matches(st: Employee, input: Employee, now: Seq<char>) -> bool {
    &&& st.epf_number == input.epf_number
    &&& st.name_with_initials == input.name_with_initials
    &&& st.full_name == input.full_name
    &&& st.dob == input.dob
    &&& st.police_area == input.police_area
    &&& st.transport_route == input.transport_route
    &&& st.mobile_1 == input.mobile_1
    &&& st.mobile_2 == input.mobile_2
    &&& st.address == input.address
    &&& st.date_of_join == input.date_of_join
    &&& st.date_of_resign == input.date_of_resign
    &&& st.working_status == input.working_status
    &&& st.marital_status == input.marital_status
    &&& st.cader == input.cader
    &&& st.designation == input.designation
    &&& st.allocation == input.allocation
    &&& st.department == input.department
    &&& st.image_path == input.image_path
    &&& opt_view(st.created_at) == Some(now)
}

/// What the stored row of an updated employee must hold: the caller's
/// fields, with the creation timestamp of the previous row kept.
pub open spec fn updated_employee_matches(st: Employee, input: Employee, prev: Employee) -> bool {
    &&& st.epf_number == input.epf_number
    &&& st.name_with_initials == input.name_with_initials
    &&& st.full_name == input.full_name
    &&& st.dob == input.dob
    &&& st.police_area == input.police_area
    &&& st.transport_route == input.transport_route
    &&& st.mobile_1 == input.mobile_1
    &&& st.mobile_2 == input.mobile_2
    &&& st.address == input.address
    &&& st.date_of_join == input.date_of_join
    &&& st.date_of_resign == input.date_of_resign
    &&& st.working_status == input.working_status
    &&& st.marital_status == input.marital_status
    &&& st.cader == input.cader
    &&& st.designation == input.designation
    &&& st.allocation == input.allocation
    &&& st.department == input.department
    &&& st.image_path == input.image_path
    &&& st.created_at == prev.created_at
}

/// The human-readable note attached to an employee mutation's audit
/// entry.
pub open spec fn spec_action_details(prefix: Seq<char>, name: Seq<char>, epf: Seq<char>) -> Seq<
    char,
> {
    prefix + name + " ("@ + epf + ")"@
}

fn make_details(prefix: &str, name: &str, epf: &str) -> (r: String)
    ensures
        r@ == spec_action_details(prefix@, name@, epf@),
{
    let mut d = String::from_str(prefix);
    d.append(name);
    d.append(" (");
    d.append(epf);
    d.append(")");
    d
}

fn actor_of(who: &Option<UserSession>) -> (r: (Option<i32>, String))
    ensures
        r.0 == actor_id(*who),
        r.1@ == actor_name(*who),
{
    match who {
        Some(s) => (Some(s.user_id), s.username.clone()),
        None => (None, String::from_str("system")),
    }
}

/// Creates an employee: requires the add capability, rejects a duplicate
/// key leaving the table unchanged, stamps the stored row, and appends
/// exactly one audit entry with the new row's JSON image.
pub fn create_employee(
    db: &mut Database,
    current: &CurrentUser,
    employee: Employee,
    now: &str,
) -> (r: Result<(), HrmError>)
    requires
        old(db).wf(),
        old(db).can_log(),
    ensures
        final(db).wf(),
        r is Ok <==> (spec_allowed(current@, Capability::AddEmployees) && !has_employee(
            old(db).employees(),
            employee.epf_number@,
        )),
        r is Ok ==> ({
            &&& exists|i: int, st: Employee|
                0 <= i <= old(db).employees().len() && stored_employee_matches(st, employee, now@)
                    && final(db).employees() == #[trigger] old(db).employees().insert(i, st)
            &&& has_employee(final(db).employees(), employee.epf_number@)
            &&& final(db).users() == old(db).users()
            &&& final(db).spec_next_user_id() == old(db).spec_next_user_id()
            &&& final(db).spec_next_audit_id() == old(db).spec_next_audit_id() + 1
            &&& final(db).audit_logs() == old(db).audit_logs().push(final(db).audit_logs().last())
            &&& audit_entry_matches(
                final(db).audit_logs().last(),
                old(db).spec_next_audit_id(),
                actor_id(current@),
                actor_name(current@),
                "CREATE"@,
                "EMPLOYEE"@,
                Some(employee.epf_number@),
                None,
                Some(json_of_employee(employee)),
                Some(
                    spec_action_details(
                        "Created employee: "@,
                        employee.name_with_initials@,
                        employee.epf_number@,
                    ),
                ),
                now@,
            )
        }),
        r is Err ==> *final(db) == *old(db),
        match r {
            Ok(_) => true,
            Err(e) => {
                ||| (e == HrmError::Unauthenticated && current@ is None)
                ||| (e == HrmError::PermissionDenied && current@ is Some && !spec_allowed(
                    current@,
                    Capability::AddEmployees,
                ))
                ||| (e == HrmError::DuplicateKey && spec_allowed(current@, Capability::AddEmployees)
                    && has_employee(old(db).employees(), employee.epf_number@))
            },
        },
{
    let who = current.get();
    if let Err(e) = check_permission(&who, Capability::AddEmployees) {
        return Err(e);
    }
    if db.find_employee(employee.epf_number.as_str()).is_some() {
        return Err(HrmError::DuplicateKey);
    }
    let new_value = employee_to_json(&employee);
    let details = make_details(
        "Created employee: ",
        employee.name_with_initials.as_str(),
        employee.epf_number.as_str(),
    );
    let entity_id = employee.epf_number.clone();
    let (user_id, username) = actor_of(&who);
    let mut stored = employee;
    stored.created_at = Some(String::from_str(now));
    let ghost st = stored;
    let ghost pre = db.employees();
    db.insert_employee_sorted(stored);
    proof {
        assert(stored_employee_matches(st, employee, now@));
        let i = choose|i: int| 0 <= i <= pre.len() && db.employees() == #[trigger] pre.insert(i, st);
        assert(db.employees() == pre.insert(i, st));
    }
    db.append_audit(
        user_id,
        username,
        String::from_str("CREATE"),
        String::from_str("EMPLOYEE"),
        Some(entity_id),
        None,
        Some(new_value),
        Some(details),
        now,
    );
    Ok(())
}

/// Updates an employee: requires the edit capability, replaces the full
/// row by key keeping the original creation timestamp, silently succeeds
/// when the key misses, and appends exactly one audit entry with the
/// before and after JSON images (no before image when the key missed).
pub fn update_employee(
    db: &mut Database,
    current: &CurrentUser,
    employee: Employee,
    now: &str,
) -> (r: Result<(), HrmError>)
    requires
        old(db).wf(),
        old(db).can_log(),
    ensures
        final(db).wf(),
        r is Ok <==> spec_allowed(current@, Capability::EditEmployees),
        r is Ok ==> ({
            let had = has_employee(old(db).employees(), employee.epf_number@);
            let at = employee_index(old(db).employees(), employee.epf_number@);
            &&& had ==> exists|st: Employee|
                updated_employee_matches(st, employee, old(db).employees()[at])
                    && final(db).employees() == #[trigger] old(db).employees().update(at, st)
            &&& !had ==> final(db).employees() == old(db).employees()
            &&& final(db).users() == old(db).users()
            &&& final(db).spec_next_user_id() == old(db).spec_next_user_id()
            &&& final(db).spec_next_audit_id() == old(db).spec_next_audit_id() + 1
            &&& final(db).audit_logs() == old(db).audit_logs().push(final(db).audit_logs().last())
            &&& audit_entry_matches(
                final(db).audit_logs().last(),
                old(db).spec_next_audit_id(),
                actor_id(current@),
                actor_name(current@),
                "UPDATE"@,
                "EMPLOYEE"@,
                Some(employee.epf_number@),
                if had {
                    Some(json_of_employee(old(db).employees()[at]))
                } else {
                    None
                },
                Some(json_of_employee(employee)),
                Some(
                    spec_action_details(
                        "Updated employee: "@,
                        employee.name_with_initials@,
                        employee.epf_number@,
                    ),
                ),
                now@,
            )
        }),
        r is Err ==> *final(db) == *old(db),
        match r {
            Ok(_) => true,
            Err(e) => {
                ||| (e == HrmError::Unauthenticated && current@ is None)
                ||| (e == HrmError::PermissionDenied && current@ is Some && !spec_allowed(
                    current@,
                    Capability::EditEmployees,
                ))
            },
        },
{
    let who = current.get();
    if let Err(e) = check_permission(&who, Capability::EditEmployees) {
        return Err(e);
    }
    let new_value = employee_to_json(&employee);
    let details = make_details(
        "Updated employee: ",
        employee.name_with_initials.as_str(),
        employee.epf_number.as_str(),
    );
    let entity_id = employee.epf_number.clone();
    let (user_id, username) = actor_of(&who);
    match db.find_employee(employee.epf_number.as_str()) {
        Some(i) => {
            proof {
                lemma_employee_index(db.employees(), employee.epf_number@, i as int);
            }
            let old_json = employee_to_json(&db.employee_table()[i]);
            let prev_created = clone_opt_string(&db.employee_table()[i].created_at);
            let mut merged = employee;
            merged.created_at = prev_created;
            let ghost st = merged;
            db.replace_employee_at(i, merged);
            proof {
                assert(db.employees() == old(db).employees().update(i as int, st));
            }
            db.append_audit(
                user_id,
                username,
                String::from_str("UPDATE"),
                String::from_str("EMPLOYEE"),
                Some(entity_id),
                Some(old_json),
                Some(new_value),
                Some(details),
                now,
            );
            Ok(())
        },
        None => {
            db.append_audit(
                user_id,
                username,
                String::from_str("UPDATE"),
                String::from_str("EMPLOYEE"),
                Some(entity_id),
                None,
                Some(new_value),
                Some(details),
                now,
            );
            Ok(())
        },
    }
}

/// Deletes an employee by key: requires the delete capability, silently
/// succeeds when the key misses, and appends exactly one audit entry
/// whose before image is the removed row's JSON (and whose after image is
/// absent). After a successful delete the key is gone: a lookup misses.
pub fn delete_employee(
    db: &mut Database,
    current: &CurrentUser,
    epf_number: String,
    now: &str,
) -> (r: Result<(), HrmError>)
    requires
        old(db).wf(),
        old(db).can_log(),
    ensures
        final(db).wf(),
        r is Ok <==> spec_allowed(current@, Capability::DeleteEmployees),
        r is Ok ==> ({
            let had = has_employee(old(db).employees(), epf_number@);
            let at = employee_index(old(db).employees(), epf_number@);
            &&& had ==> final(db).employees() == old(db).employees().remove(at)
            &&& !had ==> final(db).employees() == old(db).employees()
            &&& !has_employee(final(db).employees(), epf_number@)
            &&& final(db).users() == old(db).users()
            &&& final(db).spec_next_user_id() == old(db).spec_next_user_id()
            &&& final(db).spec_next_audit_id() == old(db).spec_next_audit_id() + 1
            &&& final(db).audit_logs() == old(db).audit_logs().push(final(db).audit_logs().last())
            &&& audit_entry_matches(
                final(db).audit_logs().last(),
                old(db).spec_next_audit_id(),
                actor_id(current@),
                actor_name(current@),
                "DELETE"@,
                "EMPLOYEE"@,
                Some(epf_number@),
                if had {
                    Some(json_of_employee(old(db).employees()[at]))
                } else {
                    None
                },
                None,
                Some(
                    spec_action_details(
                        "Deleted employee: "@,
                        if had {
                            old(db).employees()[at].name_with_initials@
                        } else {
                            Seq::empty()
                        },
                        epf_number@,
                    ),
                ),
                now@,
            )
        }),
        r is Err ==> *final(db) == *old(db),
        match r {
            Ok(_) => true,
            Err(e) => {
                ||| (e == HrmError::Unauthenticated && current@ is None)
                ||| (e == HrmError::PermissionDenied && current@ is Some && !spec_allowed(
                    current@,
                    Capability::DeleteEmployees,
                ))
            },
        },
{
    let who = current.get();
    if let Err(e) = check_permission(&who, Capability::DeleteEmployees) {
        return Err(e);
    }
    let (user_id, username) = actor_of(&who);
    match db.find_employee(epf_number.as_str()) {
        Some(i) => {
            proof {
                lemma_employee_index(db.employees(), epf_number@, i as int);
            }
            let old_json = employee_to_json(&db.employee_table()[i]);
            let details = make_details(
                "Deleted employee: ",
                db.employee_table()[i].name_with_initials.as_str(),
                epf_number.as_str(),
            );
            db.remove_employee_at(i);
            proof {
                lemma_removed_key_not_found(old(db).employees(), i as int, epf_number@);
            }
            db.append_audit(
                user_id,
                username,
                String::from_str("DELETE"),
                String::from_str("EMPLOYEE"),
                Some(epf_number),
                Some(old_json),
                None,
                Some(details),
                now,
            );
            Ok(())
        },
        None => {
            let details = make_details("Deleted employee: ", "", epf_number.as_str());
            proof {
                reveal_strlit("");
                assert(""@ =~= Seq::<char>::empty());
            }
            db.append_audit(
                user_id,
                username,
                String::from_str("DELETE"),
                String::from_str("EMPLOYEE"),
                Some(epf_number),
                None,
                None,
                Some(details),
                now,
            );
            Ok(())
        },
    }
}

} // verus!
