//! Read-side aggregation over the employee table: the distinct-value
//! lookups that fill the filter dropdowns, and the dashboard counts.

use vstd::prelude::*;
use crate::db::{opt_view, Database};
use crate::grouping::{group_counts, grouped_counts_ok, views_of};
use crate::models::{DashboardStats, Employee};
use crate::seq_util::{lemma_filter_empty, lemma_filter_len_le, lemma_filter_push};
use crate::text::{lemma_lex_lt_total, lemma_lex_lt_trans, lex_lt, str_eq, str_lt};

verus! {

/// The columns the distinct-value lookups and groupings read.
#[derive(Clone, Copy, PartialEq, Eq, Structural, Debug)]
pub enum EmployeeColumn {
    Department,
    TransportRoute,
    PoliceArea,
    Designation,
    Allocation,
    Cader,
}

/// The value an employee carries in a column.
pub open spec fn spec_column(e: Employee, c: EmployeeColumn) -> Option<String> {
    match c {
        EmployeeColumn::Department => e.department,
        EmployeeColumn::TransportRoute => e.transport_route,
        EmployeeColumn::PoliceArea => e.police_area,
        EmployeeColumn::Designation => e.designation,
        EmployeeColumn::Allocation => e.allocation,
        EmployeeColumn::Cader => e.cader,
    }
}

fn column_of<'a>(e: &'a Employee, c: EmployeeColumn) -> (r: &'a Option<String>)
    ensures
        *r == spec_column(*e, c),
{
    match c {
        EmployeeColumn::Department => &e.department,
        EmployeeColumn::TransportRoute => &e.transport_route,
        EmployeeColumn::PoliceArea => &e.police_area,
        EmployeeColumn::Designation => &e.designation,
        EmployeeColumn::Allocation => &e.allocation,
        EmployeeColumn::Cader => &e.cader,
    }
}

/// Whether some row carries the value in the column.
pub open spec fn column_has_value(s: Seq<Employee>, c: EmployeeColumn, v: Seq<char>) -> bool {
    exists|i: int| 0 <= i < s.len() && opt_view(#[trigger] spec_column(s[i], c)) == Some(v)
}

/// Whether a value list carries the value.
pub open spec fn value_listed(r: Seq<String>, v: Seq<char>) -> bool {
    exists|k: int| 0 <= k < r.len() && (#[trigger] r[k])@ == v
}

/// A position carrying the value witnesses its presence.
pub proof fn lemma_value_listed_witness(r: Seq<String>, v: Seq<char>, k: int)
    requires
        0 <= k < r.len(),
        r[k]@ == v,
    ensures
        value_listed(r, v),
{
}

/// Strictly ascending string values.
pub open spec fn values_sorted(r: Seq<String>) -> bool {
    forall|k1: int, k2: int| 0 <= k1 < k2 < r.len() ==> lex_lt((#[trigger] r[k1])@, (#[trigger] r[k2])@)
}

proof fn lemma_sorted_insert_value(s: Seq<String>, v: String, idx: int)
    requires
        values_sorted(s),
        0 <= idx <= s.len(),
        forall|k: int| 0 <= k < idx ==> lex_lt((#[trigger] s[k])@, v@),
        forall|k: int| idx <= k < s.len() ==> lex_lt(v@, (#[trigger] s[k])@),
    ensures
        values_sorted(s.insert(idx, v)),
{
    s.insert_ensures(idx, v);
    let t = s.insert(idx, v);
    assert forall|i: int, j: int| 0 <= i < j < t.len() implies lex_lt(
        (#[trigger] t[i])@,
        (#[trigger] t[j])@,
    ) by {
        if i < idx && j < idx {
        } else if i < idx && j == idx {
        } else if i < idx && j > idx {
            assert(t[i] == s[i] && t[j] == s[j - 1]);
        } else if i == idx {
            assert(t[j] == s[j - 1]);
        } else {
            assert(t[i] == s[i - 1] && t[j] == s[j - 1]);
        }
    }
}

/// What a distinct-value listing must be: strictly ascending, every
/// listed value a present non-empty value of the column, and every
/// present non-empty value of the column listed.
pub open spec fn distinct_values_ok(s: Seq<Employee>, c: EmployeeColumn, r: Seq<String>) -> bool {
    &&& values_sorted(r)
    &&& forall|k: int|
        0 <= k < r.len() ==> (#[trigger] r[k])@.len() > 0 && column_has_value(s, c, r[k]@)
    &&& forall|i: int|
        0 <= i < s.len() ==> (match spec_column(#[trigger] s[i], c) {
            Some(v) => v@.len() == 0 || value_listed(r, v@),
            None => true,
        })
}

/// The sorted list of distinct, present, non-empty values in a column.
pub fn distinct_column_values(db: &Database, c: EmployeeColumn) -> (r: Vec<String>)
    requires
        db.wf(),
    ensures
        distinct_values_ok(db.employees(), c, r@),
{
    let rows = db.employee_table();
    let n = rows.len();
    let mut out: Vec<String> = Vec::new();
    let mut i: usize = 0;
    while i < n
        invariant
            i <= n,
            n == db.employees().len(),
            rows@ == db.employees(),
            values_sorted(out@),
            forall|k: int|
                0 <= k < out@.len() ==> (#[trigger] out@[k])@.len() > 0 && column_has_value(
                    db.employees(),
                    c,
                    out@[k]@,
                ),
            forall|t: int|
                0 <= t < i ==> (match spec_column(#[trigger] db.employees()[t], c) {
                    Some(v) => v@.len() == 0 || value_listed(out@, v@),
                    None => true,
                }),
        decreases n - i,
    {
        let col = column_of(&rows[i], c);
        match col {
            Some(v) => {
                if !v.as_str().is_empty() {
                    let m = out.len();
                    let mut j: usize = 0;
                    while j < m
                        invariant
                            j <= m,
                            m == out@.len(),
                            forall|k: int| 0 <= k < j ==> lex_lt((#[trigger] out@[k])@, v@),
                        ensures
                            j <= m,
                            m == out@.len(),
                            forall|k: int| 0 <= k < j ==> lex_lt((#[trigger] out@[k])@, v@),
                            j < m ==> !lex_lt(out@[j as int]@, v@),
                        decreases m - j,
                    {
                        if !str_lt(out[j].as_str(), v.as_str()) {
                            break;
                        }
                        j += 1;
                    }
                    let present = j < m && str_eq(out[j].as_str(), v.as_str());
                    let ghost pre_out = out@;
                    if present {
                        proof {
                            lemma_value_listed_witness(out@, v@, j as int);
                        }
                    } else {
                        proof {
                            assert forall|k: int| j <= k < pre_out.len() implies lex_lt(
                                v@,
                                (#[trigger] pre_out[k])@,
                            ) by {
                                lemma_lex_lt_total(pre_out[j as int]@, v@);
                                if k > j {
                                    lemma_lex_lt_trans(v@, pre_out[j as int]@, pre_out[k]@);
                                }
                            }
                            lemma_sorted_insert_value(pre_out, *v, j as int);
                            pre_out.insert_ensures(j as int, *v);
                        }
                        out.insert(j, v.clone());
                        proof {
                            assert forall|k: int|
                                0 <= k < out@.len() implies (#[trigger] out@[k])@.len() > 0
                                && column_has_value(db.employees(), c, out@[k]@) by {
                                if k < j {
                                    assert(out@[k] == pre_out[k]);
                                } else if k == j {
                                    assert(out@[k]@ == v@);
                                    assert(opt_view(spec_column(db.employees()[i as int], c))
                                        == Some(v@));
                                } else {
                                    assert(out@[k] == pre_out[k - 1]);
                                }
                            }
                            assert forall|t: int|
                                0 <= t < i + 1 implies (match spec_column(
                                #[trigger] db.employees()[t],
                                c,
                            ) {
                                Some(w) => w@.len() == 0 || value_listed(out@, w@),
                                None => true,
                            }) by {
                                if t < i {
                                    match spec_column(db.employees()[t], c) {
                                        Some(w) => {
                                            if w@.len() > 0 {
                                                let k = choose|k: int|
                                                    0 <= k < pre_out.len() && (
                                                    #[trigger] pre_out[k])@ == w@;
                                                if k < j {
                                                    lemma_value_listed_witness(out@, w@, k);
                                                } else {
                                                    lemma_value_listed_witness(out@, w@, k + 1);
                                                }
                                            }
                                        },
                                        None => {},
                                    }
                                } else {
                                    lemma_value_listed_witness(out@, v@, j as int);
                                }
                            }
                        }
                    }
                }
            },
            None => {},
        }
        i += 1;
    }
    out
}


/// The departments present in the table, sorted, without blanks.
pub fn get_distinct_departments(db: &Database) -> (r: Vec<String>)
    requires
        db.wf(),
    ensures
        distinct_values_ok(db.employees(), EmployeeColumn::Department, r@),
{
    distinct_column_values(db, EmployeeColumn::Department)
}

/// The transport routes present in the table, sorted, without blanks.
pub fn get_distinct_transport_routes(db: &Database) -> (r: Vec<String>)
    requires
        db.wf(),
    ensures
        distinct_values_ok(db.employees(), EmployeeColumn::TransportRoute, r@),
{
    distinct_column_values(db, EmployeeColumn::TransportRoute)
}

/// The police areas present in the table, sorted, without blanks.
pub fn get_distinct_police_areas(db: &Database) -> (r: Vec<String>)
    requires
        db.wf(),
    ensures
        distinct_values_ok(db.employees(), EmployeeColumn::PoliceArea, r@),
{
    distinct_column_values(db, EmployeeColumn::PoliceArea)
}

/// The designations present in the table, sorted, without blanks.
pub fn get_distinct_designations(db: &Database) -> (r: Vec<String>)
    requires
        db.wf(),
    ensures
        distinct_values_ok(db.employees(), EmployeeColumn::Designation, r@),
{
    distinct_column_values(db, EmployeeColumn::Designation)
}

/// The allocations present in the table, sorted, without blanks.
pub fn get_distinct_allocations(db: &Database) -> (r: Vec<String>)
    requires
        db.wf(),
    ensures
        distinct_values_ok(db.employees(), EmployeeColumn::Allocation, r@),
{
    distinct_column_values(db, EmployeeColumn::Allocation)
}

/// The predicate selecting rows in a given working status.
pub open spec fn status_is(status: Seq<char>) -> spec_fn(Employee) -> bool {
    |e: Employee| e.working_status@ == status
}

/// The predicate selecting rows in neither the active nor the resigned
/// status.
pub open spec fn status_other() -> spec_fn(Employee) -> bool {
    |e: Employee| e.working_status@ != "active"@ && e.working_status@ != "resign"@
}

/// The predicate selecting rows whose joining date is on or after the
/// cutoff (dates compare as text; an absent date never matches).
pub open spec fn joined_since(cutoff: Seq<char>) -> spec_fn(Employee) -> bool {
    |e: Employee|
        match e.date_of_join {
            Some(d) => !lex_lt(d@, cutoff),
            None => false,
        }
}

/// The predicate selecting rows whose resignation date is on or after
/// the cutoff.
pub open spec fn resigned_since(cutoff: Seq<char>) -> spec_fn(Employee) -> bool {
    |e: Employee|
        match e.date_of_resign {
            Some(d) => !lex_lt(d@, cutoff),
            None => false,
        }
}

/// The grouping key a row contributes for a column: the column's value,
/// or the `Unassigned` tag when absent.
pub open spec fn spec_group_key(e: Employee, c: EmployeeColumn) -> Seq<char> {
    match spec_column(e, c) {
        Some(v) => v@,
        None => "Unassigned"@,
    }
}

/// The grouping keys of all active rows, in table order.
pub open spec fn active_group_keys(db: Database, c: EmployeeColumn) -> Seq<Seq<char>> {
    db.employees().filter(status_is("active"@)).map_values(
        |e: Employee| spec_group_key(e, c),
    )
}

/// Every row is in exactly one of the three status classes, so the total
/// head count is the sum of the active, resigned and other counts.
pub proof fn lemma_status_partition(s: Seq<Employee>)
    ensures
        s.len() == s.filter(status_is("active"@)).len() + s.filter(status_is("resign"@)).len()
            + s.filter(status_other()).len(),
    decreases s.len(),
{
    if s.len() == 0 {
        lemma_filter_empty(s, status_is("active"@));
        lemma_filter_empty(s, status_is("resign"@));
        lemma_filter_empty(s, status_other());
    } else {
        let t = s.drop_last();
        lemma_status_partition(t);
        lemma_filter_push(t, s.last(), status_is("active"@));
        lemma_filter_push(t, s.last(), status_is("resign"@));
        lemma_filter_push(t, s.last(), status_other());
        assert(t.push(s.last()) =~= s);
        reveal_strlit("active");
        reveal_strlit("resign");
        assert("active"@[0] == 'a' && "resign"@[0] == 'r');
        assert("active"@ != "resign"@);
    }
}

fn group_key_of(e: &Employee, c: EmployeeColumn) -> (r: String)
    ensures
        r@ == spec_group_key(*e, c),
{
    match column_of(e, c) {
        Some(v) => v.clone(),
        None => String::from_str("Unassigned"),
    }
}

/// The grouping keys of all active rows, as values.
fn build_group_keys(db: &Database, c: EmployeeColumn) -> (keys: Vec<String>)
    requires
        db.wf(),
    ensures
        views_of(keys@) == active_group_keys(*db, c),
        keys@.len() <= db.employees().len(),
{
    let ghost act = status_is("active"@);
    let rows = db.employee_table();
    let n = rows.len();
    let mut keys: Vec<String> = Vec::new();
    let mut i: usize = 0;
    proof {
        assert(db.employees().take(0) =~= Seq::<Employee>::empty());
        lemma_filter_empty(db.employees().take(0), act);
        assert(views_of(keys@) =~= db.employees().take(0).filter(act).map_values(
            |e: Employee| spec_group_key(e, c),
        ));
    }
    while i < n
        invariant
            i <= n,
            n == db.employees().len(),
            rows@ == db.employees(),
            act == status_is("active"@),
            keys@.len() <= i,
            views_of(keys@) == db.employees().take(i as int).filter(act).map_values(
                |e: Employee| spec_group_key(e, c),
            ),
        decreases n - i,
    {
        proof {
            lemma_filter_push(db.employees().take(i as int), db.employees()[i as int], act);
            assert(db.employees().take(i + 1) =~= db.employees().take(i as int).push(
                db.employees()[i as int],
            ));
        }
        if str_eq(rows[i].working_status.as_str(), "active") {
            let k = group_key_of(&rows[i], c);
            let ghost pre = keys@;
            keys.push(k);
            proof {
                assert(views_of(keys@) =~= views_of(pre).push(k@));
                assert(views_of(keys@) =~= db.employees().take(i + 1).filter(act).map_values(
                    |e: Employee| spec_group_key(e, c),
                ));
            }
        }
        i += 1;
    }
    proof {
        assert(db.employees().take(n as int) =~= db.employees());
    }
    keys
}

/// The dashboard: the head counts by status (whose three classes always
/// sum to the total), the grouped breakdowns of the active rows by
/// department, cader and allocation (largest group first), and the
/// joinings and resignations on or after the caller's cutoff date.
pub fn get_dashboard_stats(db: &Database, cutoff_date: &str) -> (r: DashboardStats)
    requires
        db.wf(),
        db.employees().len() <= i32::MAX,
    ensures
        r.total_employees == db.employees().len(),
        r.active_employees == db.employees().filter(status_is("active"@)).len(),
        r.resigned_employees == db.employees().filter(status_is("resign"@)).len(),
        r.total_employees == r.active_employees + r.resigned_employees + db.employees().filter(
            status_other(),
        ).len(),
        grouped_counts_ok(active_group_keys(*db, EmployeeColumn::Department), r.departments@),
        grouped_counts_ok(active_group_keys(*db, EmployeeColumn::Cader), r.caders@),
        grouped_counts_ok(active_group_keys(*db, EmployeeColumn::Allocation), r.allocations@),
        r.recent_joinings == db.employees().filter(joined_since(cutoff_date@)).len(),
        r.recent_resignations == db.employees().filter(resigned_since(cutoff_date@)).len(),
{
    let ghost act = status_is("active"@);
    let ghost res = status_is("resign"@);
    let ghost joi = joined_since(cutoff_date@);
    let ghost rsi = resigned_since(cutoff_date@);
    let rows = db.employee_table();
    let n = rows.len();
    let mut active_count: usize = 0;
    let mut resigned_count: usize = 0;
    let mut joined_count: usize = 0;
    let mut left_count: usize = 0;
    let mut i: usize = 0;
    proof {
        assert(db.employees().take(0) =~= Seq::<Employee>::empty());
        lemma_filter_empty(db.employees().take(0), act);
        lemma_filter_empty(db.employees().take(0), res);
        lemma_filter_empty(db.employees().take(0), joi);
        lemma_filter_empty(db.employees().take(0), rsi);
    }
    while i < n
        invariant
            i <= n,
            n == db.employees().len(),
            rows@ == db.employees(),
            act == status_is("active"@),
            res == status_is("resign"@),
            joi == joined_since(cutoff_date@),
            rsi == resigned_since(cutoff_date@),
            active_count == db.employees().take(i as int).filter(act).len(),
            resigned_count == db.employees().take(i as int).filter(res).len(),
            joined_count == db.employees().take(i as int).filter(joi).len(),
            left_count == db.employees().take(i as int).filter(rsi).len(),
            active_count <= i && resigned_count <= i && joined_count <= i && left_count <= i,
        decreases n - i,
    {
        proof {
            lemma_filter_push(db.employees().take(i as int), db.employees()[i as int], act);
            lemma_filter_push(db.employees().take(i as int), db.employees()[i as int], res);
            lemma_filter_push(db.employees().take(i as int), db.employees()[i as int], joi);
            lemma_filter_push(db.employees().take(i as int), db.employees()[i as int], rsi);
            assert(db.employees().take(i + 1) =~= db.employees().take(i as int).push(
                db.employees()[i as int],
            ));
        }
        let e = &rows[i];
        if str_eq(e.working_status.as_str(), "active") {
            active_count += 1;
        }
        if str_eq(e.working_status.as_str(), "resign") {
            resigned_count += 1;
        }
        match &e.date_of_join {
            Some(d) => {
                if !str_lt(d.as_str(), cutoff_date) {
                    joined_count += 1;
                }
            },
            None => {},
        }
        match &e.date_of_resign {
            Some(d) => {
                if !str_lt(d.as_str(), cutoff_date) {
                    left_count += 1;
                }
            },
            None => {},
        }
        i += 1;
    }
    proof {
        assert(db.employees().take(n as int) =~= db.employees());
        lemma_status_partition(db.employees());
        lemma_filter_len_le(db.employees(), act);
        lemma_filter_len_le(db.employees(), res);
        lemma_filter_len_le(db.employees(), joi);
        lemma_filter_len_le(db.employees(), rsi);
    }
    let dept_keys = build_group_keys(db, EmployeeColumn::Department);
    let cader_keys = build_group_keys(db, EmployeeColumn::Cader);
    let alloc_keys = build_group_keys(db, EmployeeColumn::Allocation);
    let departments = group_counts(&dept_keys);
    let caders = group_counts(&cader_keys);
    let allocations = group_counts(&alloc_keys);
    DashboardStats {
        total_employees: n as i32,
        active_employees: active_count as i32,
        resigned_employees: resigned_count as i32,
        departments,
        caders,
        allocations,
        recent_joinings: joined_count as i32,
        recent_resignations: left_count as i32,
    }
}

} // verus!
