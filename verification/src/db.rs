//! The record store: employee and user tables plus the append-only audit
//! log, held with their invariants.
//!
//! Invariants: employees are kept sorted by EPF number (strictly, so the
//! key is unique); users carry unique, strictly increasing ids below the
//! next-id counter and unique usernames; audit entries carry strictly
//! increasing ids below their counter. Every primitive operation here
//! preserves them, so the higher-level commands never see a store that
//! breaks them.

use vstd::prelude::*;
use crate::models::{AuditLog, Employee, User, UserSession};
use crate::text::{lex_lt, lemma_lex_lt_total, lemma_lex_lt_trans, str_eq};

verus! {

/// Employees sorted strictly by EPF number: the listing order, and key
/// uniqueness.
pub open spec fn employees_wf(s: Seq<Employee>) -> bool {
    forall|i: int, j: int|
        0 <= i < j < s.len() ==> lex_lt(#[trigger] s[i].epf_number@, #[trigger] s[j].epf_number@)
}

/// Users with strictly increasing ids in `[1, next_id)` and unique
/// usernames.
pub open spec fn users_wf(s: Seq<User>, next_id: int) -> bool {
    &&& forall|i: int, j: int| 0 <= i < j < s.len() ==> #[trigger] s[i].id < #[trigger] s[j].id
    &&& forall|i: int| 0 <= i < s.len() ==> 1 <= #[trigger] s[i].id < next_id
    &&& forall|i: int, j: int|
        0 <= i < j < s.len() ==> #[trigger] s[i].username@ != #[trigger] s[j].username@
}

/// Audit entries with strictly increasing ids in `[1, next_id)`.
pub open spec fn logs_wf(s: Seq<AuditLog>, next_id: int) -> bool {
    &&& forall|i: int, j: int| 0 <= i < j < s.len() ==> #[trigger] s[i].id < #[trigger] s[j].id
    &&& forall|i: int| 0 <= i < s.len() ==> 1 <= #[trigger] s[i].id < next_id
}

/// Whether some employee carries the given key.
pub open spec fn has_employee(s: Seq<Employee>, epf: Seq<char>) -> bool {
    exists|i: int| 0 <= i < s.len() && #[trigger] s[i].epf_number@ == epf
}

/// The position of the employee carrying the given key.
pub open spec fn employee_index(s: Seq<Employee>, epf: Seq<char>) -> int {
    choose|i: int| 0 <= i < s.len() && #[trigger] s[i].epf_number@ == epf
}

/// Whether some user carries the given username.
pub open spec fn has_username(s: Seq<User>, name: Seq<char>) -> bool {
    exists|i: int| 0 <= i < s.len() && #[trigger] s[i].username@ == name
}

/// The position of the user carrying the given username.
pub open spec fn username_index(s: Seq<User>, name: Seq<char>) -> int {
    choose|i: int| 0 <= i < s.len() && #[trigger] s[i].username@ == name
}

/// Whether some user carries the given id.
pub open spec fn has_user_id(s: Seq<User>, id: int) -> bool {
    exists|i: int| 0 <= i < s.len() && #[trigger] s[i].id == id
}

/// The position of the user carrying the given id.
pub open spec fn user_id_index(s: Seq<User>, id: int) -> int {
    choose|i: int| 0 <= i < s.len() && #[trigger] s[i].id == id
}

/// The view of an optional string.
pub open spec fn opt_view(o: Option<String>) -> Option<Seq<char>> {
    match o {
        Some(s) => Some(s@),
        None => None,
    }
}

/// The id recorded for the acting operator: absent when nobody is logged
/// in.
pub open spec fn actor_id(who: Option<UserSession>) -> Option<i32> {
    match who {
        Some(s) => Some(s.user_id),
        None => None,
    }
}

/// The username recorded for the acting operator: the literal `system`
/// tag when nobody is logged in.
pub open spec fn actor_name(who: Option<UserSession>) -> Seq<char> {
    match who {
        Some(s) => s.username@,
        None => "system"@,
    }
}

/// The in-memory record store: the two tables and the audit log. Rows are
/// loaded from persistent storage through the `load_*` operations and
/// written back by the caller; all decisions happen here.
pub struct Database {
    employee_rows: Vec<Employee>,
    user_rows: Vec<User>,
    audit_rows: Vec<AuditLog>,
    next_user_id: i32,
    next_audit_id: i32,
}

/// The two tables and the audit log as one exportable value, the unit the
/// export and import operations move.
#[derive(Debug)]
pub struct DatabaseSnapshot {
    pub employees: Vec<Employee>,
    pub users: Vec<User>,
    pub audit_logs: Vec<AuditLog>,
    pub next_user_id: i32,
    pub next_audit_id: i32,
}

/// A snapshot that satisfies the store's invariants, as every exported
/// snapshot does.
pub open spec fn snapshot_wf(s: DatabaseSnapshot) -> bool {
    &&& employees_wf(s.employees@)
    &&& users_wf(s.users@, s.next_user_id as int)
    &&& logs_wf(s.audit_logs@, s.next_audit_id as int)
    &&& 1 <= s.next_user_id
    &&& 1 <= s.next_audit_id
}

impl Database {
    /// The employee table, in its sorted order.
    pub closed spec fn employees(self) -> Seq<Employee> {
        self.employee_rows@
    }

    /// The user table, in id order.
    pub closed spec fn users(self) -> Seq<User> {
        self.user_rows@
    }

    /// The audit log, oldest entry first.
    pub closed spec fn audit_logs(self) -> Seq<AuditLog> {
        self.audit_rows@
    }

    /// The id the next created user will receive.
    pub closed spec fn spec_next_user_id(self) -> int {
        self.next_user_id as int
    }

    /// The id the next audit entry will receive.
    pub closed spec fn spec_next_audit_id(self) -> int {
        self.next_audit_id as int
    }

    /// The store's invariants.
    pub open spec fn wf(self) -> bool {
        &&& employees_wf(self.employees())
        &&& users_wf(self.users(), self.spec_next_user_id())
        &&& logs_wf(self.audit_logs(), self.spec_next_audit_id())
        &&& 1 <= self.spec_next_user_id() <= i32::MAX
        &&& 1 <= self.spec_next_audit_id() <= i32::MAX
    }

    /// Room for one more audit entry; mutating operations need it since
    /// each appends one.
    pub open spec fn can_log(self) -> bool {
        self.spec_next_audit_id() < i32::MAX
    }

    /// An empty store.
    pub fn new() -> (r: Self)
        ensures
            r.wf(),
            r.employees() =~= Seq::<Employee>::empty(),
            r.users() =~= Seq::<User>::empty(),
            r.audit_logs() =~= Seq::<AuditLog>::empty(),
            r.spec_next_user_id() == 1,
            r.spec_next_audit_id() == 1,
    {
        Database {
            employee_rows: Vec::new(),
            user_rows: Vec::new(),
            audit_rows: Vec::new(),
            next_user_id: 1,
            next_audit_id: 1,
        }
    }

    /// Whether the audit trail can take one more entry; true until the
    /// entry ids are exhausted.
    pub fn can_log_now(&self) -> (r: bool)
        ensures
            r == self.can_log(),
    {
        self.next_audit_id < i32::MAX
    }

    /// Whether the user table can take one more account; true until the
    /// account ids are exhausted.
    pub fn can_add_user(&self) -> (r: bool)
        ensures
            r == (self.spec_next_user_id() < i32::MAX),
    {
        self.next_user_id < i32::MAX
    }

    /// The id the next created user will receive.
    pub fn next_id_for_user(&self) -> (r: i32)
        ensures
            r == self.spec_next_user_id(),
    {
        self.next_user_id
    }

    /// A borrow of the employee table.
    pub fn employee_table(&self) -> (r: &Vec<Employee>)
        ensures
            r@ == self.employees(),
    {
        &self.employee_rows
    }

    /// A borrow of the user table.
    pub fn user_table(&self) -> (r: &Vec<User>)
        ensures
            r@ == self.users(),
    {
        &self.user_rows
    }

    /// A borrow of the audit log.
    pub fn audit_table(&self) -> (r: &Vec<AuditLog>)
        ensures
            r@ == self.audit_logs(),
    {
        &self.audit_rows
    }

    /// The position of the employee with the given key, if any.
    pub fn find_employee(&self, epf_number: &str) -> (r: Option<usize>)
        ensures
            match r {
                Some(i) => i < self.employees().len() && self.employees()[i as int].epf_number@
                    == epf_number@ && has_employee(self.employees(), epf_number@),
                None => !has_employee(self.employees(), epf_number@),
            },
    {
        let n = self.employee_rows.len();
        let mut i: usize = 0;
        while i < n
            invariant
                i <= n,
                n == self.employees().len(),
                forall|k: int| 0 <= k < i ==> #[trigger] self.employees()[k].epf_number@
                    != epf_number@,
            decreases n - i,
        {
            if str_eq(self.employee_rows[i].epf_number.as_str(), epf_number) {
                return Some(i);
            }
            i += 1;
        }
        None
    }

    /// The position of the user with the given username, if any.
    pub fn find_user_by_name(&self, username: &str) -> (r: Option<usize>)
        ensures
            match r {
                Some(i) => i < self.users().len() && self.users()[i as int].username@ == username@
                    && has_username(self.users(), username@),
                None => !has_username(self.users(), username@),
            },
    {
        let n = self.user_rows.len();
        let mut i: usize = 0;
        while i < n
            invariant
                i <= n,
                n == self.users().len(),
                forall|k: int| 0 <= k < i ==> #[trigger] self.users()[k].username@ != username@,
            decreases n - i,
        {
            if str_eq(self.user_rows[i].username.as_str(), username) {
                return Some(i);
            }
            i += 1;
        }
        None
    }

    /// The position of the user with the given id, if any.
    pub fn find_user_by_id(&self, id: i32) -> (r: Option<usize>)
        ensures
            match r {
                Some(i) => i < self.users().len() && self.users()[i as int].id == id
                    && has_user_id(self.users(), id as int),
                None => !has_user_id(self.users(), id as int),
            },
    {
        let n = self.user_rows.len();
        let mut i: usize = 0;
        while i < n
            invariant
                i <= n,
                n == self.users().len(),
                forall|k: int| 0 <= k < i ==> #[trigger] self.users()[k].id != id,
            decreases n - i,
        {
            if self.user_rows[i].id == id {
                return Some(i);
            }
            i += 1;
        }
        None
    }

    /// Inserts a new employee at its sorted position.
    pub fn insert_employee_sorted(&mut self, e: Employee)
        requires
            old(self).wf(),
            !has_employee(old(self).employees(), e.epf_number@),
        ensures
            final(self).wf(),
            exists|i: int|
                0 <= i <= old(self).employees().len() && final(self).employees()
                    == #[trigger] old(self).employees().insert(i, e),
            has_employee(final(self).employees(), e.epf_number@),
            final(self).users() == old(self).users(),
            final(self).audit_logs() == old(self).audit_logs(),
            final(self).spec_next_user_id() == old(self).spec_next_user_id(),
            final(self).spec_next_audit_id() == old(self).spec_next_audit_id(),
    {
        let n = self.employee_rows.len();
        let mut idx: usize = 0;
        while idx < n
            invariant
                idx <= n,
                n == self.employees().len(),
                forall|k: int| 0 <= k < idx ==> lex_lt(
                    #[trigger] self.employees()[k].epf_number@,
                    e.epf_number@,
                ),
            ensures
                idx <= n,
                n == self.employees().len(),
                forall|k: int| 0 <= k < idx ==> lex_lt(
                    #[trigger] self.employees()[k].epf_number@,
                    e.epf_number@,
                ),
                idx < n ==> !lex_lt(self.employees()[idx as int].epf_number@, e.epf_number@),
            decreases n - idx,
        {
            if !str_lt_epf(&self.employee_rows[idx], &e) {
                break;
            }
            idx += 1;
        }
        proof {
            let s = self.employees();
            assert forall|k: int| idx <= k < s.len() implies lex_lt(
                e.epf_number@,
                #[trigger] s[k].epf_number@,
            ) by {
                assert(s[k].epf_number@ != e.epf_number@);
                assert(s[idx as int].epf_number@ != e.epf_number@);
                lemma_lex_lt_total(s[idx as int].epf_number@, e.epf_number@);
                if k == idx {
                } else {
                    lemma_lex_lt_trans(
                        e.epf_number@,
                        s[idx as int].epf_number@,
                        s[k].epf_number@,
                    );
                }
            }
            lemma_sorted_insert(s, e, idx as int);
            s.insert_ensures(idx as int, e);
        }
        self.employee_rows.insert(idx, e);
    }

    /// Replaces the employee at a position by a record with the same key.
    pub fn replace_employee_at(&mut self, i: usize, e: Employee)
        requires
            old(self).wf(),
            i < old(self).employees().len(),
            e.epf_number@ == old(self).employees()[i as int].epf_number@,
        ensures
            final(self).wf(),
            final(self).employees() == old(self).employees().update(i as int, e),
            final(self).users() == old(self).users(),
            final(self).audit_logs() == old(self).audit_logs(),
            final(self).spec_next_user_id() == old(self).spec_next_user_id(),
            final(self).spec_next_audit_id() == old(self).spec_next_audit_id(),
    {
        self.employee_rows.set(i, e);
    }

    /// Removes the employee at a position.
    pub fn remove_employee_at(&mut self, i: usize)
        requires
            old(self).wf(),
            i < old(self).employees().len(),
        ensures
            final(self).wf(),
            final(self).employees() == old(self).employees().remove(i as int),
            final(self).users() == old(self).users(),
            final(self).audit_logs() == old(self).audit_logs(),
            final(self).spec_next_user_id() == old(self).spec_next_user_id(),
            final(self).spec_next_audit_id() == old(self).spec_next_audit_id(),
    {
        proof {
            old(self).employees().remove_ensures(i as int);
        }
        self.employee_rows.remove(i);
    }

    /// Appends a new user with the next id.
    pub fn push_user(&mut self, u: User)
        requires
            old(self).wf(),
            old(self).spec_next_user_id() < i32::MAX,
            u.id == old(self).spec_next_user_id(),
            !has_username(old(self).users(), u.username@),
        ensures
            final(self).wf(),
            final(self).users() == old(self).users().push(u),
            final(self).spec_next_user_id() == old(self).spec_next_user_id() + 1,
            final(self).employees() == old(self).employees(),
            final(self).audit_logs() == old(self).audit_logs(),
            final(self).spec_next_audit_id() == old(self).spec_next_audit_id(),
    {
        self.user_rows.push(u);
        self.next_user_id = self.next_user_id + 1;
    }

    /// Replaces the user at a position, keeping its id and username.
    pub fn replace_user_at(&mut self, i: usize, u: User)
        requires
            old(self).wf(),
            i < old(self).users().len(),
            u.id == old(self).users()[i as int].id,
            u.username@ == old(self).users()[i as int].username@,
        ensures
            final(self).wf(),
            final(self).users() == old(self).users().update(i as int, u),
            final(self).employees() == old(self).employees(),
            final(self).audit_logs() == old(self).audit_logs(),
            final(self).spec_next_user_id() == old(self).spec_next_user_id(),
            final(self).spec_next_audit_id() == old(self).spec_next_audit_id(),
    {
        self.user_rows.set(i, u);
    }

    /// Removes the user at a position.
    pub fn remove_user_at(&mut self, i: usize)
        requires
            old(self).wf(),
            i < old(self).users().len(),
        ensures
            final(self).wf(),
            final(self).users() == old(self).users().remove(i as int),
            final(self).employees() == old(self).employees(),
            final(self).audit_logs() == old(self).audit_logs(),
            final(self).spec_next_user_id() == old(self).spec_next_user_id(),
            final(self).spec_next_audit_id() == old(self).spec_next_audit_id(),
    {
        proof {
            old(self).users().remove_ensures(i as int);
        }
        self.user_rows.remove(i);
    }

    /// Appends one audit entry carrying the next entry id and the given
    /// timestamp. The entry is immutable from here on: nothing in the
    /// store ever rewrites or removes it.
    pub fn append_audit(
        &mut self,
        user_id: Option<i32>,
        username: String,
        action: String,
        entity_type: String,
        entity_id: Option<String>,
        old_value: Option<String>,
        new_value: Option<String>,
        details: Option<String>,
        now: &str,
    )
        requires
            old(self).wf(),
            old(self).can_log(),
        ensures
            final(self).wf(),
            final(self).audit_logs() == old(self).audit_logs().push(
                final(self).audit_logs().last(),
            ),
            ({
                let e = final(self).audit_logs().last();
                &&& e.id == old(self).spec_next_audit_id()
                &&& e.user_id == user_id
                &&& e.username == username
                &&& e.action == action
                &&& e.entity_type == entity_type
                &&& e.entity_id == entity_id
                &&& e.old_value == old_value
                &&& e.new_value == new_value
                &&& e.details == details
                &&& opt_view(e.created_at) == Some(now@)
            }),
            final(self).spec_next_audit_id() == old(self).spec_next_audit_id() + 1,
            final(self).employees() == old(self).employees(),
            final(self).users() == old(self).users(),
            final(self).spec_next_user_id() == old(self).spec_next_user_id(),
    {
        let entry = AuditLog {
            id: self.next_audit_id,
            user_id,
            username,
            action,
            entity_type,
            entity_id,
            old_value,
            new_value,
            details,
            created_at: Some(String::from_str(now)),
        };
        self.audit_rows.push(entry);
        self.next_audit_id = self.next_audit_id + 1;
    }

    /// A copy of the whole store, the value an export writes out.
    pub fn export_snapshot(&self) -> (s: DatabaseSnapshot)
        requires
            self.wf(),
        ensures
            snapshot_wf(s),
            s.employees@ == self.employees(),
            s.users@ == self.users(),
            s.audit_logs@ == self.audit_logs(),
            s.next_user_id == self.spec_next_user_id(),
            s.next_audit_id == self.spec_next_audit_id(),
    {
        DatabaseSnapshot {
            employees: clone_employees(&self.employee_rows),
            users: clone_users(&self.user_rows),
            audit_logs: clone_logs(&self.audit_rows),
            next_user_id: self.next_user_id,
            next_audit_id: self.next_audit_id,
        }
    }

    /// Replaces the whole store by a snapshot, as an import does. A
    /// snapshot produced by `export_snapshot` always satisfies the
    /// requirement, so importing what was exported restores exactly the
    /// rows that were exported: the row counts and content of both tables
    /// round-trip unchanged.
    pub fn import_snapshot(&mut self, s: DatabaseSnapshot)
        requires
            snapshot_wf(s),
        ensures
            final(self).wf(),
            final(self).employees() == s.employees@,
            final(self).users() == s.users@,
            final(self).audit_logs() == s.audit_logs@,
            final(self).spec_next_user_id() == s.next_user_id as int,
            final(self).spec_next_audit_id() == s.next_audit_id as int,
    {
        self.employee_rows = s.employees;
        self.user_rows = s.users;
        self.audit_rows = s.audit_logs;
        self.next_user_id = s.next_user_id;
        self.next_audit_id = s.next_audit_id;
    }

    /// Takes one employee row from persistent storage into the store.
    /// Rejects a duplicate key rather than trusting the file.
    pub fn load_employee(&mut self, e: Employee) -> (r: bool)
        requires
            old(self).wf(),
        ensures
            final(self).wf(),
            r ==> !has_employee(old(self).employees(), e.epf_number@) && exists|i: int|
                0 <= i <= old(self).employees().len() && final(self).employees()
                    == #[trigger] old(self).employees().insert(i, e),
            !r ==> has_employee(old(self).employees(), e.epf_number@) && *final(self) == *old(
                self,
            ),
            final(self).users() == old(self).users(),
            final(self).audit_logs() == old(self).audit_logs(),
    {
        match self.find_employee(e.epf_number.as_str()) {
            Some(_) => false,
            None => {
                self.insert_employee_sorted(e);
                true
            },
        }
    }

    /// Takes one user row from persistent storage into the store. The rows
    /// must arrive in increasing id order with ids from one up; duplicates
    /// and out-of-order rows are rejected.
    pub fn load_user(&mut self, u: User) -> (r: bool)
        requires
            old(self).wf(),
        ensures
            final(self).wf(),
            r <==> (u.id >= old(self).spec_next_user_id() && u.id < i32::MAX && !has_username(
                old(self).users(),
                u.username@,
            )),
            r ==> final(self).users() == old(self).users().push(u)
                && final(self).spec_next_user_id() == u.id + 1,
            !r ==> *final(self) == *old(self),
            final(self).employees() == old(self).employees(),
            final(self).audit_logs() == old(self).audit_logs(),
    {
        if u.id < self.next_user_id || u.id == i32::MAX {
            return false;
        }
        match self.find_user_by_name(u.username.as_str()) {
            Some(_) => false,
            None => {
                let id = u.id;
                self.user_rows.push(u);
                self.next_user_id = id + 1;
                true
            },
        }
    }

    /// Takes one audit row from persistent storage into the store. The
    /// rows must arrive in increasing id order; out-of-order rows are
    /// rejected.
    pub fn load_audit_log(&mut self, l: AuditLog) -> (r: bool)
        requires
            old(self).wf(),
        ensures
            final(self).wf(),
            r <==> (l.id >= old(self).spec_next_audit_id() && l.id < i32::MAX),
            r ==> final(self).audit_logs() == old(self).audit_logs().push(l)
                && final(self).spec_next_audit_id() == l.id + 1,
            !r ==> *final(self) == *old(self),
            final(self).employees() == old(self).employees(),
            final(self).users() == old(self).users(),
    {
        if l.id < self.next_audit_id || l.id == i32::MAX {
            return false;
        }
        let id = l.id;
        self.audit_rows.push(l);
        self.next_audit_id = id + 1;
        true
    }
}

fn str_lt_epf(a: &Employee, b: &Employee) -> (r: bool)
    ensures
        r == lex_lt(a.epf_number@, b.epf_number@),
{
    crate::text::str_lt(a.epf_number.as_str(), b.epf_number.as_str())
}

/// Inserting a key between its lexicographic neighbours keeps the table
/// sorted.
proof fn lemma_sorted_insert(s: Seq<Employee>, e: Employee, idx: int)
    requires
        employees_wf(s),
        0 <= idx <= s.len(),
        forall|k: int| 0 <= k < idx ==> lex_lt(#[trigger] s[k].epf_number@, e.epf_number@),
        forall|k: int| idx <= k < s.len() ==> lex_lt(e.epf_number@, #[trigger] s[k].epf_number@),
    ensures
        employees_wf(s.insert(idx, e)),
{
    s.insert_ensures(idx, e);
    let t = s.insert(idx, e);
    assert forall|i: int, j: int| 0 <= i < j < t.len() implies lex_lt(
        #[trigger] t[i].epf_number@,
        #[trigger] t[j].epf_number@,
    ) by {
        if i < idx && j < idx {
        } else if i < idx && j == idx {
        } else if i < idx && j > idx {
            assert(t[i] == s[i] && t[j] == s[j - 1]);
        } else if i == idx {
            assert(t[j] == s[j - 1]);
        } else {
            assert(t[i] == s[i - 1] && t[j] == s[j - 1]);
        }
    }
}

fn clone_employees(v: &Vec<Employee>) -> (r: Vec<Employee>)
    ensures
        r@ == v@,
{
    let mut r: Vec<Employee> = Vec::new();
    let n = v.len();
    let mut i: usize = 0;
    while i < n
        invariant
            i <= n,
            n == v@.len(),
            r@ =~= v@.take(i as int),
        decreases n - i,
    {
        r.push(v[i].clone());
        assert(v@.take(i + 1) =~= v@.take(i as int).push(v@[i as int]));
        i += 1;
    }
    assert(v@.take(n as int) =~= v@);
    r
}

fn clone_users(v: &Vec<User>) -> (r: Vec<User>)
    ensures
        r@ == v@,
{
    let mut r: Vec<User> = Vec::new();
    let n = v.len();
    let mut i: usize = 0;
    while i < n
        invariant
            i <= n,
            n == v@.len(),
            r@ =~= v@.take(i as int),
        decreases n - i,
    {
        r.push(v[i].clone());
        assert(v@.take(i + 1) =~= v@.take(i as int).push(v@[i as int]));
        i += 1;
    }
    assert(v@.take(n as int) =~= v@);
    r
}

fn clone_logs(v: &Vec<AuditLog>) -> (r: Vec<AuditLog>)
    ensures
        r@ == v@,
{
    let mut r: Vec<AuditLog> = Vec::new();
    let n = v.len();
    let mut i: usize = 0;
    while i < n
        invariant
            i <= n,
            n == v@.len(),
            r@ =~= v@.take(i as int),
        decreases n - i,
    {
        r.push(v[i].clone());
        assert(v@.take(i + 1) =~= v@.take(i as int).push(v@[i as int]));
        i += 1;
    }
    assert(v@.take(n as int) =~= v@);
    r
}

/// Once the employee with a key is removed, no employee carries that key:
/// a lookup after a delete misses.
pub proof fn lemma_removed_key_not_found(s: Seq<Employee>, i: int, epf: Seq<char>)
    requires
        employees_wf(s),
        0 <= i < s.len(),
        s[i].epf_number@ == epf,
    ensures
        !has_employee(s.remove(i), epf),
{
    s.remove_ensures(i);
    assert forall|k: int| 0 <= k < s.remove(i).len() implies #[trigger] s.remove(
        i,
    )[k].epf_number@ != epf by {
        if k < i {
            crate::text::lemma_lex_lt_total(s[k].epf_number@, s[i].epf_number@);
        } else {
            assert(s.remove(i)[k] == s[k + 1]);
            crate::text::lemma_lex_lt_total(s[k + 1].epf_number@, s[i].epf_number@);
        }
    }
}

/// The key is unique, so the position of a key is the position of any row
/// carrying it.
pub proof fn lemma_employee_index(s: Seq<Employee>, epf: Seq<char>, i: int)
    requires
        employees_wf(s),
        0 <= i < s.len(),
        s[i].epf_number@ == epf,
    ensures
        has_employee(s, epf),
        employee_index(s, epf) == i,
{
    assert(has_employee(s, epf));
    let j = employee_index(s, epf);
    if i < j {
        crate::text::lemma_lex_lt_total(s[i].epf_number@, s[j].epf_number@);
    } else if j < i {
        crate::text::lemma_lex_lt_total(s[j].epf_number@, s[i].epf_number@);
    }
}

/// Usernames are unique, so the position of a username is the position of
/// any row carrying it.
pub proof fn lemma_username_index(s: Seq<User>, name: Seq<char>, i: int)
    requires
        forall|k1: int, k2: int|
            0 <= k1 < k2 < s.len() ==> #[trigger] s[k1].username@ != #[trigger] s[k2].username@,
        0 <= i < s.len(),
        s[i].username@ == name,
    ensures
        has_username(s, name),
        username_index(s, name) == i,
{
    assert(has_username(s, name));
}

/// Ids are unique, so the position of an id is the position of any row
/// carrying it.
pub proof fn lemma_user_id_index(s: Seq<User>, id: int, i: int)
    requires
        forall|k1: int, k2: int| 0 <= k1 < k2 < s.len() ==> #[trigger] s[k1].id < #[trigger] s[k2].id,
        0 <= i < s.len(),
        s[i].id == id,
    ensures
        has_user_id(s, id),
        user_id_index(s, id) == i,
{
    assert(has_user_id(s, id));
}

/// Once the user with an id is removed, no user carries that id.
pub proof fn lemma_removed_id_not_found(s: Seq<User>, i: int, id: int)
    requires
        forall|k1: int, k2: int| 0 <= k1 < k2 < s.len() ==> #[trigger] s[k1].id < #[trigger] s[k2].id,
        0 <= i < s.len(),
        s[i].id == id,
    ensures
        !has_user_id(s.remove(i), id),
{
    s.remove_ensures(i);
    assert forall|k: int| 0 <= k < s.remove(i).len() implies #[trigger] s.remove(i)[k].id
        != id by {
        if k >= i {
            assert(s.remove(i)[k] == s[k + 1]);
        }
    }
}

/// With strictly increasing ids below a bound, the table cannot hold more
/// rows than the bound allows.
pub proof fn lemma_increasing_ids_len_bound(s: Seq<AuditLog>, next_id: int)
    requires
        logs_wf(s, next_id),
        1 <= next_id,
    ensures
        s.len() <= next_id - 1,
{
    if s.len() > 0 {
        lemma_log_id_at_least(s, s.len() - 1);
    }
}

proof fn lemma_log_id_at_least(s: Seq<AuditLog>, i: int)
    requires
        forall|k1: int, k2: int| 0 <= k1 < k2 < s.len() ==> #[trigger] s[k1].id < #[trigger] s[k2].id,
        forall|k: int| 0 <= k < s.len() ==> 1 <= #[trigger] s[k].id,
        0 <= i < s.len(),
    ensures
        s[i].id >= i + 1,
    decreases i,
{
    if i > 0 {
        lemma_log_id_at_least(s, i - 1);
    }
}

/// The same bound for the user table.
pub proof fn lemma_user_ids_len_bound(s: Seq<User>, next_id: int)
    requires
        users_wf(s, next_id),
        1 <= next_id,
    ensures
        s.len() <= next_id - 1,
{
    if s.len() > 0 {
        lemma_user_id_at_least(s, s.len() - 1);
    }
}

proof fn lemma_user_id_at_least(s: Seq<User>, i: int)
    requires
        forall|k1: int, k2: int| 0 <= k1 < k2 < s.len() ==> #[trigger] s[k1].id < #[trigger] s[k2].id,
        forall|k: int| 0 <= k < s.len() ==> 1 <= #[trigger] s[k].id,
        0 <= i < s.len(),
    ensures
        s[i].id >= i + 1,
    decreases i,
{
    if i > 0 {
        lemma_user_id_at_least(s, i - 1);
    }
}

/// What one audit entry must hold, field by field.
pub open spec fn audit_entry_matches(
    e: AuditLog,
    id: int,
    user_id: Option<i32>,
    username: Seq<char>,
    action: Seq<char>,
    entity_type: Seq<char>,
    entity_id: Option<Seq<char>>,
    old_value: Option<Seq<char>>,
    new_value: Option<Seq<char>>,
    details: Option<Seq<char>>,
    created_at: Seq<char>,
) -> bool {
    &&& e.id == id
    &&& e.user_id == user_id
    &&& e.username@ == username
    &&& e.action@ == action
    &&& e.entity_type@ == entity_type
    &&& opt_view(e.entity_id) == entity_id
    &&& opt_view(e.old_value) == old_value
    &&& opt_view(e.new_value) == new_value
    &&& opt_view(e.details) == details
    &&& opt_view(e.created_at) == Some(created_at)
}

} // verus!
