//! The audit trail's read and write surface: appending entries, the
//! filtered, paginated query (newest first), and the summary counts.

use vstd::prelude::*;
use crate::db::{
    actor_id, actor_name, audit_entry_matches, lemma_increasing_ids_len_bound, opt_view, Database,
};
use crate::grouping::{group_counts, grouped_counts_ok, truncate_groups, views_of};
use crate::models::{AuditLog, AuditLogFilters, AuditLogResult, DepartmentCount};
use crate::seq_util::{lemma_filter_empty, lemma_filter_len_le, lemma_filter_push};
use crate::session::CurrentUser;
use crate::text::{copy_range, is_substring, lex_lt, str_contains, str_eq, str_lt};

verus! {

/// The date part of a timestamp: its leading ten characters (the whole
/// text when shorter). Timestamps are compared by this prefix.
pub open spec fn date_part(s: Seq<char>) -> Seq<char> {
    if s.len() <= 10 {
        s
    } else {
        s.take(10)
    }
}

fn date_part_of(t: &str) -> (r: String)
    ensures
        r@ == date_part(t@),
{
    let n = t.unicode_len();
    if n <= 10 {
        let r = copy_range(t, 0, n);
        proof {
            assert(t@.subrange(0, n as int) =~= t@);
        }
        r
    } else {
        copy_range(t, 0, 10)
    }
}

/// Whether an entry passes the query filters: empty fields are ignored,
/// the username matches as a substring, action and entity type match
/// exactly, and the date range compares the date part of the entry's
/// timestamp (an entry without a timestamp never passes a date bound).
pub open spec fn log_matches(l: AuditLog, f: AuditLogFilters) -> bool {
    &&& (f.username@.len() == 0 || is_substring(l.username@, f.username@))
    &&& (f.action@.len() == 0 || l.action@ == f.action@)
    &&& (f.entity_type@.len() == 0 || l.entity_type@ == f.entity_type@)
    &&& (f.start_date@.len() == 0 || match l.created_at {
        Some(t) => !lex_lt(date_part(t@), f.start_date@),
        None => false,
    })
    &&& (f.end_date@.len() == 0 || match l.created_at {
        Some(t) => !lex_lt(f.end_date@, date_part(t@)),
        None => false,
    })
}

/// The filters as a predicate over entries.
pub open spec fn log_pred(f: AuditLogFilters) -> spec_fn(AuditLog) -> bool {
    |l: AuditLog| log_matches(l, f)
}

fn log_matches_exec(l: &AuditLog, f: &AuditLogFilters) -> (r: bool)
    ensures
        r == log_matches(*l, *f),
{
    let user_ok = if f.username.as_str().is_empty() {
        true
    } else {
        str_contains(l.username.as_str(), f.username.as_str())
    };
    let action_ok = if f.action.as_str().is_empty() {
        true
    } else {
        str_eq(l.action.as_str(), f.action.as_str())
    };
    let entity_ok = if f.entity_type.as_str().is_empty() {
        true
    } else {
        str_eq(l.entity_type.as_str(), f.entity_type.as_str())
    };
    let start_ok = if f.start_date.as_str().is_empty() {
        true
    } else {
        match &l.created_at {
            Some(t) => {
                let d = date_part_of(t.as_str());
                !str_lt(d.as_str(), f.start_date.as_str())
            },
            None => false,
        }
    };
    let end_ok = if f.end_date.as_str().is_empty() {
        true
    } else {
        match &l.created_at {
            Some(t) => {
                let d = date_part_of(t.as_str());
                !str_lt(f.end_date.as_str(), d.as_str())
            },
            None => false,
        }
    };
    user_ok && action_ok && entity_ok && start_ok && end_ok
}

/// The page a limit and offset select from the matching entries, newest
/// first. A negative offset reads from the start; a negative limit means
/// no limit, as the underlying store treats it.
pub open spec fn page_of(filt: Seq<AuditLog>, limit: int, offset: int) -> Seq<AuditLog> {
    let rev = filt.reverse();
    let o = if offset < 0 {
        0
    } else if offset > rev.len() {
        rev.len() as int
    } else {
        offset
    };
    let l = if limit < 0 {
        rev.len() as int
    } else {
        limit
    };
    let e = if o + l > rev.len() {
        rev.len() as int
    } else {
        o + l
    };
    rev.subrange(o, e)
}

/// Appends one entry to the audit trail on behalf of lower layers; the
/// entry gets the next id and the given timestamp.
pub fn log_audit_action(
    db: &mut Database,
    user_id: Option<i32>,
    username: String,
    action: String,
    entity_type: String,
    entity_id: Option<String>,
    old_value: Option<String>,
    new_value: Option<String>,
    details: Option<String>,
    now: &str,
)
    requires
        old(db).wf(),
        old(db).can_log(),
    ensures
        final(db).wf(),
        final(db).employees() == old(db).employees(),
        final(db).users() == old(db).users(),
        final(db).spec_next_user_id() == old(db).spec_next_user_id(),
        final(db).spec_next_audit_id() == old(db).spec_next_audit_id() + 1,
        final(db).audit_logs() == old(db).audit_logs().push(final(db).audit_logs().last()),
        audit_entry_matches(
            final(db).audit_logs().last(),
            old(db).spec_next_audit_id(),
            user_id,
            username@,
            action@,
            entity_type@,
            opt_view(entity_id),
            opt_view(old_value),
            opt_view(new_value),
            opt_view(details),
            now@,
        ),
{
    db.append_audit(
        user_id,
        username,
        action,
        entity_type,
        entity_id,
        old_value,
        new_value,
        details,
        now,
    );
}

/// Appends one entry attributed to the current operator, or to the
/// `system` tag when nobody is logged in. Requires no capability.
pub fn create_audit_log(
    db: &mut Database,
    current: &CurrentUser,
    action: String,
    entity_type: String,
    entity_id: Option<String>,
    old_value: Option<String>,
    new_value: Option<String>,
    details: Option<String>,
    now: &str,
) -> (r: Result<(), crate::models::HrmError>)
    requires
        old(db).wf(),
        old(db).can_log(),
    ensures
        r is Ok,
        final(db).wf(),
        final(db).employees() == old(db).employees(),
        final(db).users() == old(db).users(),
        final(db).spec_next_user_id() == old(db).spec_next_user_id(),
        final(db).spec_next_audit_id() == old(db).spec_next_audit_id() + 1,
        final(db).audit_logs() == old(db).audit_logs().push(final(db).audit_logs().last()),
        audit_entry_matches(
            final(db).audit_logs().last(),
            old(db).spec_next_audit_id(),
            actor_id(current@),
            actor_name(current@),
            action@,
            entity_type@,
            opt_view(entity_id),
            opt_view(old_value),
            opt_view(new_value),
            opt_view(details),
            now@,
        ),
{
    let who = current.get();
    let (user_id, username) = match &who {
        Some(s) => (Some(s.user_id), s.username.clone()),
        None => (None, String::from_str("system")),
    };
    db.append_audit(
        user_id,
        username,
        action,
        entity_type,
        entity_id,
        old_value,
        new_value,
        details,
        now,
    );
    Ok(())
}

/// The page of matching entries, newest first, together with the total
/// number of entries the filters match.
pub fn get_audit_logs(db: &Database, filters: &AuditLogFilters) -> (r: AuditLogResult)
    requires
        db.wf(),
    ensures
        ({
            let filt = db.audit_logs().filter(log_pred(*filters));
            &&& r.total_count == filt.len()
            &&& r.logs@ == page_of(filt, filters.limit as int, filters.offset as int)
        }),
{
    let ghost pred = log_pred(*filters);
    let rows = db.audit_table();
    let n = rows.len();
    let mut matched: Vec<AuditLog> = Vec::new();
    let mut i: usize = 0;
    proof {
        assert(db.audit_logs().take(0) =~= Seq::<AuditLog>::empty());
        lemma_filter_empty(db.audit_logs().take(0), pred);
    }
    while i < n
        invariant
            i <= n,
            n == db.audit_logs().len(),
            rows@ == db.audit_logs(),
            pred == log_pred(*filters),
            matched@ == db.audit_logs().take(i as int).filter(pred),
        decreases n - i,
    {
        let keep = log_matches_exec(&rows[i], filters);
        proof {
            lemma_filter_push(db.audit_logs().take(i as int), db.audit_logs()[i as int], pred);
            assert(db.audit_logs().take(i + 1) =~= db.audit_logs().take(i as int).push(
                db.audit_logs()[i as int],
            ));
        }
        if keep {
            matched.push(rows[i].clone());
        }
        i += 1;
    }
    proof {
        assert(db.audit_logs().take(n as int) =~= db.audit_logs());
        lemma_increasing_ids_len_bound(db.audit_logs(), db.spec_next_audit_id());
        lemma_filter_len_le(db.audit_logs(), pred);
    }
    let ghost filt = db.audit_logs().filter(pred);
    let len = matched.len();
    let total_count = len as i32;
    let o: usize = if filters.offset < 0 {
        0
    } else if (filters.offset as usize) > len {
        len
    } else {
        filters.offset as usize
    };
    let cnt: usize = if filters.limit < 0 {
        len - o
    } else if (filters.limit as usize) > len - o {
        len - o
    } else {
        filters.limit as usize
    };
    let mut logs: Vec<AuditLog> = Vec::new();
    let mut k: usize = 0;
    while k < cnt
        invariant
            k <= cnt,
            o + cnt <= len,
            len == matched@.len(),
            matched@ == filt,
            logs@.len() == k,
            forall|t: int| 0 <= t < k ==> #[trigger] logs@[t] == filt[len - 1 - o - t],
        decreases cnt - k,
    {
        logs.push(matched[len - 1 - o - k].clone());
        k += 1;
    }
    proof {
        let page = page_of(filt, filters.limit as int, filters.offset as int);
        assert forall|t: int| 0 <= t < page.len() implies page[t] == filt.reverse()[o + t] by {}
        assert(logs@ =~= page);
    }
    AuditLogResult { logs, total_count }
}

/// The predicate selecting entries stamped on the given day.
pub open spec fn created_on(day: Seq<char>) -> spec_fn(AuditLog) -> bool {
    |l: AuditLog|
        match l.created_at {
            Some(t) => date_part(t@) == day,
            None => false,
        }
}

/// The predicate selecting entries stamped on or after the cutoff day.
pub open spec fn created_since(cutoff: Seq<char>) -> spec_fn(AuditLog) -> bool {
    |l: AuditLog|
        match l.created_at {
            Some(t) => !lex_lt(date_part(t@), cutoff),
            None => false,
        }
}

/// The action tag of every entry, in log order.
pub open spec fn action_keys(db: Database) -> Seq<Seq<char>> {
    db.audit_logs().map_values(|l: AuditLog| l.action@)
}

/// The username of every entry stamped on or after the cutoff, in log
/// order.
pub open spec fn recent_user_keys(db: Database, cutoff: Seq<char>) -> Seq<Seq<char>> {
    db.audit_logs().filter(created_since(cutoff)).map_values(|l: AuditLog| l.username@)
}

/// A capped grouped count: a leading slice of some full grouped count of
/// the keys, largest groups first.
pub open spec fn top_groups_ok(kvs: Seq<Seq<char>>, r: Seq<DepartmentCount>, n: int) -> bool {
    exists|g: Seq<DepartmentCount>|
        #[trigger] grouped_counts_ok(kvs, g) && r == g.take(
            if g.len() <= n {
                g.len() as int
            } else {
                n
            },
        )
}

/// The audit summary counts.
#[derive(Debug)]
pub struct AuditLogSummary {
    pub total_logs: i32,
    pub today_logs: i32,
    pub week_logs: i32,
    pub action_breakdown: Vec<DepartmentCount>,
    pub active_users: Vec<DepartmentCount>,
}

/// The summary: total entries, entries stamped today, entries in the
/// trailing window the caller bounds, the ten most frequent actions, and
/// the five most active users within the window.
pub fn get_audit_log_summary(db: &Database, today: &str, week_cutoff: &str) -> (r: AuditLogSummary)
    requires
        db.wf(),
    ensures
        r.total_logs == db.audit_logs().len(),
        r.today_logs == db.audit_logs().filter(created_on(today@)).len(),
        r.week_logs == db.audit_logs().filter(created_since(week_cutoff@)).len(),
        top_groups_ok(action_keys(*db), r.action_breakdown@, 10),
        top_groups_ok(recent_user_keys(*db, week_cutoff@), r.active_users@, 5),
{
    let ghost tod = created_on(today@);
    let ghost since = created_since(week_cutoff@);
    let rows = db.audit_table();
    let n = rows.len();
    proof {
        lemma_increasing_ids_len_bound(db.audit_logs(), db.spec_next_audit_id());
        lemma_filter_len_le(db.audit_logs(), tod);
        lemma_filter_len_le(db.audit_logs(), since);
    }
    let mut today_count: usize = 0;
    let mut week_count: usize = 0;
    let mut actions: Vec<String> = Vec::new();
    let mut recent_users: Vec<String> = Vec::new();
    let mut i: usize = 0;
    proof {
        assert(db.audit_logs().take(0) =~= Seq::<AuditLog>::empty());
        lemma_filter_empty(db.audit_logs().take(0), tod);
        lemma_filter_empty(db.audit_logs().take(0), since);
        assert(views_of(actions@) =~= db.audit_logs().take(0).map_values(
            |l: AuditLog| l.action@,
        ));
        assert(views_of(recent_users@) =~= db.audit_logs().take(0).filter(since).map_values(
            |l: AuditLog| l.username@,
        ));
    }
    while i < n
        invariant
            i <= n,
            n == db.audit_logs().len(),
            rows@ == db.audit_logs(),
            tod == created_on(today@),
            since == created_since(week_cutoff@),
            today_count == db.audit_logs().take(i as int).filter(tod).len(),
            week_count == db.audit_logs().take(i as int).filter(since).len(),
            today_count <= i && week_count <= i,
            actions@.len() == i,
            recent_users@.len() <= i,
            views_of(actions@) == db.audit_logs().take(i as int).map_values(
                |l: AuditLog| l.action@,
            ),
            views_of(recent_users@) == db.audit_logs().take(i as int).filter(since).map_values(
                |l: AuditLog| l.username@,
            ),
        decreases n - i,
    {
        proof {
            lemma_filter_push(db.audit_logs().take(i as int), db.audit_logs()[i as int], tod);
            lemma_filter_push(db.audit_logs().take(i as int), db.audit_logs()[i as int], since);
            assert(db.audit_logs().take(i + 1) =~= db.audit_logs().take(i as int).push(
                db.audit_logs()[i as int],
            ));
        }
        let l = &rows[i];
        let in_window = match &l.created_at {
            Some(t) => {
                let d = date_part_of(t.as_str());
                if str_eq(d.as_str(), today) {
                    today_count += 1;
                }
                !str_lt(d.as_str(), week_cutoff)
            },
            None => false,
        };
        let ghost pre_actions = actions@;
        actions.push(l.action.clone());
        proof {
            assert(views_of(actions@) =~= views_of(pre_actions).push(db.audit_logs()[
                i as int].action@));
            assert(views_of(actions@) =~= db.audit_logs().take(i + 1).map_values(
                |l: AuditLog| l.action@,
            ));
        }
        if in_window {
            week_count += 1;
            let ghost pre_users = recent_users@;
            recent_users.push(l.username.clone());
            proof {
                assert(views_of(recent_users@) =~= views_of(pre_users).push(db.audit_logs()[
                    i as int].username@));
            }
        }
        proof {
            assert(views_of(recent_users@) =~= db.audit_logs().take(i + 1).filter(
                since,
            ).map_values(|l: AuditLog| l.username@));
        }
        i += 1;
    }
    proof {
        assert(db.audit_logs().take(n as int) =~= db.audit_logs());
    }
    let full_actions = group_counts(&actions);
    let ghost full_actions_view = full_actions@;
    let action_breakdown = truncate_groups(full_actions, 10, Ghost(views_of(actions@)));
    let full_users = group_counts(&recent_users);
    let ghost full_users_view = full_users@;
    let active_users = truncate_groups(full_users, 5, Ghost(views_of(recent_users@)));
    proof {
        assert(top_groups_ok(action_keys(*db), action_breakdown@, 10)) by {
            assert(grouped_counts_ok(action_keys(*db), full_actions_view));
        }
        assert(top_groups_ok(recent_user_keys(*db, week_cutoff@), active_users@, 5)) by {
            assert(grouped_counts_ok(recent_user_keys(*db, week_cutoff@), full_users_view));
        }
    }
    AuditLogSummary {
        total_logs: n as i32,
        today_logs: today_count as i32,
        week_logs: week_count as i32,
        action_breakdown,
        active_users,
    }
}

} // verus!
