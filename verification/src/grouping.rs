//! Grouped counts: how many times each distinct key occurs in a list,
//! reported largest group first — the shape of the dashboard breakdowns
//! and of the audit summary.

use vstd::prelude::*;
use crate::models::DepartmentCount;
use crate::text::str_eq;

verus! {

/// The views of a list of keys.
pub open spec fn views_of(s: Seq<String>) -> Seq<Seq<char>> {
    s.map_values(|x: String| x@)
}

/// How many keys equal `v`.
pub open spec fn count_occ(keys: Seq<Seq<char>>, v: Seq<char>) -> nat
    decreases keys.len(),
{
    if keys.len() == 0 {
        0
    } else {
        count_occ(keys.drop_last(), v) + (if keys.last() == v {
            1nat
        } else {
            0nat
        })
    }
}

/// Appending one key raises exactly its own count by one.
pub proof fn lemma_count_occ_push(keys: Seq<Seq<char>>, x: Seq<char>, v: Seq<char>)
    ensures
        count_occ(keys.push(x), v) == count_occ(keys, v) + (if x == v {
            1nat
        } else {
            0nat
        }),
{
    assert(keys.push(x).drop_last() =~= keys);
}

/// A count never exceeds the number of keys.
pub proof fn lemma_count_occ_le_len(keys: Seq<Seq<char>>, v: Seq<char>)
    ensures
        count_occ(keys, v) <= keys.len(),
    decreases keys.len(),
{
    if keys.len() > 0 {
        lemma_count_occ_le_len(keys.drop_last(), v);
    }
}

/// A key has a positive count exactly when it occurs.
pub proof fn lemma_count_occ_positive(keys: Seq<Seq<char>>, v: Seq<char>)
    ensures
        count_occ(keys, v) > 0 <==> exists|i: int| 0 <= i < keys.len() && keys[i] == v,
    decreases keys.len(),
{
    if keys.len() > 0 {
        lemma_count_occ_positive(keys.drop_last(), v);
        if count_occ(keys, v) > 0 {
            if keys.last() == v {
                assert(keys[keys.len() - 1] == v);
            } else {
                let i = choose|i: int| 0 <= i < keys.drop_last().len() && keys.drop_last()[i] == v;
                assert(keys[i] == v);
            }
        }
        if exists|i: int| 0 <= i < keys.len() && keys[i] == v {
            let i = choose|i: int| 0 <= i < keys.len() && keys[i] == v;
            if i < keys.len() - 1 {
                assert(keys.drop_last()[i] == v);
            }
        }
    }
}

/// Whether some group in `r` carries the name `v`.
pub open spec fn name_present(r: Seq<DepartmentCount>, v: Seq<char>) -> bool {
    exists|k: int| 0 <= k < r.len() && (#[trigger] r[k].name)@ == v
}

/// A position carrying the name witnesses its presence.
pub proof fn lemma_name_present_witness(r: Seq<DepartmentCount>, v: Seq<char>, k: int)
    requires
        0 <= k < r.len(),
        r[k].name@ == v,
    ensures
        name_present(r, v),
{
}

/// What the grouped count of a key list must be: one entry per distinct
/// key, carrying its exact count, every key covered, ordered by count,
/// largest first.
pub open spec fn grouped_counts_ok(kvs: Seq<Seq<char>>, r: Seq<DepartmentCount>) -> bool {
    &&& forall|k: int| 0 <= k < r.len() ==> (#[trigger] r[k].count) as nat == count_occ(
        kvs,
        r[k].name@,
    )
    &&& forall|k: int| 0 <= k < r.len() ==> count_occ(kvs, (#[trigger] r[k].name)@) > 0
    &&& forall|k1: int, k2: int|
        0 <= k1 < k2 < r.len() ==> (#[trigger] r[k1].name)@ != (#[trigger] r[k2].name)@
    &&& forall|i: int| 0 <= i < kvs.len() ==> name_present(r, #[trigger] kvs[i])
    &&& forall|k1: int, k2: int|
        0 <= k1 < k2 < r.len() ==> #[trigger] r[k1].count >= #[trigger] r[k2].count
}

/// Groups the keys and counts each, largest group first.
pub fn group_counts(keys: &Vec<String>) -> (r: Vec<DepartmentCount>)
    requires
        keys@.len() <= i32::MAX,
    ensures
        grouped_counts_ok(views_of(keys@), r@),
        r@.len() <= keys@.len(),
{
    let ghost kvs = views_of(keys@);
    let n = keys.len();
    let mut acc: Vec<DepartmentCount> = Vec::new();
    let mut i: usize = 0;
    proof {
        assert(kvs.take(0) =~= Seq::<Seq<char>>::empty());
    }
    while i < n
        invariant
            i <= n,
            n == keys@.len(),
            n <= i32::MAX,
            kvs == views_of(keys@),
            acc@.len() <= i,
            forall|k: int| 0 <= k < acc@.len() ==> (#[trigger] acc@[k].count) as nat == count_occ(
                kvs.take(i as int),
                acc@[k].name@,
            ),
            forall|k: int| 0 <= k < acc@.len() ==> 1 <= #[trigger] acc@[k].count,
            forall|k1: int, k2: int|
                0 <= k1 < k2 < acc@.len() ==> (#[trigger] acc@[k1].name)@ != (
                #[trigger] acc@[k2].name)@,
            forall|t: int| 0 <= t < i ==> name_present(acc@, #[trigger] kvs[t]),
        decreases n - i,
    {
        let key = &keys[i];
        assert(kvs[i as int] == key@);
        let m = acc.len();
        let mut j: usize = 0;
        let mut found = false;
        while j < m
            invariant
                j <= m,
                m == acc@.len(),
                !found ==> forall|k: int| 0 <= k < j ==> (#[trigger] acc@[k].name)@ != key@,
                found ==> j < m && acc@[j as int].name@ == key@,
            ensures
                j <= m,
                m == acc@.len(),
                found ==> j < m && acc@[j as int].name@ == key@,
                !found ==> forall|k: int| 0 <= k < m ==> (#[trigger] acc@[k].name)@ != key@,
            decreases m - j,
        {
            if str_eq(acc[j].name.as_str(), key.as_str()) {
                found = true;
                break;
            }
            j += 1;
        }
        proof {
            assert(kvs.take(i + 1) =~= kvs.take(i as int).push(kvs[i as int]));
        }
        let ghost pre_acc = acc@;
        if found {
            let c = acc[j].count;
            assert(c as nat == count_occ(kvs.take(i as int), acc@[j as int].name@));
            proof {
                lemma_count_occ_le_len(kvs.take(i as int), acc@[j as int].name@);
            }
            let nm = acc[j].name.clone();
            acc.set(j, DepartmentCount { name: nm, count: c + 1 });
            proof {
                let prev = kvs.take(i as int);
                assert forall|k: int| 0 <= k < acc@.len() implies (#[trigger] acc@[k].count)
                    as nat == count_occ(kvs.take(i + 1), acc@[k].name@) by {
                    lemma_count_occ_push(prev, kvs[i as int], acc@[k].name@);
                }
                assert forall|t: int| 0 <= t < i + 1 implies name_present(
                    acc@,
                    #[trigger] kvs[t],
                ) by {
                    if t < i {
                        let k = choose|k: int| 0 <= k < pre_acc.len() && (#[trigger] pre_acc[k].name)@
                            == kvs[t];
                        lemma_name_present_witness(acc@, kvs[t], k);
                    } else {
                        lemma_name_present_witness(acc@, kvs[t], j as int);
                    }
                }
            }
        } else {
            proof {
                let prev = kvs.take(i as int);
                lemma_count_occ_positive(prev, kvs[i as int]);
                assert forall|t: int| 0 <= t < prev.len() implies prev[t] != kvs[i as int] by {
                    assert(prev[t] == kvs[t]);
                    assert(name_present(acc@, kvs[t]));
                    let k = choose|k: int| 0 <= k < acc@.len() && (#[trigger] acc@[k].name)@
                        == kvs[t];
                }
                assert(count_occ(prev, kvs[i as int]) == 0);
            }
            acc.push(DepartmentCount { name: key.clone(), count: 1 });
            proof {
                let prev = kvs.take(i as int);
                assert forall|k: int| 0 <= k < acc@.len() implies (#[trigger] acc@[k].count)
                    as nat == count_occ(kvs.take(i + 1), acc@[k].name@) by {
                    lemma_count_occ_push(prev, kvs[i as int], acc@[k].name@);
                }
                assert forall|t: int| 0 <= t < i + 1 implies name_present(
                    acc@,
                    #[trigger] kvs[t],
                ) by {
                    if t < i {
                        let k = choose|k: int| 0 <= k < pre_acc.len() && (#[trigger] pre_acc[k].name)@
                            == kvs[t];
                        lemma_name_present_witness(acc@, kvs[t], k);
                    } else {
                        lemma_name_present_witness(acc@, kvs[t], acc@.len() - 1);
                    }
                }
            }
        }
        i += 1;
    }
    proof {
        assert(kvs.take(n as int) =~= kvs);
    }
    sort_counts_desc(acc, Ghost(kvs))
}

/// Repeatedly extracts the largest remaining group.
fn sort_counts_desc(acc: Vec<DepartmentCount>, Ghost(kvs): Ghost<Seq<Seq<char>>>) -> (r: Vec<
    DepartmentCount,
>)
    requires
        forall|k: int| 0 <= k < acc@.len() ==> (#[trigger] acc@[k].count) as nat == count_occ(
            kvs,
            acc@[k].name@,
        ),
        forall|k: int| 0 <= k < acc@.len() ==> 1 <= #[trigger] acc@[k].count,
        forall|k1: int, k2: int|
            0 <= k1 < k2 < acc@.len() ==> (#[trigger] acc@[k1].name)@ != (#[trigger] acc@[k2].name)@,
        forall|t: int| 0 <= t < kvs.len() ==> name_present(acc@, #[trigger] kvs[t]),
    ensures
        grouped_counts_ok(kvs, r@),
        r@.len() == acc@.len(),
{
    let mut work = acc;
    let mut out: Vec<DepartmentCount> = Vec::new();
    let ghost total = acc@.len();
    while work.len() > 0
        invariant
            out@.len() + work@.len() == total,
            forall|k: int| 0 <= k < out@.len() ==> (#[trigger] out@[k].count) as nat == count_occ(
                kvs,
                out@[k].name@,
            ),
            forall|k: int| 0 <= k < work@.len() ==> (#[trigger] work@[k].count) as nat == count_occ(
                kvs,
                work@[k].name@,
            ),
            forall|k: int| 0 <= k < out@.len() ==> 1 <= #[trigger] out@[k].count,
            forall|k: int| 0 <= k < work@.len() ==> 1 <= #[trigger] work@[k].count,
            forall|k1: int, k2: int|
                0 <= k1 < k2 < out@.len() ==> (#[trigger] out@[k1].name)@ != (
                #[trigger] out@[k2].name)@,
            forall|k1: int, k2: int|
                0 <= k1 < k2 < work@.len() ==> (#[trigger] work@[k1].name)@ != (
                #[trigger] work@[k2].name)@,
            forall|k1: int, k2: int|
                0 <= k1 < out@.len() && 0 <= k2 < work@.len() ==> (#[trigger] out@[k1].name)@ != (
                #[trigger] work@[k2].name)@,
            forall|k1: int, k2: int|
                0 <= k1 < k2 < out@.len() ==> #[trigger] out@[k1].count >= #[trigger] out@[k2].count,
            forall|k1: int, k2: int|
                0 <= k1 < out@.len() && 0 <= k2 < work@.len() ==> #[trigger] out@[k1].count
                    >= #[trigger] work@[k2].count,
            forall|t: int|
                0 <= t < kvs.len() ==> name_present(out@, #[trigger] kvs[t]) || name_present(
                    work@,
                    kvs[t],
                ),
        decreases work@.len(),
    {
        let m = work.len();
        let mut mi: usize = 0;
        let mut j: usize = 1;
        while j < m
            invariant
                mi < j <= m || (j <= m && mi == 0),
                mi < m,
                m == work@.len(),
                forall|l: int| 0 <= l < j ==> #[trigger] work@[l].count <= work@[mi as int].count,
            decreases m - j,
        {
            if work[j].count > work[mi].count {
                mi = j;
            }
            j += 1;
        }
        let ghost pre_work = work@;
        let ghost pre_out = out@;
        let item = work.remove(mi);
        proof {
            pre_work.remove_ensures(mi as int);
        }
        out.push(item);
        proof {
            let po = out@;
            let pw = work@;
            assert(po.last() == pre_work[mi as int]);
            assert forall|t: int|
                0 <= t < kvs.len() implies name_present(po, #[trigger] kvs[t]) || name_present(
                pw,
                kvs[t],
            ) by {
                if name_present(pre_out, kvs[t]) {
                    let k = choose|k: int| 0 <= k < pre_out.len() && (#[trigger] pre_out[k].name)@
                        == kvs[t];
                    lemma_name_present_witness(po, kvs[t], k);
                } else {
                    assert(name_present(pre_work, kvs[t]));
                    let k = choose|k: int| 0 <= k < pre_work.len() && (#[trigger] pre_work[k].name)@
                        == kvs[t];
                    if k == mi {
                        lemma_name_present_witness(po, kvs[t], po.len() - 1);
                    } else if k < mi {
                        lemma_name_present_witness(pw, kvs[t], k);
                    } else {
                        lemma_name_present_witness(pw, kvs[t], k - 1);
                    }
                }
            }
            assert forall|k1: int, k2: int|
                0 <= k1 < po.len() && 0 <= k2 < pw.len() implies (#[trigger] po[k1].name)@ != (
            #[trigger] pw[k2].name)@ by {
                if k2 < mi {
                    assert(pw[k2] == pre_work[k2]);
                } else {
                    assert(pw[k2] == pre_work[k2 + 1]);
                }
            }
            assert forall|k1: int, k2: int|
                0 <= k1 < po.len() && 0 <= k2 < pw.len() implies #[trigger] po[k1].count
                    >= #[trigger] pw[k2].count by {
                if k2 < mi {
                    assert(pw[k2] == pre_work[k2]);
                } else {
                    assert(pw[k2] == pre_work[k2 + 1]);
                }
            }
        }
    }
    proof {
        assert forall|k: int| 0 <= k < out@.len() implies count_occ(
            kvs,
            (#[trigger] out@[k].name)@,
        ) > 0 by {
            assert(out@[k].count >= 1);
        }
    }
    out
}

/// Keeps only the `n` largest groups, as a query with a result cap does.
/// Every group kept still carries its exact count; every group dropped is
/// no larger than the smallest one kept.
pub fn truncate_groups(groups: Vec<DepartmentCount>, n: usize, Ghost(kvs): Ghost<
    Seq<Seq<char>>,
>) -> (r: Vec<DepartmentCount>)
    requires
        grouped_counts_ok(kvs, groups@),
    ensures
        r@ == groups@.take(if groups@.len() <= n {
            groups@.len() as int
        } else {
            n as int
        }),
        forall|k: int| 0 <= k < r@.len() ==> (#[trigger] r@[k].count) as nat == count_occ(
            kvs,
            r@[k].name@,
        ),
        forall|k1: int, k2: int|
            0 <= k1 < k2 < r@.len() ==> #[trigger] r@[k1].count >= #[trigger] r@[k2].count,
        forall|k: int|
            r@.len() <= k < groups@.len() ==> #[trigger] groups@[k].count <= r@[r@.len() - 1].count
                || r@.len() == 0,
{
    let mut r = groups;
    if r.len() > n {
        r.truncate(n);
    }
    proof {
        assert(r@ =~= groups@.take(
            if groups@.len() <= n {
                groups@.len() as int
            } else {
                n as int
            },
        ));
    }
    r
}

} // verus!
