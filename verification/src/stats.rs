//! The aggregate report.
//!
//! The report groups rows by a string key, carrying per group the number of
//! grouped rows and the sum of a numeric field, and orders the groups by
//! count, descending. The arithmetic mean owed by the report is the sum over
//! the count; it is returned as that pair, since the mean need not be
//! integral, and rows of equal count may come in either relative order.

use vstd::prelude::*;
use crate::game::{game_views, GameSchema, GameAggregateResult, GameView};
use crate::schema::{UserAggregateResult, UserSchema, UserView};
use crate::store::views_of;

verus! {

/// One row fed to the report: a grouping key and the numeric field.
pub struct GroupRow {
    pub key: String,
    pub value: i64,
}

/// Mathematical view of a row.
pub ghost struct RowView {
    pub key: Seq<char>,
    pub value: int,
}

impl View for GroupRow {
    type V = RowView;

    open spec fn view(&self) -> RowView {
        RowView { key: self.key@, value: self.value as int }
    }
}

/// One report entry: a grouping key, the sum of the grouped values and the
/// number of grouped rows.
pub struct GroupStat {
    pub key: String,
    pub sum: i128,
    pub count: usize,
}

/// Mathematical view of a report entry.
pub ghost struct StatView {
    pub key: Seq<char>,
    pub sum: int,
    pub count: int,
}

impl View for GroupStat {
    type V = StatView;

    open spec fn view(&self) -> StatView {
        StatView { key: self.key@, sum: self.sum as int, count: self.count as int }
    }
}

impl Clone for GroupStat {
    fn clone(&self) -> (r: Self)
        ensures
            r@ == self@,
    {
        GroupStat { key: self.key.clone(), sum: self.sum, count: self.count }
    }
}

/// The views of a sequence of rows.
pub open spec fn row_views(s: Seq<GroupRow>) -> Seq<RowView> {
    s.map_values(|r: GroupRow| r@)
}

/// The views of a sequence of report entries.
pub open spec fn stat_views(s: Seq<GroupStat>) -> Seq<StatView> {
    s.map_values(|t: GroupStat| t@)
}

/// How many rows carry the key.
pub open spec fn key_count(rows: Seq<RowView>, k: Seq<char>) -> int
    decreases rows.len(),
{
    if rows.len() == 0 {
        0
    } else {
        key_count(rows.drop_last(), k) + (if rows.last().key == k {
            1int
        } else {
            0int
        })
    }
}

/// The sum of the values of the rows carrying the key.
pub open spec fn key_sum(rows: Seq<RowView>, k: Seq<char>) -> int
    decreases rows.len(),
{
    if rows.len() == 0 {
        0
    } else {
        key_sum(rows.drop_last(), k) + (if rows.last().key == k {
            rows.last().value
        } else {
            0int
        })
    }
}

/// The total of the report's counts.
pub open spec fn total_count(stats: Seq<StatView>) -> int
    decreases stats.len(),
{
    if stats.len() == 0 {
        0
    } else {
        total_count(stats.drop_last()) + stats.last().count
    }
}

/// Entries ordered by count, descending.
pub open spec fn sorted_by_count_desc(stats: Seq<StatView>) -> bool {
    forall|i: int, j: int| 0 <= i < j < stats.len() ==> stats[i].count >= stats[j].count
}

/// No two entries share a key.
pub open spec fn distinct_keys(stats: Seq<StatView>) -> bool {
    forall|i: int, j: int| 0 <= i < j < stats.len() ==> stats[i].key != stats[j].key
}

/// Every entry carries exactly the count and sum of its key over the rows.
pub open spec fn stats_exact(rows: Seq<RowView>, stats: Seq<StatView>) -> bool {
    forall|j: int|
        0 <= j < stats.len() ==> (#[trigger] stats[j]).count == key_count(rows, stats[j].key)
            && stats[j].sum == key_sum(rows, stats[j].key)
}

/// Some entry carries the key.
pub open spec fn key_present(k: Seq<char>, stats: Seq<StatView>) -> bool {
    exists|j: int| 0 <= j < stats.len() && (#[trigger] stats[j]).key == k
}

/// Every row's key has an entry.
pub open spec fn covers(rows: Seq<RowView>, stats: Seq<StatView>) -> bool {
    forall|i: int| 0 <= i < rows.len() ==> key_present((#[trigger] rows[i]).key, stats)
}

/// The report owed to the rows: one exact entry per distinct key present,
/// ordered by descending count, the counts totalling the number of rows.
pub open spec fn valid_report(rows: Seq<RowView>, stats: Seq<StatView>) -> bool {
    &&& distinct_keys(stats)
    &&& stats_exact(rows, stats)
    &&& covers(rows, stats)
    &&& sorted_by_count_desc(stats)
    &&& total_count(stats) == rows.len()
}

/// Every row's value fits a 64-bit signed integer.
pub open spec fn rows_in_range(rows: Seq<RowView>) -> bool {
    forall|i: int|
        0 <= i < rows.len() ==> i64::MIN <= (#[trigger] rows[i]).value <= i64::MAX
}

proof fn lemma_key_bounds(rows: Seq<RowView>, k: Seq<char>)
    requires
        rows_in_range(rows),
    ensures
        0 <= key_count(rows, k) <= rows.len(),
        key_count(rows, k) * (i64::MIN as int) <= key_sum(rows, k) <= key_count(rows, k) * (
        i64::MAX as int),
    decreases rows.len(),
{
    if rows.len() > 0 {
        assert(rows_in_range(rows.drop_last()));
        lemma_key_bounds(rows.drop_last(), k);
        let c = key_count(rows.drop_last(), k);
        assert((c + 1) * (i64::MIN as int) == c * (i64::MIN as int) + (i64::MIN as int))
            by (nonlinear_arith);
        assert((c + 1) * (i64::MAX as int) == c * (i64::MAX as int) + (i64::MAX as int))
            by (nonlinear_arith);
    }
}

proof fn lemma_key_absent(rows: Seq<RowView>, k: Seq<char>)
    requires
        forall|i: int| 0 <= i < rows.len() ==> (#[trigger] rows[i]).key != k,
    ensures
        key_count(rows, k) == 0,
        key_sum(rows, k) == 0,
    decreases rows.len(),
{
    if rows.len() > 0 {
        lemma_key_absent(rows.drop_last(), k);
    }
}

proof fn lemma_total_update(s: Seq<StatView>, j: int, x: StatView)
    requires
        0 <= j < s.len(),
    ensures
        total_count(s.update(j, x)) == total_count(s) - s[j].count + x.count,
    decreases s.len(),
{
    let t = s.update(j, x);
    if j == s.len() - 1 {
        assert(t.drop_last() =~= s.drop_last());
        assert(t.last() == x);
    } else {
        assert(t.drop_last() =~= s.drop_last().update(j, x));
        assert(t.last() == s.last());
        lemma_total_update(s.drop_last(), j, x);
    }
}

proof fn lemma_total_insert(s: Seq<StatView>, j: int, x: StatView)
    requires
        0 <= j <= s.len(),
    ensures
        total_count(s.insert(j, x)) == total_count(s) + x.count,
    decreases s.len(),
{
    let t = s.insert(j, x);
    s.insert_ensures(j, x);
    if j == s.len() {
        assert(t.drop_last() =~= s);
        assert(t.last() == x);
    } else {
        s.drop_last().insert_ensures(j, x);
        assert(t.drop_last() =~= s.drop_last().insert(j, x));
        assert(t.last() == s.last());
        lemma_total_insert(s.drop_last(), j, x);
    }
}

fn find_key(stats: &Vec<GroupStat>, key: &String) -> (r: Option<usize>)
    ensures
        match r {
            Some(j) => j < stats@.len() && stat_views(stats@)[j as int].key == key@,
            None => forall|j: int| 0 <= j < stats@.len() ==> stat_views(stats@)[j].key != key@,
        },
{
    let mut j: usize = 0;
    while j < stats.len()
        invariant
            j <= stats@.len(),
            forall|l: int| 0 <= l < j ==> stat_views(stats@)[l].key != key@,
        decreases stats@.len() - j,
    {
        if stats[j].key == *key {
            return Some(j);
        }
        j += 1;
    }
    None
}

fn group_rows(rows: &Vec<GroupRow>) -> (r: Vec<GroupStat>)
    ensures
        distinct_keys(stat_views(r@)),
        stats_exact(row_views(rows@), stat_views(r@)),
        covers(row_views(rows@), stat_views(r@)),
        total_count(stat_views(r@)) == rows@.len(),
{
    let ghost rows_v = row_views(rows@);
    proof {
        assert(rows_in_range(rows_v));
    }
    let mut stats: Vec<GroupStat> = Vec::new();
    let mut i: usize = 0;
    while i < rows.len()
        invariant
            i <= rows@.len(),
            rows_v == row_views(rows@),
            rows_v.len() == rows@.len(),
            rows_in_range(rows_v),
            distinct_keys(stat_views(stats@)),
            stats_exact(rows_v.subrange(0, i as int), stat_views(stats@)),
            covers(rows_v.subrange(0, i as int), stat_views(stats@)),
            total_count(stat_views(stats@)) == i,
        decreases rows@.len() - i,
    {
        let ghost prefix = rows_v.subrange(0, i as int);
        let ghost next = rows_v.subrange(0, i + 1);
        let ghost k = rows_v[i as int].key;
        proof {
            assert(next.drop_last() =~= prefix);
            assert(next.last() == rows_v[i as int]);
            assert(rows_in_range(prefix));
        }
        let row = &rows[i];
        match find_key(&stats, &row.key) {
            Some(j) => {
                let ghost s0 = stats@;
                let ghost sv = stat_views(s0);
                proof {
                    lemma_key_bounds(prefix, k);
                    assert(sv[j as int].count == key_count(prefix, k));
                    assert(sv[j as int].sum == key_sum(prefix, k));
                    assert(key_count(prefix, k) <= i);
                    assert((key_count(prefix, k) + 1) * (i64::MIN as int) == key_count(prefix, k)
                        * (i64::MIN as int) + (i64::MIN as int)) by (nonlinear_arith);
                    assert((key_count(prefix, k) + 1) * (i64::MAX as int) == key_count(prefix, k)
                        * (i64::MAX as int) + (i64::MAX as int)) by (nonlinear_arith);
                    assert(key_count(prefix, k) * (i64::MIN as int) >= (0xFFFF_FFFF_FFFF_FFFFu64
                        as int) * (i64::MIN as int)) by (nonlinear_arith)
                        requires
                            0 <= key_count(prefix, k) <= 0xFFFF_FFFF_FFFF_FFFFu64 as int,
                    ;
                    assert(key_count(prefix, k) * (i64::MAX as int) <= (0xFFFF_FFFF_FFFF_FFFFu64
                        as int) * (i64::MAX as int)) by (nonlinear_arith)
                        requires
                            0 <= key_count(prefix, k) <= 0xFFFF_FFFF_FFFF_FFFFu64 as int,
                    ;
                }
                let old_stat = stats.remove(j);
                let new_stat = GroupStat {
                    key: old_stat.key,
                    sum: old_stat.sum + (row.value as i128),
                    count: old_stat.count + 1,
                };
                stats.insert(j, new_stat);
                proof {
                    vstd::seq_lib::lemma_update_is_remove_insert(s0, j as int, stats@[j as int]);
                    assert(stats@ =~= s0.update(j as int, stats@[j as int]));
                    let svn = stat_views(stats@);
                    assert(svn =~= sv.update(j as int, svn[j as int]));
                    lemma_total_update(sv, j as int, svn[j as int]);
                    assert forall|l: int| 0 <= l < svn.len() implies (#[trigger] svn[l]).count
                        == key_count(next, svn[l].key) && svn[l].sum == key_sum(
                        next,
                        svn[l].key,
                    ) by {
                        if l == j {
                            assert(svn[l].key == k);
                        } else {
                            assert(svn[l] == sv[l]);
                            assert(sv[l].key != sv[j as int].key);
                        }
                    };
                    assert forall|m: int| 0 <= m < next.len() implies key_present(
                        (#[trigger] next[m]).key,
                        svn,
                    ) by {
                        if m < i {
                            assert(prefix[m] == next[m]);
                            let l = choose|l: int|
                                0 <= l < sv.len() && (#[trigger] sv[l]).key == prefix[m].key;
                            assert(svn[l].key == next[m].key);
                        } else {
                            assert(svn[j as int].key == next[m].key);
                        }
                    };
                }
            },
            None => {
                let ghost s0 = stats@;
                let ghost sv = stat_views(s0);
                let new_stat = GroupStat { key: row.key.clone(), sum: row.value as i128, count: 1 };
                stats.push(new_stat);
                proof {
                    assert forall|m: int| 0 <= m < prefix.len() implies (#[trigger] prefix[m]).key
                        != k by {
                        if prefix[m].key == k {
                            let l = choose|l: int|
                                0 <= l < sv.len() && (#[trigger] sv[l]).key == prefix[m].key;
                            assert(sv[l].key != k);
                        }
                    };
                    lemma_key_absent(prefix, k);
                    let svn = stat_views(stats@);
                    assert(svn =~= sv.push(svn.last()));
                    assert(svn.drop_last() =~= sv);
                    assert forall|l: int| 0 <= l < svn.len() implies (#[trigger] svn[l]).count
                        == key_count(next, svn[l].key) && svn[l].sum == key_sum(
                        next,
                        svn[l].key,
                    ) by {
                        if l < sv.len() {
                            assert(svn[l] == sv[l]);
                            assert(sv[l].key != k);
                        } else {
                            assert(svn[l].key == k);
                        }
                    };
                    assert forall|m: int| 0 <= m < next.len() implies key_present(
                        (#[trigger] next[m]).key,
                        svn,
                    ) by {
                        if m < i {
                            assert(prefix[m] == next[m]);
                            let l = choose|l: int|
                                0 <= l < sv.len() && (#[trigger] sv[l]).key == prefix[m].key;
                            assert(svn[l].key == next[m].key);
                        } else {
                            assert(svn[svn.len() - 1].key == next[m].key);
                        }
                    };
                }
            },
        }
        i += 1;
    }
    proof {
        assert(rows_v.subrange(0, rows_v.len() as int) =~= rows_v);
    }
    stats
}

/// The key occurs among the first `n` entries.
pub open spec fn key_among(k: Seq<char>, iv: Seq<StatView>, n: int) -> bool {
    exists|m: int| 0 <= m < n && (#[trigger] iv[m]).key == k
}

/// Every entry's key occurs among the first `n` input entries.
pub open spec fn keys_from(ov: Seq<StatView>, iv: Seq<StatView>, n: int) -> bool {
    forall|l: int| 0 <= l < ov.len() ==> key_among((#[trigger] ov[l]).key, iv, n)
}

/// Each of the first `n` input entries' keys occurs in the output.
pub open spec fn keys_covered(iv: Seq<StatView>, n: int, ov: Seq<StatView>) -> bool {
    forall|m: int| 0 <= m < n ==> key_present((#[trigger] iv[m]).key, ov)
}

proof fn lemma_stat_views_insert(s: Seq<GroupStat>, p: int, x: GroupStat)
    requires
        0 <= p <= s.len(),
    ensures
        stat_views(s.insert(p, x)) == stat_views(s).insert(p, x@),
{
    s.insert_ensures(p, x);
    stat_views(s).insert_ensures(p, x@);
    assert forall|q: int| 0 <= q < s.len() + 1 implies stat_views(s.insert(p, x))[q] == stat_views(
        s,
    ).insert(p, x@)[q] by {
        if q > p {
            assert(s.insert(p, x)[(q - 1) + 1] == s[q - 1]);
            assert(stat_views(s).insert(p, x@)[(q - 1) + 1] == stat_views(s)[q - 1]);
        }
    };
    assert(stat_views(s.insert(p, x)) =~= stat_views(s).insert(p, x@));
}

proof fn lemma_insert_sorted(ov: Seq<StatView>, p: int, x: StatView)
    requires
        0 <= p <= ov.len(),
        sorted_by_count_desc(ov),
        forall|q: int| 0 <= q < p ==> (#[trigger] ov[q]).count >= x.count,
        p == ov.len() || ov[p].count < x.count,
    ensures
        sorted_by_count_desc(ov.insert(p, x)),
{
    ov.insert_ensures(p, x);
    let t = ov.insert(p, x);
    assert forall|a: int, b: int| 0 <= a < b < t.len() implies t[a].count >= t[b].count by {
        if b > p {
            assert(t[b] == ov[b - 1]);
        }
        if a > p {
            assert(t[a] == ov[a - 1]);
        }
        if a < p && b > p && b - 1 > p {
            assert(ov[p].count >= ov[b - 1].count);
        }
        if a == p && b > p && b - 1 > p {
            assert(ov[p].count >= ov[b - 1].count);
        }
    };
}

proof fn lemma_insert_distinct(ov: Seq<StatView>, p: int, x: StatView)
    requires
        0 <= p <= ov.len(),
        distinct_keys(ov),
        forall|l: int| 0 <= l < ov.len() ==> (#[trigger] ov[l]).key != x.key,
    ensures
        distinct_keys(ov.insert(p, x)),
{
    ov.insert_ensures(p, x);
    let t = ov.insert(p, x);
    assert forall|a: int, b: int| 0 <= a < b < t.len() implies t[a].key != t[b].key by {
        if b > p {
            assert(t[b] == ov[b - 1]);
        }
        if a > p {
            assert(t[a] == ov[a - 1]);
        }
    };
}

proof fn lemma_insert_exact(rows: Seq<RowView>, ov: Seq<StatView>, p: int, x: StatView)
    requires
        0 <= p <= ov.len(),
        stats_exact(rows, ov),
        x.count == key_count(rows, x.key),
        x.sum == key_sum(rows, x.key),
    ensures
        stats_exact(rows, ov.insert(p, x)),
{
    ov.insert_ensures(p, x);
    let t = ov.insert(p, x);
    assert forall|l: int| 0 <= l < t.len() implies (#[trigger] t[l]).count == key_count(
        rows,
        t[l].key,
    ) && t[l].sum == key_sum(rows, t[l].key) by {
        if l > p {
            assert(t[l] == ov[l - 1]);
        }
    };
}

proof fn lemma_new_key_absent(iv: Seq<StatView>, ov: Seq<StatView>, i: int)
    requires
        0 <= i < iv.len(),
        distinct_keys(iv),
        keys_from(ov, iv, i),
    ensures
        forall|l: int| 0 <= l < ov.len() ==> (#[trigger] ov[l]).key != iv[i].key,
{
    assert forall|l: int| 0 <= l < ov.len() implies (#[trigger] ov[l]).key != iv[i].key by {
        assert(key_among(ov[l].key, iv, i));
        let m = choose|m: int| 0 <= m < i && (#[trigger] iv[m]).key == ov[l].key;
        assert(iv[m].key != iv[i].key);
    };
}

proof fn lemma_insert_keys_from(iv: Seq<StatView>, ov: Seq<StatView>, i: int, p: int)
    requires
        0 <= i < iv.len(),
        0 <= p <= ov.len(),
        keys_from(ov, iv, i),
    ensures
        keys_from(ov.insert(p, iv[i]), iv, i + 1),
{
    ov.insert_ensures(p, iv[i]);
    let t = ov.insert(p, iv[i]);
    assert forall|l: int| 0 <= l < t.len() implies key_among((#[trigger] t[l]).key, iv, i + 1) by {
        if l == p {
            assert(t[l].key == iv[i].key);
            assert(key_among(t[l].key, iv, i + 1));
        } else {
            let l1: int = if l < p {
                l
            } else {
                l - 1
            };
            if l > p {
                assert(t[l] == ov[l - 1]);
            }
            assert(key_among(ov[l1].key, iv, i));
            let m = choose|m: int| 0 <= m < i && (#[trigger] iv[m]).key == ov[l1].key;
            assert(iv[m].key == t[l].key);
            assert(key_among(t[l].key, iv, i + 1));
        }
    };
}

proof fn lemma_insert_keys_covered(iv: Seq<StatView>, ov: Seq<StatView>, i: int, p: int)
    requires
        0 <= i < iv.len(),
        0 <= p <= ov.len(),
        keys_covered(iv, i, ov),
    ensures
        keys_covered(iv, i + 1, ov.insert(p, iv[i])),
{
    ov.insert_ensures(p, iv[i]);
    let t = ov.insert(p, iv[i]);
    assert forall|m: int| 0 <= m < i + 1 implies key_present((#[trigger] iv[m]).key, t) by {
        if m == i {
            assert(t[p].key == iv[m].key);
        } else {
            assert(key_present(iv[m].key, ov));
            let l = choose|l: int| 0 <= l < ov.len() && (#[trigger] ov[l]).key == iv[m].key;
            let l2: int = if l < p {
                l
            } else {
                l + 1
            };
            if l >= p {
                assert(t[(l2 - 1) + 1] == ov[l2 - 1]);
            }
            assert(t[l2].key == iv[m].key);
        }
    };
}

proof fn lemma_total_prefix_step(iv: Seq<StatView>, i: int)
    requires
        0 <= i < iv.len(),
    ensures
        total_count(iv.subrange(0, i + 1)) == total_count(iv.subrange(0, i)) + iv[i].count,
{
    let next = iv.subrange(0, i + 1);
    assert(next.drop_last() =~= iv.subrange(0, i));
    assert(next.last() == iv[i]);
}

proof fn lemma_covers_transfer(rows: Seq<RowView>, iv: Seq<StatView>, ov: Seq<StatView>)
    requires
        covers(rows, iv),
        keys_covered(iv, iv.len() as int, ov),
    ensures
        covers(rows, ov),
{
    assert forall|m: int| 0 <= m < rows.len() implies key_present(
        (#[trigger] rows[m]).key,
        ov,
    ) by {
        assert(key_present(rows[m].key, iv));
        let l = choose|l: int| 0 <= l < iv.len() && (#[trigger] iv[l]).key == rows[m].key;
        assert(key_present(iv[l].key, ov));
        let j = choose|j: int| 0 <= j < ov.len() && (#[trigger] ov[j]).key == iv[l].key;
        assert(ov[j].key == rows[m].key);
    };
}

#[verifier::rlimit(100)]
#[verifier::spinoff_prover]
fn sort_by_count(stats: Vec<GroupStat>, Ghost(rows_v): Ghost<Seq<RowView>>) -> (r: Vec<GroupStat>)
    requires
        distinct_keys(stat_views(stats@)),
        stats_exact(rows_v, stat_views(stats@)),
        covers(rows_v, stat_views(stats@)),
        total_count(stat_views(stats@)) == rows_v.len(),
    ensures
        valid_report(rows_v, stat_views(r@)),
{
    let ghost input = stats@;
    let ghost iv = stat_views(input);
    let mut out: Vec<GroupStat> = Vec::new();
    let mut i: usize = 0;
    while i < stats.len()
        invariant
            i <= stats@.len(),
            stats@ == input,
            iv == stat_views(input),
            iv.len() == input.len(),
            distinct_keys(iv),
            stats_exact(rows_v, iv),
            out@.len() == i,
            sorted_by_count_desc(stat_views(out@)),
            distinct_keys(stat_views(out@)),
            stats_exact(rows_v, stat_views(out@)),
            total_count(stat_views(out@)) == total_count(iv.subrange(0, i as int)),
            keys_from(stat_views(out@), iv, i as int),
            keys_covered(iv, i as int, stat_views(out@)),
        decreases stats@.len() - i,
    {
        let c = stats[i].count;
        let mut p: usize = 0;
        while p < out.len() && out[p].count >= c
            invariant
                p <= out@.len(),
                forall|q: int| 0 <= q < p ==> (#[trigger] stat_views(out@)[q]).count >= c as int,
            decreases out@.len() - p,
        {
            p += 1;
        }
        let ghost out0 = out@;
        let ghost ov = stat_views(out0);
        let st = stats[i].clone();
        out.insert(p, st);
        proof {
            assert(st@ == iv[i as int]);
            lemma_stat_views_insert(out0, p as int, st);
            assert(stat_views(out@) == ov.insert(p as int, iv[i as int]));
            lemma_insert_sorted(ov, p as int, iv[i as int]);
            lemma_new_key_absent(iv, ov, i as int);
            lemma_insert_distinct(ov, p as int, iv[i as int]);
            lemma_insert_exact(rows_v, ov, p as int, iv[i as int]);
            lemma_total_insert(ov, p as int, iv[i as int]);
            lemma_total_prefix_step(iv, i as int);
            lemma_insert_keys_from(iv, ov, i as int, p as int);
            lemma_insert_keys_covered(iv, ov, i as int, p as int);
        }
        i += 1;
    }
    proof {
        assert(iv.subrange(0, iv.len() as int) =~= iv);
        lemma_covers_transfer(rows_v, iv, stat_views(out@));
    }
    out
}

/// Compute the report owed to the rows: group by key with count and sum,
/// then order the groups by count, descending.
pub fn aggregate_rows(rows: &Vec<GroupRow>) -> (r: Vec<GroupStat>)
    ensures
        valid_report(row_views(rows@), stat_views(r@)),
{
    let grouped = group_rows(rows);
    sort_by_count(grouped, Ghost(row_views(rows@)))
}

/// The row a user document feeds the per-city report: its city and its age.
pub open spec fn user_row(u: UserView) -> RowView {
    RowView { key: u.city, value: u.age }
}

/// The rows of the per-city report.
pub open spec fn user_rows(docs: Seq<UserView>) -> Seq<RowView> {
    docs.map_values(|u: UserView| user_row(u))
}

/// The per-city report entries read as generic report entries.
pub open spec fn user_stat_views(s: Seq<UserAggregateResult>) -> Seq<StatView> {
    s.map_values(
        |t: UserAggregateResult|
            StatView { key: t.city@, sum: t.age_sum as int, count: t.total_users as int },
    )
}

/// The per-city report over the user documents: users grouped by city with
/// their count and the sum of their ages, ordered by count descending.
pub fn user_city_stats(users: &Vec<UserSchema>) -> (r: Vec<UserAggregateResult>)
    ensures
        valid_report(user_rows(views_of(users@)), user_stat_views(r@)),
{
    let ghost uv = views_of(users@);
    let mut rows: Vec<GroupRow> = Vec::new();
    let mut i: usize = 0;
    while i < users.len()
        invariant
            i <= users@.len(),
            uv == views_of(users@),
            uv.len() == users@.len(),
            rows@.len() == i,
            forall|j: int| 0 <= j < i ==> #[trigger] row_views(rows@)[j] == user_row(uv[j]),
        decreases users@.len() - i,
    {
        let ghost prev = rows@;
        rows.push(GroupRow { key: users[i].city.clone(), value: users[i].age as i64 });
        proof {
            assert forall|j: int| 0 <= j <= i implies #[trigger] row_views(rows@)[j] == user_row(
                uv[j],
            ) by {
                if j < i {
                    assert(row_views(prev)[j] == user_row(uv[j]));
                    assert(rows@[j] == prev[j]);
                } else {
                    assert(rows@[j] == rows@.last());
                }
            }
        }
        i += 1;
    }
    proof {
        assert(row_views(rows@) =~= user_rows(uv));
    }
    let stats = aggregate_rows(&rows);
    let mut r: Vec<UserAggregateResult> = Vec::new();
    let mut j: usize = 0;
    while j < stats.len()
        invariant
            j <= stats@.len(),
            r@.len() == j,
            forall|l: int| 0 <= l < j ==> #[trigger] user_stat_views(r@)[l] == stat_views(stats@)[l],
        decreases stats@.len() - j,
    {
        let ghost prev = r@;
        r.push(
            UserAggregateResult {
                city: stats[j].key.clone(),
                age_sum: stats[j].sum,
                total_users: stats[j].count,
            },
        );
        proof {
            assert forall|l: int| 0 <= l <= j implies #[trigger] user_stat_views(r@)[l]
                == stat_views(stats@)[l] by {
                if l < j {
                    assert(user_stat_views(prev)[l] == stat_views(stats@)[l]);
                    assert(r@[l] == prev[l]);
                } else {
                    assert(r@[l] == r@.last());
                }
            }
        }
        j += 1;
    }
    proof {
        assert(user_stat_views(r@) =~= stat_views(stats@));
    }
    r
}

/// The row a game document feeds the per-genre report: its genre and its
/// price in minor units.
pub open spec fn game_row(g: GameView) -> RowView {
    RowView { key: g.genre, value: g.price_minor }
}

/// The rows of the per-genre report.
pub open spec fn game_rows(docs: Seq<GameView>) -> Seq<RowView> {
    docs.map_values(|g: GameView| game_row(g))
}

/// The per-genre report entries read as generic report entries.
pub open spec fn game_stat_views(s: Seq<GameAggregateResult>) -> Seq<StatView> {
    s.map_values(
        |t: GameAggregateResult|
            StatView { key: t.genre@, sum: t.price_sum as int, count: t.total_games as int },
    )
}

/// The per-genre report over the game documents: games grouped by genre with
/// their count and the sum of their prices, ordered by count descending.
pub fn game_genre_stats(games: &Vec<GameSchema>) -> (r: Vec<GameAggregateResult>)
    ensures
        valid_report(game_rows(game_views(games@)), game_stat_views(r@)),
{
    let ghost gv = game_views(games@);
    let mut rows: Vec<GroupRow> = Vec::new();
    let mut i: usize = 0;
    while i < games.len()
        invariant
            i <= games@.len(),
            gv == game_views(games@),
            gv.len() == games@.len(),
            rows@.len() == i,
            forall|j: int| 0 <= j < i ==> #[trigger] row_views(rows@)[j] == game_row(gv[j]),
        decreases games@.len() - i,
    {
        let ghost prev = rows@;
        rows.push(GroupRow { key: games[i].genre.clone(), value: games[i].price_minor });
        proof {
            assert forall|j: int| 0 <= j <= i implies #[trigger] row_views(rows@)[j] == game_row(
                gv[j],
            ) by {
                if j < i {
                    assert(row_views(prev)[j] == game_row(gv[j]));
                    assert(rows@[j] == prev[j]);
                } else {
                    assert(rows@[j] == rows@.last());
                }
            }
        }
        i += 1;
    }
    proof {
        assert(row_views(rows@) =~= game_rows(gv));
    }
    let stats = aggregate_rows(&rows);
    let mut r: Vec<GameAggregateResult> = Vec::new();
    let mut j: usize = 0;
    while j < stats.len()
        invariant
            j <= stats@.len(),
            r@.len() == j,
            forall|l: int| 0 <= l < j ==> #[trigger] game_stat_views(r@)[l] == stat_views(stats@)[l],
        decreases stats@.len() - j,
    {
        let ghost prev = r@;
        r.push(
            GameAggregateResult {
                genre: stats[j].key.clone(),
                price_sum: stats[j].sum,
                total_games: stats[j].count,
            },
        );
        proof {
            assert forall|l: int| 0 <= l <= j implies #[trigger] game_stat_views(r@)[l]
                == stat_views(stats@)[l] by {
                if l < j {
                    assert(game_stat_views(prev)[l] == stat_views(stats@)[l]);
                    assert(r@[l] == prev[l]);
                } else {
                    assert(r@[l] == r@.last());
                }
            }
        }
        j += 1;
    }
    proof {
        assert(game_stat_views(r@) =~= stat_views(stats@));
    }
    r
}

} // verus!
