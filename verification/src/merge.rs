//! The result merger: from the data points of several queries to one list,
//! aligned by timestamp.
//!
//! For a time series the data points are gathered in an ordered map, one
//! bucket for each timestamp, and the buckets are given out in the order of
//! the map. `is_timeline` says what comes out, and `lemma_timeline_unique`
//! that it leaves nothing open.

use std::collections::BTreeMap;
use vstd::prelude::*;
use vstd::std_specs::btree::{group_btree_axioms, increasing_seq};
use vstd::std_specs::cmp::OrdSpec;
use vstd::std_specs::iter::IteratorSpec;
use crate::datapoint::{
    lemma_merge_empty, merge_all, merged_rows, points_view, DataPoint, DataPointView,
};
use crate::interval::Order;
use crate::timestamp::Timestamp;

verus! {

broadcast use group_btree_axioms;

/// The data points of the time bucket `t`, in the order in which they came.
pub open spec fn at_time(points: Seq<DataPointView>, t: Timestamp) -> Seq<DataPointView> {
    points.filter(|p: DataPointView| p.timestamp == Some(t))
}

/// Whether some data point of the list belongs to the time bucket `t`.
pub open spec fn occurs(points: Seq<DataPointView>, t: Timestamp) -> bool {
    exists|k: int| 0 <= k < points.len() && (#[trigger] points[k]).timestamp == Some(t)
}

/// Whether `out` is the timeline of `points`: one data point for each time
/// bucket that occurs in `points`, the earliest first, each with all the rows
/// of its bucket in the order in which they came. Data points without a
/// timestamp belong to no bucket and are left out.
pub open spec fn is_timeline(points: Seq<DataPointView>, out: Seq<DataPointView>) -> bool {
    &&& forall|i: int|
        0 <= i < out.len() ==> {
            &&& (#[trigger] out[i]).timestamp is Some
            &&& occurs(points, out[i].timestamp->Some_0)
            &&& out[i].rows == merge_all(at_time(points, out[i].timestamp->Some_0))
        }
    &&& forall|i: int, j: int|
        0 <= i < j < out.len() ==> (#[trigger] out[i]).timestamp->Some_0.before(
            (#[trigger] out[j]).timestamp->Some_0,
        )
    &&& forall|k: int|
        0 <= k < points.len() && (#[trigger] points[k]).timestamp is Some ==> occurs(
            out,
            points[k].timestamp->Some_0,
        )
}

/// Whether `out` is what merging `points` gives. Where a time series was asked
/// for, it is the timeline of `points`, turned round where the latest is
/// to come first. Where none was asked for, it is one data point that holds
/// all rows and has no timestamp.
pub open spec fn is_merged(
    points: Seq<DataPointView>,
    use_ts: bool,
    order: Order,
    out: Seq<DataPointView>,
) -> bool {
    if use_ts {
        is_timeline(
            points,
            if order == Order::Desc {
                out.reverse()
            } else {
                out
            },
        )
    } else {
        out == seq![DataPointView { rows: merge_all(points), timestamp: None }]
    }
}

/// Whether each timestamp of the list is earlier than the next.
pub open spec fn ascending(times: Seq<Timestamp>) -> bool {
    forall|i: int, j: int| 0 <= i < j < times.len() ==> (#[trigger] times[i]).before(#[trigger] times[j])
}

/// Two ascending lists of the same timestamps are the same list.
pub proof fn lemma_ascending_unique(x: Seq<Timestamp>, y: Seq<Timestamp>)
    requires
        ascending(x),
        ascending(y),
        forall|i: int| 0 <= i < x.len() ==> y.contains(#[trigger] x[i]),
        forall|j: int| 0 <= j < y.len() ==> x.contains(#[trigger] y[j]),
    ensures
        x == y,
    decreases x.len(),
{
    if x.len() == 0 {
        if y.len() > 0 {
            assert(x.contains(y[0]));
        }
        assert(x =~= y);
    } else {
        let top = x.last();
        assert(y.contains(x[x.len() - 1]));
        let at = choose|j: int| 0 <= j < y.len() && y[j] == top;
        let other = y.last();
        assert(x.contains(y[y.len() - 1]));
        let back = choose|i: int| 0 <= i < x.len() && x[i] == other;
        Timestamp::lemma_total_order(top, other, top);
        if at < y.len() - 1 {
            assert(y[at].before(y[y.len() - 1]));
        }
        if back < x.len() - 1 {
            assert(x[back].before(x[x.len() - 1]));
        }
        assert(top == other);
        let xs = x.drop_last();
        let ys = y.drop_last();
        assert forall|i: int| 0 <= i < xs.len() implies ys.contains(#[trigger] xs[i]) by {
            assert(xs[i] == x[i]);
            assert(x[i].before(x[x.len() - 1]));
            assert(y.contains(x[i]));
            let j = choose|j: int| 0 <= j < y.len() && y[j] == x[i];
            Timestamp::lemma_total_order(top, top, top);
            assert(j < y.len() - 1);
            assert(ys[j] == xs[i]);
        }
        assert forall|j: int| 0 <= j < ys.len() implies xs.contains(#[trigger] ys[j]) by {
            assert(ys[j] == y[j]);
            assert(y[j].before(y[y.len() - 1]));
            assert(x.contains(y[j]));
            let i = choose|i: int| 0 <= i < x.len() && x[i] == y[j];
            Timestamp::lemma_total_order(top, top, top);
            assert(i < x.len() - 1);
            assert(xs[i] == ys[j]);
        }
        assert(ascending(xs)) by {
            assert forall|i: int, j: int| 0 <= i < j < xs.len() implies (#[trigger] xs[i]).before(
                #[trigger] xs[j],
            ) by {
                assert(x[i].before(x[j]));
            }
        }
        assert(ascending(ys)) by {
            assert forall|i: int, j: int| 0 <= i < j < ys.len() implies (#[trigger] ys[i]).before(
                #[trigger] ys[j],
            ) by {
                assert(y[i].before(y[j]));
            }
        }
        lemma_ascending_unique(xs, ys);
        assert(x =~= xs.push(top));
        assert(y =~= ys.push(other));
    }
}

/// The timestamps of a list of data points that all have one.
pub open spec fn times_of(points: Seq<DataPointView>) -> Seq<Timestamp> {
    points.map_values(|p: DataPointView| p.timestamp->Some_0)
}

/// A list of data points has one timeline: `is_timeline` leaves nothing open.
pub proof fn lemma_timeline_unique(
    points: Seq<DataPointView>,
    a: Seq<DataPointView>,
    b: Seq<DataPointView>,
)
    requires
        is_timeline(points, a),
        is_timeline(points, b),
    ensures
        a == b,
{
    let x = times_of(a);
    let y = times_of(b);
    assert(ascending(x)) by {
        assert forall|i: int, j: int| 0 <= i < j < x.len() implies (#[trigger] x[i]).before(
            #[trigger] x[j],
        ) by {
            assert(a[i].timestamp->Some_0.before(a[j].timestamp->Some_0));
        }
    }
    assert(ascending(y)) by {
        assert forall|i: int, j: int| 0 <= i < j < y.len() implies (#[trigger] y[i]).before(
            #[trigger] y[j],
        ) by {
            assert(b[i].timestamp->Some_0.before(b[j].timestamp->Some_0));
        }
    }
    assert forall|i: int| 0 <= i < x.len() implies y.contains(#[trigger] x[i]) by {
        let t = a[i].timestamp->Some_0;
        assert(occurs(points, t));
        let k = choose|k: int| 0 <= k < points.len() && (#[trigger] points[k]).timestamp == Some(t);
        assert(occurs(b, points[k].timestamp->Some_0));
        let j = choose|j: int| 0 <= j < b.len() && (#[trigger] b[j]).timestamp == Some(t);
        assert(y[j] == t);
    }
    assert forall|j: int| 0 <= j < y.len() implies x.contains(#[trigger] y[j]) by {
        let t = b[j].timestamp->Some_0;
        assert(occurs(points, t));
        let k = choose|k: int| 0 <= k < points.len() && (#[trigger] points[k]).timestamp == Some(t);
        assert(occurs(a, points[k].timestamp->Some_0));
        let i = choose|i: int| 0 <= i < a.len() && (#[trigger] a[i]).timestamp == Some(t);
        assert(x[i] == t);
    }
    lemma_ascending_unique(x, y);
    assert(a.len() == b.len());
    assert forall|i: int| 0 <= i < a.len() implies a[i] == b[i] by {
        assert(x[i] == y[i]);
        assert(a[i].timestamp is Some);
        assert(b[i].timestamp is Some);
        assert(a[i].timestamp == b[i].timestamp);
    }
    assert(a =~= b);
}

/// One more data point changes the bucket of its own timestamp, and no other.
pub proof fn lemma_at_time_push(points: Seq<DataPointView>, p: DataPointView, t: Timestamp)
    ensures
        at_time(points.push(p), t) == if p.timestamp == Some(t) {
            at_time(points, t).push(p)
        } else {
            at_time(points, t)
        },
{
    reveal(Seq::filter);
    assert(points.push(p).drop_last() =~= points);
}

/// A time bucket in which nothing occurs is empty.
pub proof fn lemma_at_time_empty(points: Seq<DataPointView>, t: Timestamp)
    requires
        !occurs(points, t),
    ensures
        at_time(points, t) == Seq::<DataPointView>::empty(),
    decreases points.len(),
{
    reveal(Seq::filter);
    if points.len() > 0 {
        let rest = points.drop_last();
        assert(points[points.len() - 1].timestamp != Some(t));
        assert forall|k: int| 0 <= k < rest.len() implies (#[trigger] rest[k]).timestamp != Some(
            t,
        ) by {
            assert(rest[k] == points[k]);
        }
        lemma_at_time_empty(rest, t);
    }
}

/// The rows of a list with one more data point.
pub proof fn lemma_merge_all_push(points: Seq<DataPointView>, p: DataPointView)
    ensures
        merge_all(points.push(p)) == merged_rows(merge_all(points), p.rows),
{
    assert(points.push(p).drop_last() =~= points);
}

/// All rows in one data point without a timestamp.
pub fn collapse(points: &Vec<DataPoint>) -> (r: DataPoint)
    ensures
        r@ == (DataPointView { rows: merge_all(points_view(points@)), timestamp: None }),
{
    let ghost views = points_view(points@);
    let mut merged = DataPoint::new();
    let mut i: usize = 0;
    while i < points.len()
        invariant
            i <= points.len(),
            views == points_view(points@),
            merged@ == (DataPointView { rows: merge_all(views.take(i as int)), timestamp: None }),
        decreases points.len() - i,
    {
        merged.merge(&points[i]);
        proof {
            assert(views.take(i + 1) =~= views.take(i as int).push(points@[i as int]@));
            lemma_merge_all_push(views.take(i as int), points@[i as int]@);
        }
        i += 1;
    }
    assert(views.take(points.len() as int) =~= views);
    merged
}

/// Whether the buckets hold the timeline of what was seen, each under the
/// rank of its timestamp.
pub open spec fn holds_buckets(seen: Seq<DataPointView>, buckets: Map<i128, DataPoint>) -> bool {
    &&& forall|k: i128| #[trigger]
        buckets.contains_key(k) ==> {
            let bucket = buckets[k]@;
            &&& bucket.timestamp is Some
            &&& bucket.timestamp->Some_0.rank() == k
            &&& occurs(seen, bucket.timestamp->Some_0)
            &&& bucket.rows == merge_all(at_time(seen, bucket.timestamp->Some_0))
        }
    &&& forall|j: int|
        0 <= j < seen.len() && (#[trigger] seen[j]).timestamp is Some ==> buckets.contains_key(
            seen[j].timestamp->Some_0.rank() as i128,
        )
}

/// A data point without a timestamp changes nothing in the buckets.
proof fn lemma_buckets_skip(seen: Seq<DataPointView>, p: DataPointView, buckets: Map<i128, DataPoint>)
    requires
        holds_buckets(seen, buckets),
        p.timestamp is None,
    ensures
        holds_buckets(seen.push(p), buckets),
{
    let next = seen.push(p);
    assert forall|k: i128| #[trigger] buckets.contains_key(k) implies {
        let bucket = buckets[k]@;
        &&& bucket.timestamp is Some
        &&& bucket.timestamp->Some_0.rank() == k
        &&& occurs(next, bucket.timestamp->Some_0)
        &&& bucket.rows == merge_all(at_time(next, bucket.timestamp->Some_0))
    } by {
        let t = buckets[k]@.timestamp->Some_0;
        lemma_at_time_push(seen, p, t);
        let j = choose|j: int| 0 <= j < seen.len() && (#[trigger] seen[j]).timestamp == Some(t);
        assert(next[j] == seen[j]);
    }
    assert forall|j: int|
        0 <= j < next.len() && (#[trigger] next[j]).timestamp is Some implies buckets.contains_key(
        next[j].timestamp->Some_0.rank() as i128,
    ) by {
        assert(next[j] == seen[j]);
    }
}

/// A data point with a timestamp joins the bucket of its timestamp, or opens
/// it where there is none yet.
proof fn lemma_buckets_put(
    seen: Seq<DataPointView>,
    p: DataPointView,
    buckets: Map<i128, DataPoint>,
    joined: DataPoint,
)
    requires
        holds_buckets(seen, buckets),
        p.timestamp is Some,
        joined@ == (if buckets.contains_key(p.timestamp->Some_0.rank() as i128) {
            buckets[p.timestamp->Some_0.rank() as i128]@.merge(p)
        } else {
            p
        }),
    ensures
        holds_buckets(seen.push(p), buckets.insert(p.timestamp->Some_0.rank() as i128, joined)),
{
    let next = seen.push(p);
    let t = p.timestamp->Some_0;
    let key = t.rank() as i128;
    let after = buckets.insert(key, joined);
    assert(next[seen.len() as int] == p);
    lemma_at_time_push(seen, p, t);
    lemma_merge_all_push(at_time(seen, t), p);
    if !buckets.contains_key(key) {
        if occurs(seen, t) {
            let j = choose|j: int| 0 <= j < seen.len() && (#[trigger] seen[j]).timestamp == Some(t);
            assert(buckets.contains_key(seen[j].timestamp->Some_0.rank() as i128));
        }
        lemma_at_time_empty(seen, t);
        lemma_merge_empty(p.rows);
    } else {
        Timestamp::lemma_rank(buckets[key]@.timestamp->Some_0, t);
    }
    assert forall|k: i128| #[trigger] after.contains_key(k) implies {
        let bucket = after[k]@;
        &&& bucket.timestamp is Some
        &&& bucket.timestamp->Some_0.rank() == k
        &&& occurs(next, bucket.timestamp->Some_0)
        &&& bucket.rows == merge_all(at_time(next, bucket.timestamp->Some_0))
    } by {
        if k != key {
            let u = buckets[k]@.timestamp->Some_0;
            Timestamp::lemma_rank(u, t);
            lemma_at_time_push(seen, p, u);
            let j = choose|j: int| 0 <= j < seen.len() && (#[trigger] seen[j]).timestamp == Some(u);
            assert(next[j] == seen[j]);
        }
    }
    assert forall|j: int|
        0 <= j < next.len() && (#[trigger] next[j]).timestamp is Some implies after.contains_key(
        next[j].timestamp->Some_0.rank() as i128,
    ) by {
        if j < seen.len() {
            assert(next[j] == seen[j]);
        }
    }
}

/// Gathers the data points in buckets, each under the rank of its timestamp.
fn gather(points: &Vec<DataPoint>) -> (r: BTreeMap<i128, DataPoint>)
    ensures
        holds_buckets(points_view(points@), r@),
{
    let ghost views = points_view(points@);
    let mut buckets: BTreeMap<i128, DataPoint> = BTreeMap::new();
    let mut i: usize = 0;
    while i < points.len()
        invariant
            i <= points.len(),
            views == points_view(points@),
            holds_buckets(views.take(i as int), buckets@),
        decreases points.len() - i,
    {
        let ghost seen = views.take(i as int);
        let ghost before = buckets@;
        let ghost p = points@[i as int]@;
        assert(views.take(i + 1) =~= seen.push(p));
        match points[i].timestamp {
            None => {
                proof {
                    lemma_buckets_skip(seen, p, before);
                }
            },
            Some(t) => {
                let key = t.key();
                let bucket = match buckets.remove(&key) {
                    Some(found) => {
                        let mut bucket = found;
                        bucket.merge(&points[i]);
                        bucket
                    },
                    None => points[i].clone(),
                };
                let ghost joined = bucket;
                buckets.insert(key, bucket);
                proof {
                    assert(buckets@ =~= before.insert(key, joined));
                    lemma_buckets_put(seen, p, before, joined);
                }
            },
        }
        i += 1;
    }
    assert(views.take(points.len() as int) =~= views);
    buckets
}

/// Whether each number of the list is lower than the next.
pub open spec fn rising(keys: Seq<i128>) -> bool {
    forall|a: int, b: int| 0 <= a < b < keys.len() ==> (#[trigger] keys[a]) < (#[trigger] keys[b])
}

/// What an ordered map calls increasing is rising.
proof fn lemma_rising(keys: Seq<i128>)
    requires
        increasing_seq(keys),
    ensures
        rising(keys),
{
    broadcast use vstd::laws_cmp::group_laws_cmp;
    broadcast use vstd::std_specs::btree::axiom_increasing_seq_meaning;

    assert forall|a: int, b: int| 0 <= a < b < keys.len() implies (#[trigger] keys[a]) < (
    #[trigger] keys[b]) by {
        assert(keys[a].cmp_spec(&keys[b]) is Less);
    }
}

/// The keys of a list of entries.
pub open spec fn keys_of(entries: Seq<(&i128, &DataPoint)>) -> Seq<i128> {
    entries.map_values(|kv: (&i128, &DataPoint)| *kv.0)
}

/// The timeline of the data points: see `is_timeline`. The data points are
/// gathered in an ordered map, bucket by bucket, and the buckets are then
/// given out in the order of the map.
pub fn timeline(points: &Vec<DataPoint>) -> (r: Vec<DataPoint>)
    ensures
        is_timeline(points_view(points@), points_view(r@)),
{
    let ghost views = points_view(points@);
    let buckets = gather(points);
    let mut out: Vec<DataPoint> = Vec::new();
    let ghost entries = buckets.iter().remaining();
    for entry in it: buckets.iter()
        invariant
            it.seq() == entries,
            out@.len() == it.index(),
            increasing_seq(keys_of(entries)),
            forall|a: int| 0 <= a < out@.len() ==> (#[trigger] out@[a])@ == (*entries[a].1)@,
    {
        out.push(entry.1.clone());
    }
    proof {
        assert(out@.len() == entries.len());
        let shown = points_view(out@);
        lemma_rising(keys_of(entries));
        assert forall|a: int| 0 <= a < shown.len() implies {
            &&& (#[trigger] shown[a]).timestamp is Some
            &&& occurs(views, shown[a].timestamp->Some_0)
            &&& shown[a].rows == merge_all(at_time(views, shown[a].timestamp->Some_0))
            &&& shown[a].timestamp->Some_0.rank() == keys_of(entries)[a]
        } by {
            let k = *entries[a].0;
            assert(buckets@.contains_key(k));
            assert(buckets@[k] == *entries[a].1);
        }
        assert forall|a: int, b: int| 0 <= a < b < shown.len() implies (#[trigger] shown[a]).timestamp->Some_0.before(
            (#[trigger] shown[b]).timestamp->Some_0,
        ) by {
            assert(keys_of(entries)[a] < keys_of(entries)[b]);
            Timestamp::lemma_rank(shown[a].timestamp->Some_0, shown[b].timestamp->Some_0);
        }
        assert forall|j: int|
            0 <= j < views.len() && (#[trigger] views[j]).timestamp is Some implies occurs(
            shown,
            views[j].timestamp->Some_0,
        ) by {
            let t = views[j].timestamp->Some_0;
            let k = t.rank() as i128;
            assert(buckets@.contains_key(k));
            assert(entries.contains((&k, &buckets@[k])));
            let a = choose|a: int| 0 <= a < entries.len() && entries[a] == (&k, &buckets@[k]);
            assert(shown[a].timestamp->Some_0.rank() == keys_of(entries)[a]);
            Timestamp::lemma_rank(shown[a].timestamp->Some_0, t);
        }
    }
    out
}

/// The list turned round.
fn reversed(list: Vec<DataPoint>) -> (r: Vec<DataPoint>)
    ensures
        r@ == list@.reverse(),
{
    let mut rest = list;
    let mut out: Vec<DataPoint> = Vec::new();
    let ghost all = rest@;
    while rest.len() > 0
        invariant
            rest@ == all.take(rest@.len() as int),
            out@.len() + rest@.len() == all.len(),
            forall|k: int| 0 <= k < out@.len() ==> out@[k] == all[all.len() - 1 - k],
        decreases rest.len(),
    {
        let last = rest.pop();
        match last {
            Some(point) => {
                out.push(point);
            },
            None => {},
        }
        assert(rest@ =~= all.take(rest@.len() as int));
    }
    assert(out@ =~= all.reverse());
    out
}

/// Merges the data points that the queries of one request gave.
///
/// Where a time series was asked for (`use_ts`), the result has one data
/// point for each timestamp that occurs, with all rows of that timestamp,
/// the earliest first for `Order::Asc` and the latest first for
/// `Order::Desc`; data points without a timestamp are left out. Where no time
/// series was asked for, the result is one data point with all rows, whatever
/// the number of resources.
pub fn merge_points(points: &Vec<DataPoint>, use_ts: bool, order: Order) -> (r: Vec<DataPoint>)
    ensures
        is_merged(points_view(points@), use_ts, order, points_view(r@)),
{
    if use_ts {
        let ascending = timeline(points);
        match order {
            Order::Asc => ascending,
            Order::Desc => {
                let descending = reversed(ascending);
                proof {
                    let up = points_view(ascending@);
                    let down = points_view(descending@);
                    assert(down =~= up.reverse());
                    assert(down.reverse() =~= up);
                }
                descending
            },
        }
    } else {
        let merged = collapse(points);
        let mut out: Vec<DataPoint> = Vec::new();
        out.push(merged);
        assert(points_view(out@) =~= seq![
            DataPointView { rows: merge_all(points_view(points@)), timestamp: None },
        ]);
        out
    }
}

} // verus!
