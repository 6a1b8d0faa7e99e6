//! Reading the step count out of an aggregation answer.
//!
//! An answer is a tree: buckets hold datasets, datasets hold points, points
//! hold values. Its leaves are the integers of its values, in the order in
//! which a walk from the first bucket to the last meets them. An answer in
//! which a list or an integer is absent has no leaves: the first absence that
//! the walk meets is reported instead.

use vstd::prelude::*;
use crate::providers::{FitError, Level};
use crate::providers::google::fitness_v1_types::{
    AggregateBucket,
    AggregateResponse,
    DataPoint,
    Dataset,
    Value,
};

verus! {

/// The leaves of a list of items, each read by `read`: the leaves of the
/// items one after another, or the first absence met.
pub open spec fn scan<T>(items: Seq<T>, read: spec_fn(T) -> Result<Seq<i32>, Level>) -> Result<
    Seq<i32>,
    Level,
>
    decreases items.len(),
{
    if items.len() == 0 {
        Ok(Seq::empty())
    } else {
        match scan(items.drop_last(), read) {
            Err(level) => Err(level),
            Ok(before) => match read(items.last()) {
                Err(level) => Err(level),
                Ok(here) => Ok(before + here),
            },
        }
    }
}

/// The one leaf of a value.
pub open spec fn value_leaves(value: Value) -> Result<Seq<i32>, Level> {
    match value.int_val {
        Some(n) => Ok(seq![n]),
        None => Err(Level::IntValue),
    }
}

/// The leaves of a list of values.
pub open spec fn values_leaves(values: Seq<Value>) -> Result<Seq<i32>, Level> {
    scan(values, |v: Value| value_leaves(v))
}

/// The leaves of a point.
pub open spec fn point_leaves(point: DataPoint) -> Result<Seq<i32>, Level> {
    match point.value {
        Some(values) => values_leaves(values@),
        None => Err(Level::ValueList),
    }
}

/// The leaves of a list of points.
pub open spec fn points_leaves(points: Seq<DataPoint>) -> Result<Seq<i32>, Level> {
    scan(points, |p: DataPoint| point_leaves(p))
}

/// The leaves of a dataset.
pub open spec fn dataset_leaves(dataset: Dataset) -> Result<Seq<i32>, Level> {
    match dataset.point {
        Some(points) => points_leaves(points@),
        None => Err(Level::PointList),
    }
}

/// The leaves of a list of datasets.
pub open spec fn datasets_leaves(datasets: Seq<Dataset>) -> Result<Seq<i32>, Level> {
    scan(datasets, |d: Dataset| dataset_leaves(d))
}

/// The leaves of a bucket.
pub open spec fn bucket_leaves(bucket: AggregateBucket) -> Result<Seq<i32>, Level> {
    match bucket.dataset {
        Some(datasets) => datasets_leaves(datasets@),
        None => Err(Level::DatasetList),
    }
}

/// The leaves of a list of buckets.
pub open spec fn buckets_leaves(buckets: Seq<AggregateBucket>) -> Result<Seq<i32>, Level> {
    scan(buckets, |b: AggregateBucket| bucket_leaves(b))
}

/// The leaves of an answer.
pub open spec fn response_leaves(resp: AggregateResponse) -> Result<Seq<i32>, Level> {
    match resp.bucket {
        Some(buckets) => buckets_leaves(buckets@),
        None => Err(Level::BucketList),
    }
}

/// The arithmetic sum of a list of integers.
pub open spec fn sum(leaves: Seq<i32>) -> int
    decreases leaves.len(),
{
    if leaves.len() == 0 {
        0
    } else {
        sum(leaves.drop_last()) + leaves.last()
    }
}

/// The total of a list of leaves: their sum, where the sum is a 32-bit
/// integer. The order of the leaves plays no part.
pub open spec fn total(leaves: Seq<i32>) -> Result<i32, FitError> {
    if i32::MIN <= sum(leaves) <= i32::MAX {
        Ok(sum(leaves) as i32)
    } else {
        Err(FitError::StepCountOverflow)
    }
}

/// The step count that an answer holds: the total of its leaves, or the
/// level that it lacks.
pub open spec fn step_count(resp: AggregateResponse) -> Result<i32, FitError> {
    match response_leaves(resp) {
        Ok(leaves) => total(leaves),
        Err(level) => Err(FitError::MalformedResponse(level)),
    }
}

/// An absence met in a prefix of a list is what the whole list reports.
pub proof fn lemma_scan_prefix_absent<T>(
    items: Seq<T>,
    read: spec_fn(T) -> Result<Seq<i32>, Level>,
    k: int,
)
    requires
        0 <= k <= items.len(),
        scan(items.take(k), read) is Err,
    ensures
        scan(items, read) == scan(items.take(k), read),
    decreases items.len(),
{
    if k == items.len() {
        assert(items.take(k) =~= items);
    } else {
        assert(items.drop_last().take(k) =~= items.take(k));
        lemma_scan_prefix_absent(items.drop_last(), read, k);
    }
}

/// Reading one more item of a list extends what its prefix gave.
pub proof fn lemma_scan_step<T>(items: Seq<T>, read: spec_fn(T) -> Result<Seq<i32>, Level>, k: int)
    requires
        0 <= k < items.len(),
    ensures
        scan(items.take(k + 1), read) == (match scan(items.take(k), read) {
            Err(level) => Err::<Seq<i32>, Level>(level),
            Ok(before) => match read(items[k]) {
                Err(level) => Err(level),
                Ok(here) => Ok(before + here),
            },
        }),
{
    assert(items.take(k + 1).drop_last() =~= items.take(k));
}

/// Appends the leaves of `values` to `out`.
fn gather_values(values: &Vec<Value>, out: &mut Vec<i32>) -> (r: Result<(), Level>)
    ensures
        match values_leaves(values@) {
            Ok(leaves) => r is Ok && final(out)@ == old(out)@ + leaves,
            Err(level) => r == Err::<(), Level>(level),
        },
{
    let ghost read = |v: Value| value_leaves(v);
    let mut i: usize = 0;
    while i < values.len()
        invariant
            0 <= i <= values.len(),
            read == (|v: Value| value_leaves(v)),
            scan(values@.take(i as int), read) matches Ok(leaves) && out@ == old(out)@ + leaves,
        decreases values.len() - i,
    {
        proof {
            lemma_scan_step(values@, read, i as int);
        }
        match values[i].int_val {
            Some(n) => {
                out.push(n);
                assert(out@ =~= old(out)@ + scan(values@.take(i + 1), read)->Ok_0);
            },
            None => {
                proof {
                    lemma_scan_prefix_absent(values@, read, i + 1);
                }
                return Err(Level::IntValue);
            },
        }
        i += 1;
    }
    assert(values@.take(i as int) =~= values@);
    Ok(())
}

/// Appends the leaves of `points` to `out`.
fn gather_points(points: &Vec<DataPoint>, out: &mut Vec<i32>) -> (r: Result<(), Level>)
    ensures
        match points_leaves(points@) {
            Ok(leaves) => r is Ok && final(out)@ == old(out)@ + leaves,
            Err(level) => r == Err::<(), Level>(level),
        },
{
    let ghost read = |p: DataPoint| point_leaves(p);
    let mut i: usize = 0;
    while i < points.len()
        invariant
            0 <= i <= points.len(),
            read == (|p: DataPoint| point_leaves(p)),
            scan(points@.take(i as int), read) matches Ok(leaves) && out@ == old(out)@ + leaves,
        decreases points.len() - i,
    {
        proof {
            lemma_scan_step(points@, read, i as int);
        }
        let ghost before = out@;
        let step = match &points[i].value {
            Some(values) => gather_values(values, out),
            None => Err(Level::ValueList),
        };
        match step {
            Ok(()) => {
                assert(out@ =~= old(out)@ + scan(points@.take(i + 1), read)->Ok_0);
            },
            Err(level) => {
                proof {
                    lemma_scan_prefix_absent(points@, read, i + 1);
                }
                return Err(level);
            },
        }
        i += 1;
    }
    assert(points@.take(i as int) =~= points@);
    Ok(())
}

/// Appends the leaves of `datasets` to `out`.
fn gather_datasets(datasets: &Vec<Dataset>, out: &mut Vec<i32>) -> (r: Result<(), Level>)
    ensures
        match datasets_leaves(datasets@) {
            Ok(leaves) => r is Ok && final(out)@ == old(out)@ + leaves,
            Err(level) => r == Err::<(), Level>(level),
        },
{
    let ghost read = |d: Dataset| dataset_leaves(d);
    let mut i: usize = 0;
    while i < datasets.len()
        invariant
            0 <= i <= datasets.len(),
            read == (|d: Dataset| dataset_leaves(d)),
            scan(datasets@.take(i as int), read) matches Ok(leaves) && out@ == old(out)@ + leaves,
        decreases datasets.len() - i,
    {
        proof {
            lemma_scan_step(datasets@, read, i as int);
        }
        let step = match &datasets[i].point {
            Some(points) => gather_points(points, out),
            None => Err(Level::PointList),
        };
        match step {
            Ok(()) => {
                assert(out@ =~= old(out)@ + scan(datasets@.take(i + 1), read)->Ok_0);
            },
            Err(level) => {
                proof {
                    lemma_scan_prefix_absent(datasets@, read, i + 1);
                }
                return Err(level);
            },
        }
        i += 1;
    }
    assert(datasets@.take(i as int) =~= datasets@);
    Ok(())
}

/// Appends the leaves of `buckets` to `out`.
fn gather_buckets(buckets: &Vec<AggregateBucket>, out: &mut Vec<i32>) -> (r: Result<(), Level>)
    ensures
        match buckets_leaves(buckets@) {
            Ok(leaves) => r is Ok && final(out)@ == old(out)@ + leaves,
            Err(level) => r == Err::<(), Level>(level),
        },
{
    let ghost read = |b: AggregateBucket| bucket_leaves(b);
    let mut i: usize = 0;
    while i < buckets.len()
        invariant
            0 <= i <= buckets.len(),
            read == (|b: AggregateBucket| bucket_leaves(b)),
            scan(buckets@.take(i as int), read) matches Ok(leaves) && out@ == old(out)@ + leaves,
        decreases buckets.len() - i,
    {
        proof {
            lemma_scan_step(buckets@, read, i as int);
        }
        let step = match &buckets[i].dataset {
            Some(datasets) => gather_datasets(datasets, out),
            None => Err(Level::DatasetList),
        };
        match step {
            Ok(()) => {
                assert(out@ =~= old(out)@ + scan(buckets@.take(i + 1), read)->Ok_0);
            },
            Err(level) => {
                proof {
                    lemma_scan_prefix_absent(buckets@, read, i + 1);
                }
                return Err(level);
            },
        }
        i += 1;
    }
    assert(buckets@.take(i as int) =~= buckets@);
    Ok(())
}

/// The leaves of an answer, in the order of the walk, or the first level
/// that the walk finds absent.
pub fn collect_leaves(resp: &AggregateResponse) -> (r: Result<Vec<i32>, Level>)
    ensures
        match response_leaves(*resp) {
            Ok(leaves) => r matches Ok(found) && found@ == leaves,
            Err(level) => r matches Err(l) && l == level,
        },
{
    let mut out: Vec<i32> = Vec::new();
    match &resp.bucket {
        Some(buckets) => match gather_buckets(buckets, &mut out) {
            Ok(()) => {
                assert(out@ =~= buckets_leaves(buckets@)->Ok_0);
                Ok(out)
            },
            Err(level) => Err(level),
        },
        None => Err(Level::BucketList),
    }
}

/// Adds the leaves up in a wide integer, which no list can overflow, and
/// gives the sum where it is a 32-bit integer.
pub fn sum_leaves(leaves: &Vec<i32>) -> (r: Result<i32, FitError>)
    ensures
        r == total(leaves@),
{
    let mut acc: i128 = 0;
    let mut i: usize = 0;
    assert(leaves@.take(0) =~= Seq::<i32>::empty());
    while i < leaves.len()
        invariant
            0 <= i <= leaves.len(),
            acc == sum(leaves@.take(i as int)),
            -(i as int) * 0x8000_0000 <= acc <= (i as int) * 0x8000_0000,
        decreases leaves.len() - i,
    {
        assert(leaves@.take(i + 1).drop_last() =~= leaves@.take(i as int));
        acc = acc + (leaves[i] as i128);
        i += 1;
    }
    assert(leaves@.take(i as int) =~= leaves@);
    if acc < (i32::MIN as i128) || acc > (i32::MAX as i128) {
        Err(FitError::StepCountOverflow)
    } else {
        Ok(acc as i32)
    }
}

/// A value lacks a level where its integer is absent.
pub open spec fn value_lacks_level(value: Value) -> bool {
    value.int_val is None
}

/// A point lacks a level where its list of values is absent or one of its
/// values lacks one.
pub open spec fn point_lacks_level(point: DataPoint) -> bool {
    match point.value {
        None => true,
        Some(values) => exists|i: int|
            0 <= i < values@.len() && #[trigger] value_lacks_level(values@[i]),
    }
}

/// A dataset lacks a level where its list of points is absent or one of its
/// points lacks one.
pub open spec fn dataset_lacks_level(dataset: Dataset) -> bool {
    match dataset.point {
        None => true,
        Some(points) => exists|i: int|
            0 <= i < points@.len() && #[trigger] point_lacks_level(points@[i]),
    }
}

/// A bucket lacks a level where its list of datasets is absent or one of its
/// datasets lacks one.
pub open spec fn bucket_lacks_level(bucket: AggregateBucket) -> bool {
    match bucket.dataset {
        None => true,
        Some(datasets) => exists|i: int|
            0 <= i < datasets@.len() && #[trigger] dataset_lacks_level(datasets@[i]),
    }
}

/// An answer lacks a level where its list of buckets is absent or one of its
/// buckets lacks one: somewhere in the tree a list or an integer is absent.
pub open spec fn response_lacks_level(resp: AggregateResponse) -> bool {
    match resp.bucket {
        None => true,
        Some(buckets) => exists|i: int|
            0 <= i < buckets@.len() && #[trigger] bucket_lacks_level(buckets@[i]),
    }
}

/// A list has leaves exactly where each of its items has.
pub proof fn lemma_scan_absent_iff<T>(items: Seq<T>, read: spec_fn(T) -> Result<Seq<i32>, Level>)
    ensures
        scan(items, read) is Err <==> exists|i: int|
            0 <= i < items.len() && #[trigger] read(items[i]) is Err,
    decreases items.len(),
{
    if items.len() > 0 {
        let front = items.drop_last();
        lemma_scan_absent_iff(front, read);
        if scan(items, read) is Err {
            if scan(front, read) is Err {
                let i = choose|i: int| 0 <= i < front.len() && #[trigger] read(front[i]) is Err;
                assert(read(items[i]) is Err);
            } else {
                assert(read(items[items.len() - 1]) is Err);
            }
        }
        if exists|i: int| 0 <= i < items.len() && #[trigger] read(items[i]) is Err {
            let i = choose|i: int| 0 <= i < items.len() && #[trigger] read(items[i]) is Err;
            if i < front.len() {
                assert(read(front[i]) is Err);
            }
        }
    }
}

/// A point has no leaves exactly where it lacks a level.
pub proof fn lemma_point_absent_iff(point: DataPoint)
    ensures
        point_leaves(point) is Err <==> point_lacks_level(point),
{
    if let Some(values) = point.value {
        let read = |v: Value| value_leaves(v);
        lemma_scan_absent_iff(values@, read);
        if point_leaves(point) is Err {
            let i = choose|i: int| 0 <= i < values@.len() && #[trigger] read(values@[i]) is Err;
            assert(value_lacks_level(values@[i]));
        }
        if point_lacks_level(point) {
            let i = choose|i: int|
                0 <= i < values@.len() && #[trigger] value_lacks_level(values@[i]);
            assert(read(values@[i]) is Err);
        }
    }
}

/// A dataset has no leaves exactly where it lacks a level.
pub proof fn lemma_dataset_absent_iff(dataset: Dataset)
    ensures
        dataset_leaves(dataset) is Err <==> dataset_lacks_level(dataset),
{
    if let Some(points) = dataset.point {
        let read = |p: DataPoint| point_leaves(p);
        lemma_scan_absent_iff(points@, read);
        if dataset_leaves(dataset) is Err {
            let i = choose|i: int| 0 <= i < points@.len() && #[trigger] read(points@[i]) is Err;
            lemma_point_absent_iff(points@[i]);
            assert(point_lacks_level(points@[i]));
        }
        if dataset_lacks_level(dataset) {
            let i = choose|i: int|
                0 <= i < points@.len() && #[trigger] point_lacks_level(points@[i]);
            lemma_point_absent_iff(points@[i]);
            assert(read(points@[i]) is Err);
        }
    }
}

/// A bucket has no leaves exactly where it lacks a level.
pub proof fn lemma_bucket_absent_iff(bucket: AggregateBucket)
    ensures
        bucket_leaves(bucket) is Err <==> bucket_lacks_level(bucket),
{
    if let Some(datasets) = bucket.dataset {
        let read = |d: Dataset| dataset_leaves(d);
        lemma_scan_absent_iff(datasets@, read);
        if bucket_leaves(bucket) is Err {
            let i = choose|i: int|
                0 <= i < datasets@.len() && #[trigger] read(datasets@[i]) is Err;
            lemma_dataset_absent_iff(datasets@[i]);
            assert(dataset_lacks_level(datasets@[i]));
        }
        if bucket_lacks_level(bucket) {
            let i = choose|i: int|
                0 <= i < datasets@.len() && #[trigger] dataset_lacks_level(datasets@[i]);
            lemma_dataset_absent_iff(datasets@[i]);
            assert(read(datasets@[i]) is Err);
        }
    }
}

/// Extraction reports a malformed answer exactly where a list or an integer
/// is absent somewhere in the answer; an absence is never read as zero.
pub proof fn lemma_malformed_iff_level_absent(resp: AggregateResponse)
    ensures
        response_lacks_level(resp) <==> step_count(resp) matches Err(
            FitError::MalformedResponse(_),
        ),
        !response_lacks_level(resp) <==> response_leaves(resp) is Ok,
{
    if let Some(buckets) = resp.bucket {
        let read = |b: AggregateBucket| bucket_leaves(b);
        lemma_scan_absent_iff(buckets@, read);
        if response_leaves(resp) is Err {
            let i = choose|i: int| 0 <= i < buckets@.len() && #[trigger] read(buckets@[i]) is Err;
            lemma_bucket_absent_iff(buckets@[i]);
            assert(bucket_lacks_level(buckets@[i]));
        }
        if response_lacks_level(resp) {
            let i = choose|i: int|
                0 <= i < buckets@.len() && #[trigger] bucket_lacks_level(buckets@[i]);
            lemma_bucket_absent_iff(buckets@[i]);
            assert(read(buckets@[i]) is Err);
        }
    }
}

/// Taking one element out of a list lowers its sum by that element.
pub proof fn lemma_sum_remove(leaves: Seq<i32>, i: int)
    requires
        0 <= i < leaves.len(),
    ensures
        sum(leaves) == sum(leaves.remove(i)) + leaves[i],
    decreases leaves.len(),
{
    if i == leaves.len() - 1 {
        assert(leaves.remove(i) =~= leaves.drop_last());
    } else {
        assert(leaves.remove(i).drop_last() =~= leaves.drop_last().remove(i));
        lemma_sum_remove(leaves.drop_last(), i);
    }
}

/// The sum does not depend on the order: two lists that hold the same
/// integers, each as often as the other, have the same sum.
pub proof fn lemma_sum_order_independent(a: Seq<i32>, b: Seq<i32>)
    requires
        a.to_multiset() == b.to_multiset(),
    ensures
        sum(a) == sum(b),
    decreases a.len(),
{
    broadcast use vstd::seq_lib::group_to_multiset_ensures;

    a.to_multiset_ensures();
    b.to_multiset_ensures();
    if a.len() == 0 {
        assert(b.to_multiset().len() == 0);
        assert(b.len() == 0);
    } else {
        let x = a.last();
        assert(a =~= a.drop_last().push(x));
        assert(b.to_multiset().count(x) > 0);
        assert(b.contains(x));
        let i = choose|i: int| 0 <= i < b.len() && b[i] == x;
        assert(b.remove(i).to_multiset() =~= a.drop_last().to_multiset());
        lemma_sum_order_independent(a.drop_last(), b.remove(i));
        lemma_sum_remove(b, i);
    }
}

/// A list without negative integers has no negative sum.
pub proof fn lemma_sum_nonnegative(leaves: Seq<i32>)
    requires
        forall|i: int| 0 <= i < leaves.len() ==> leaves[i] >= 0,
    ensures
        sum(leaves) >= 0,
    decreases leaves.len(),
{
    if leaves.len() > 0 {
        lemma_sum_nonnegative(leaves.drop_last());
    }
}

/// For an answer in which nothing is absent and no value is negative, the
/// step count is the arithmetic sum of the values, as long as that sum is a
/// 32-bit integer, and it is not negative.
pub proof fn lemma_step_count_is_sum(resp: AggregateResponse, leaves: Seq<i32>)
    requires
        response_leaves(resp) == Ok::<Seq<i32>, Level>(leaves),
        forall|i: int| 0 <= i < leaves.len() ==> leaves[i] >= 0,
        sum(leaves) <= i32::MAX,
    ensures
        step_count(resp) == Ok::<i32, FitError>(sum(leaves) as i32),
        sum(leaves) >= 0,
{
    lemma_sum_nonnegative(leaves);
}

/// For every answer in which nothing is absent, the step count is the sum
/// of the values exactly where that sum is a 32-bit integer.
pub proof fn lemma_step_count_in_range(resp: AggregateResponse, leaves: Seq<i32>)
    requires
        response_leaves(resp) == Ok::<Seq<i32>, Level>(leaves),
    ensures
        i32::MIN <= sum(leaves) <= i32::MAX ==> step_count(resp) == Ok::<i32, FitError>(
            sum(leaves) as i32,
        ),
        !(i32::MIN <= sum(leaves) <= i32::MAX) ==> step_count(resp) == Err::<i32, FitError>(
            FitError::StepCountOverflow,
        ),
{
}

/// Extraction does not depend on the order: two answers in which nothing is
/// absent and which hold the same values, each as often as the other, have
/// the same step count, wherever in their trees the values stand.
pub proof fn lemma_step_count_order_independent(
    first: AggregateResponse,
    second: AggregateResponse,
)
    requires
        response_leaves(first) is Ok,
        response_leaves(second) is Ok,
        response_leaves(first)->Ok_0.to_multiset() == response_leaves(second)->Ok_0.to_multiset(),
    ensures
        step_count(first) == step_count(second),
{
    lemma_sum_order_independent(response_leaves(first)->Ok_0, response_leaves(second)->Ok_0);
}

/// Items without leaves add nothing: a list all of whose items are present
/// and hold no leaves holds none itself.
pub proof fn lemma_scan_of_empty_items<T>(
    items: Seq<T>,
    read: spec_fn(T) -> Result<Seq<i32>, Level>,
)
    requires
        forall|i: int|
            0 <= i < items.len() ==> #[trigger] read(items[i]) == Ok::<Seq<i32>, Level>(
                Seq::empty(),
            ),
    ensures
        scan(items, read) == Ok::<Seq<i32>, Level>(Seq::empty()),
    decreases items.len(),
{
    if items.len() > 0 {
        lemma_scan_of_empty_items(items.drop_last(), read);
        assert(read(items[items.len() - 1]) == Ok::<Seq<i32>, Level>(Seq::empty()));
        assert(Seq::<i32>::empty() + Seq::<i32>::empty() =~= Seq::<i32>::empty());
    }
}

/// A point holds no value where its list of values is present and empty.
pub open spec fn point_holds_no_value(point: DataPoint) -> bool {
    point.value matches Some(values) && values@.len() == 0
}

/// A dataset holds no value where its list of points is present and none of
/// its points holds one; a dataset with zero points is such a dataset.
pub open spec fn dataset_holds_no_value(dataset: Dataset) -> bool {
    dataset.point matches Some(points) && forall|i: int|
        0 <= i < points@.len() ==> #[trigger] point_holds_no_value(points@[i])
}

/// A bucket holds no value where its list of datasets is present and none of
/// its datasets holds one; a bucket with zero datasets is such a bucket.
pub open spec fn bucket_holds_no_value(bucket: AggregateBucket) -> bool {
    bucket.dataset matches Some(datasets) && forall|i: int|
        0 <= i < datasets@.len() ==> #[trigger] dataset_holds_no_value(datasets@[i])
}

/// An answer holds no value where its list of buckets is present and none of
/// its buckets holds one; an answer with zero buckets is such an answer.
pub open spec fn response_holds_no_value(resp: AggregateResponse) -> bool {
    resp.bucket matches Some(buckets) && forall|i: int|
        0 <= i < buckets@.len() ==> #[trigger] bucket_holds_no_value(buckets@[i])
}

/// An answer whose lists are all present, and empty wherever the walk would
/// come to a value, holds a step count of zero: zero buckets, zero datasets,
/// zero points or zero values, at any level and in any mixture.
pub proof fn lemma_no_values_is_zero(resp: AggregateResponse)
    requires
        response_holds_no_value(resp),
    ensures
        response_leaves(resp) == Ok::<Seq<i32>, Level>(Seq::empty()),
        step_count(resp) == Ok::<i32, FitError>(0),
{
    let nothing = Ok::<Seq<i32>, Level>(Seq::empty());
    let buckets = resp.bucket->Some_0;
    let read_bucket = |b: AggregateBucket| bucket_leaves(b);
    assert forall|i: int| 0 <= i < buckets@.len() implies #[trigger] read_bucket(buckets@[i])
        == nothing by {
        assert(bucket_holds_no_value(buckets@[i]));
        let datasets = buckets@[i].dataset->Some_0;
        let read_dataset = |d: Dataset| dataset_leaves(d);
        assert forall|j: int| 0 <= j < datasets@.len() implies #[trigger] read_dataset(
            datasets@[j],
        ) == nothing by {
            assert(dataset_holds_no_value(datasets@[j]));
            let points = datasets@[j].point->Some_0;
            let read_point = |p: DataPoint| point_leaves(p);
            assert forall|k: int| 0 <= k < points@.len() implies #[trigger] read_point(points@[k])
                == nothing by {
                assert(point_holds_no_value(points@[k]));
            }
            lemma_scan_of_empty_items(points@, read_point);
        }
        lemma_scan_of_empty_items(datasets@, read_dataset);
    }
    lemma_scan_of_empty_items(buckets@, read_bucket);
}

/// A list of one item has the leaves of that item.
pub proof fn lemma_scan_one<T>(items: Seq<T>, read: spec_fn(T) -> Result<Seq<i32>, Level>)
    requires
        items.len() == 1,
    ensures
        scan(items, read) == read(items[0]),
{
    lemma_scan_step(items, read, 0);
    assert(items.take(1) =~= items);
    assert(items.take(0).len() == 0);
    if let Ok(here) = read(items[0]) {
        assert(Seq::<i32>::empty() + here =~= here);
    }
}

/// A list of two items that have leaves has the leaves of the first, then
/// those of the second.
pub proof fn lemma_scan_two<T>(items: Seq<T>, read: spec_fn(T) -> Result<Seq<i32>, Level>)
    requires
        items.len() == 2,
        read(items[0]) is Ok,
        read(items[1]) is Ok,
    ensures
        scan(items, read) == Ok::<Seq<i32>, Level>(read(items[0])->Ok_0 + read(items[1])->Ok_0),
{
    lemma_scan_one(items.take(1), read);
    lemma_scan_step(items, read, 1);
    assert(items.take(2) =~= items);
}

/// The answer is one bucket with one dataset of two points, each with one
/// value: the integers `a` and `b`.
pub open spec fn holds_two_points(resp: AggregateResponse, a: i32, b: i32) -> bool {
    &&& resp.bucket matches Some(buckets)
    &&& buckets@.len() == 1
    &&& buckets@[0].dataset matches Some(datasets)
    &&& datasets@.len() == 1
    &&& datasets@[0].point matches Some(points)
    &&& points@.len() == 2
    &&& points@[0].value matches Some(first)
    &&& first@.len() == 1
    &&& first@[0].int_val == Some(a)
    &&& points@[1].value matches Some(second)
    &&& second@.len() == 1
    &&& second@[0].int_val == Some(b)
}

/// An answer of two points with one value each holds the sum of the two as
/// its step count, where that sum is a 32-bit integer.
pub proof fn lemma_two_points_add_up(resp: AggregateResponse, a: i32, b: i32)
    requires
        holds_two_points(resp, a, b),
    ensures
        response_leaves(resp) == Ok::<Seq<i32>, Level>(seq![a, b]),
        sum(seq![a, b]) == a + b,
        i32::MIN <= a + b <= i32::MAX ==> step_count(resp) == Ok::<i32, FitError>((a + b) as i32),
{
    let buckets = resp.bucket->Some_0;
    let datasets = buckets@[0].dataset->Some_0;
    let points = datasets@[0].point->Some_0;
    let first = points@[0].value->Some_0;
    let second = points@[1].value->Some_0;
    lemma_scan_one(first@, |v: Value| value_leaves(v));
    lemma_scan_one(second@, |v: Value| value_leaves(v));
    assert(point_leaves(points@[0]) == Ok::<Seq<i32>, Level>(seq![a]));
    assert(point_leaves(points@[1]) == Ok::<Seq<i32>, Level>(seq![b]));
    lemma_scan_two(points@, |p: DataPoint| point_leaves(p));
    assert(seq![a] + seq![b] =~= seq![a, b]);
    assert(dataset_leaves(datasets@[0]) == Ok::<Seq<i32>, Level>(seq![a, b]));
    lemma_scan_one(datasets@, |d: Dataset| dataset_leaves(d));
    assert(bucket_leaves(buckets@[0]) == Ok::<Seq<i32>, Level>(seq![a, b]));
    lemma_scan_one(buckets@, |b: AggregateBucket| bucket_leaves(b));
    assert(seq![a, b].drop_last() =~= seq![a]);
    assert(seq![a].drop_last() =~= Seq::<i32>::empty());
    reveal_with_fuel(sum, 3);
}

} // verus!
