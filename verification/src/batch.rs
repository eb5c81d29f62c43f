//! Grouping the updates of one transaction into batches of bounded size.
//!
//! Updates are handed to the engine in the order in which they were read. A
//! batch is handed over as soon as it is full; what is left when the input
//! ends, which may be nothing, is handed over as the last batch.

use vstd::prelude::*;
use vstd::arithmetic::div_mod::lemma_fundamental_div_mod;
use crate::update::Update;

verus! {

/// The batch size used where none is asked for.
pub const DEFAULT_MAX_BATCH_SIZE: usize = 1000;

/// The smaller of two integers.
pub open spec fn least(a: int, b: int) -> int {
    if a <= b {
        a
    } else {
        b
    }
}

/// `len` divided by `limit`, rounded up.
pub open spec fn ceil_div(len: nat, limit: nat) -> nat {
    ((len + limit - 1) / (limit as int)) as nat
}

/// How many batches `len` items are handed over in: one for each full batch,
/// and one for the rest.
pub open spec fn batch_count(len: nat, limit: nat) -> nat {
    len / limit + 1
}

/// The batch with index `k` of `items`.
pub open spec fn batch<T>(items: Seq<T>, limit: nat, k: int) -> Seq<T> {
    items.subrange(least(k * limit, items.len() as int), least((k + 1) * limit, items.len() as int))
}

/// The batches that `items` are handed over in, in order.
pub open spec fn batches<T>(items: Seq<T>, limit: nat) -> Seq<Seq<T>> {
    Seq::new(batch_count(items.len(), limit), |k: int| batch(items, limit, k))
}

/// Where the batch that starts at `cursor` ends.
pub fn batch_end(cursor: usize, len: usize, max_batch_size: usize) -> (end: usize)
    requires
        cursor <= len,
    ensures
        end == least(cursor + max_batch_size, len as int),
{
    if len - cursor < max_batch_size {
        len
    } else {
        cursor + max_batch_size
    }
}

/// Splits `updates` into the batches that they are handed over in.
pub fn split_batches(updates: &Vec<Update>, max_batch_size: usize) -> (split: Vec<Vec<Update>>)
    requires
        max_batch_size > 0,
    ensures
        split.deep_view() == batches(updates.deep_view(), max_batch_size as nat),
{
    let ghost items = updates.deep_view();
    let ghost limit = max_batch_size as nat;
    let mut split: Vec<Vec<Update>> = Vec::new();
    let mut cursor: usize = 0;
    let mut done = false;
    assert(0 * limit == 0) by (nonlinear_arith);
    while !done
        invariant
            max_batch_size > 0,
            limit == max_batch_size,
            items == updates.deep_view(),
            cursor <= updates.len(),
            !done ==> cursor == split.len() * limit,
            !done ==> split.len() < batch_count(items.len(), limit),
            done ==> split.len() == batch_count(items.len(), limit),
            forall|k: int| 0 <= k < split.len() ==> #[trigger] split[k].deep_view() == batch(items, limit, k),
        decreases updates.len() - cursor + (if done { 0int } else { 1int }),
    {
        let end = batch_end(cursor, updates.len(), max_batch_size);
        let ghost k = split.len() as int;
        proof {
            lemma_batch_bounds(items.len(), limit, k);
        }
        let mut chunk: Vec<Update> = Vec::new();
        let mut at: usize = cursor;
        while at < end
            invariant
                cursor <= at <= end <= updates.len(),
                items == updates.deep_view(),
                chunk.deep_view() == items.subrange(cursor as int, at as int),
            decreases end - at,
        {
            let ghost seen = chunk.deep_view();
            chunk.push(updates[at].clone());
            assert(chunk.deep_view() =~= seen.push(items[at as int]));
            at += 1;
            assert(chunk.deep_view() =~= items.subrange(cursor as int, at as int));
        }
        done = end - cursor < max_batch_size;
        split.push(chunk);
        assert(split[k].deep_view() == batch(items, limit, k));
        cursor = end;
    }
    assert(split.deep_view() =~= batches(items, limit));
    split
}

/// Where the batch with index `k` starts and ends, and whether it is the
/// last.
pub proof fn lemma_batch_bounds(len: nat, limit: nat, k: int)
    requires
        limit > 0,
        0 <= k < batch_count(len, limit),
    ensures
        k * limit <= len,
        (k + 1) * limit == k * limit + limit,
        k + 1 < batch_count(len, limit) <==> (k + 1) * limit <= len,
        k + 1 == batch_count(len, limit) ==> len - k * limit == len % limit,
{
    let q = len as int / limit as int;
    lemma_fundamental_div_mod(len as int, limit as int);
    assert((k + 1) * limit == k * limit + limit) by (nonlinear_arith);
    assert(k * limit <= q * limit) by (nonlinear_arith)
        requires
            k <= q,
            limit > 0,
    ;
    assert(limit * q == q * limit) by (nonlinear_arith);
    if k + 1 <= q {
        assert((k + 1) * limit <= q * limit) by (nonlinear_arith)
            requires
                k + 1 <= q,
                limit > 0,
        ;
    } else {
        assert(k == q);
    }
}

/// The first `j` batches, joined, are the items that come before batch `j`.
proof fn lemma_batches_join<T>(items: Seq<T>, limit: nat, j: int)
    requires
        limit > 0,
        0 <= j <= batch_count(items.len(), limit),
    ensures
        batches(items, limit).take(j).flatten() == items.take(
            least(j * limit, items.len() as int),
        ),
    decreases j,
{
    let all = batches(items, limit);
    if j == 0 {
        assert(0 * limit == 0) by (nonlinear_arith);
        assert(all.take(0) =~= Seq::<Seq<T>>::empty());
        assert(all.take(0).flatten() =~= items.take(0));
    } else {
        lemma_batches_join(items, limit, j - 1);
        lemma_batch_bounds(items.len(), limit, j - 1);
        assert(all.take(j) =~= all.take(j - 1).push(all[j - 1]));
        all.take(j - 1).lemma_flatten_push(all[j - 1]);
        assert(j - 1 + 1 == j);
        assert(items.take(least((j - 1) * limit, items.len() as int)) + batch(items, limit, j - 1)
            =~= items.take(least(j * limit, items.len() as int)));
    }
}

/// What batching does to a list of `items`, for any positive `limit`:
/// the batches, joined in order, are the list itself; every batch but the
/// last holds exactly `limit` items, and the last holds the rest, fewer than
/// `limit`; there is one batch more than `limit` goes into the length. So
/// where the length is no multiple of `limit` there are as many batches as
/// the length divided by `limit`, rounded up; where it is one, the same
/// number of full batches is followed by an empty one.
pub proof fn lemma_batches_partition<T>(items: Seq<T>, limit: nat)
    requires
        limit > 0,
    ensures
        batches(items, limit).flatten() == items,
        batches(items, limit).len() == items.len() / limit + 1,
        forall|k: int|
            0 <= k < batches(items, limit).len() ==> (#[trigger] batches(items, limit)[k]).len()
                <= limit,
        forall|k: int|
            0 <= k < batches(items, limit).len() - 1 ==> (#[trigger] batches(
                items,
                limit,
            )[k]).len() == limit,
        batches(items, limit).last().len() == items.len() % limit,
        items.len() % limit != 0 ==> batches(items, limit).len() == ceil_div(items.len(), limit),
        items.len() % limit == 0 ==> batches(items, limit).len() == ceil_div(items.len(), limit)
            + 1,
{
    let all = batches(items, limit);
    let n = items.len() as int;
    let b = limit as int;
    let count = batch_count(items.len(), limit) as int;
    lemma_batches_join(items, limit, count);
    lemma_batch_bounds(items.len(), limit, count - 1);
    lemma_fundamental_div_mod(n, b);
    assert(all.take(count) =~= all);
    assert(b * (n / b) == (n / b) * b) by (nonlinear_arith);
    assert(count * limit == (count - 1) * limit + limit) by (nonlinear_arith);
    assert(items.take(n) =~= items);
    assert forall|k: int| 0 <= k < all.len() implies (#[trigger] all[k]).len() <= limit && (k
        < all.len() - 1 ==> all[k].len() == limit) by {
        lemma_batch_bounds(items.len(), limit, k);
    }
    if n % b != 0 {
        assert((n + b - 1) / b == n / b + 1) by (nonlinear_arith)
            requires
                b > 0,
                n >= 0,
                n % b != 0,
                n == b * (n / b) + n % b,
                0 <= n % b < b,
        ;
    } else {
        assert((n + b - 1) / b == n / b) by (nonlinear_arith)
            requires
                b > 0,
                n >= 0,
                n % b == 0,
                n == b * (n / b) + n % b,
        ;
    }
}

} // verus!
