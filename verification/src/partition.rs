//! Cutting the units `0 .. total_count` into contiguous batches.

use vstd::prelude::*;

verus! {

/// The units `0, 1, .., n - 1`, in order.
pub open spec fn unit_range(n: nat) -> Seq<u32> {
    Seq::new(n, |i: int| i as u32)
}

/// The number of batches of at most `batch_size` units that hold
/// `total_count` units: the quotient, rounded up.
pub open spec fn batch_count(total_count: nat, batch_size: nat) -> nat
    recommends
        batch_size > 0,
{
    if total_count % batch_size == 0 {
        total_count / batch_size
    } else {
        total_count / batch_size + 1
    }
}

/// The number of units in batch `k`: `batch_size`, but for a last batch that
/// takes what is left.
pub open spec fn batch_len(total_count: nat, batch_size: nat, k: nat) -> nat {
    if (k + 1) * batch_size <= total_count {
        batch_size
    } else if k * batch_size <= total_count {
        (total_count - k * batch_size) as nat
    } else {
        0
    }
}

/// Batch `k`: the units from `k * batch_size` on, in order.
pub open spec fn batch(total_count: nat, batch_size: nat, k: nat) -> Seq<u32> {
    Seq::new(batch_len(total_count, batch_size, k), |j: int| (k * batch_size + j) as u32)
}

/// All batches, in order.
pub open spec fn batches(total_count: nat, batch_size: nat) -> Seq<Seq<u32>> {
    Seq::new(
        batch_count(total_count, batch_size),
        |k: int| batch(total_count, batch_size, k as nat),
    )
}

/// `n` is the batch count exactly when `n` batches are enough and `n - 1`
/// are not.
pub proof fn lemma_batch_count_bounds(total_count: nat, batch_size: nat, n: nat)
    requires
        batch_size > 0,
    ensures
        n == batch_count(total_count, batch_size) <==> (n * batch_size >= total_count && (n > 0
            ==> (n - 1) * batch_size < total_count)),
{
    let q = total_count / batch_size;
    let r = total_count % batch_size;
    assert(total_count == q * batch_size + r && 0 <= r < batch_size) by {
        vstd::arithmetic::div_mod::lemma_fundamental_div_mod(total_count as int, batch_size as int);
        vstd::arithmetic::div_mod::lemma_mod_bound(total_count as int, batch_size as int);
        vstd::arithmetic::mul::lemma_mul_is_commutative(q as int, batch_size as int);
    }
    let c = batch_count(total_count, batch_size);
    assert(c * batch_size >= total_count && (c > 0 ==> (c - 1) * batch_size < total_count))
        by (nonlinear_arith)
        requires
            total_count == q * batch_size + r,
            0 <= r < batch_size,
            c == if r == 0 { q } else { q + 1 },
    ;
    if n * batch_size >= total_count && (n > 0 ==> (n - 1) * batch_size < total_count) {
        assert(n == c) by (nonlinear_arith)
            requires
                batch_size > 0,
                n * batch_size >= total_count,
                n > 0 ==> (n - 1) * batch_size < total_count,
                c * batch_size >= total_count,
                c > 0 ==> (c - 1) * batch_size < total_count,
        ;
    }
}

/// There are no more batches than units.
pub proof fn lemma_batch_count_le_total(total_count: nat, batch_size: nat)
    requires
        batch_size > 0,
    ensures
        batch_count(total_count, batch_size) <= total_count,
{
    let n = batch_count(total_count, batch_size);
    lemma_batch_count_bounds(total_count, batch_size, n);
    assert(n <= total_count) by (nonlinear_arith)
        requires
            batch_size > 0,
            n > 0 ==> (n - 1) * batch_size < total_count,
            n >= 0,
            total_count >= 0,
    ;
}

/// Every batch but the last is full, and the last is not empty: batch `k`
/// starts below `total_count`, and only the last one can end there.
pub proof fn lemma_batch_sizes(total_count: nat, batch_size: nat, k: nat)
    requires
        batch_size > 0,
        k < batch_count(total_count, batch_size),
    ensures
        k * batch_size < total_count,
        0 < batch_len(total_count, batch_size, k) <= batch_size,
        k + 1 < batch_count(total_count, batch_size) ==> batch_len(total_count, batch_size, k)
            == batch_size,
        k + 1 == batch_count(total_count, batch_size) ==> k * batch_size + batch_len(
            total_count,
            batch_size,
            k,
        ) == total_count,
{
    let n = batch_count(total_count, batch_size);
    lemma_batch_count_bounds(total_count, batch_size, n);
    assert(k * batch_size < total_count) by (nonlinear_arith)
        requires
            k < n,
            batch_size > 0,
            (n - 1) * batch_size < total_count,
    ;
    assert(k + 1 < n ==> (k + 1) * batch_size <= total_count) by (nonlinear_arith)
        requires
            batch_size > 0,
            (n - 1) * batch_size < total_count,
    ;
    assert(k + 1 == n ==> (k + 1) * batch_size >= total_count);
    assert((k + 1) * batch_size == k * batch_size + batch_size) by (nonlinear_arith);
}

/// The first `k` batches, put end to end, are the units below
/// `k * batch_size`, or all of them.
proof fn lemma_prefix_covers(total_count: nat, batch_size: nat, k: nat)
    requires
        batch_size > 0,
        k <= batch_count(total_count, batch_size),
    ensures
        batches(total_count, batch_size).take(k as int).flatten() =~= unit_range(
            if k * batch_size <= total_count {
                k * batch_size
            } else {
                total_count
            },
        ),
    decreases k,
{
    let all = batches(total_count, batch_size);
    if k == 0 {
        assert(all.take(0) =~= Seq::<Seq<u32>>::empty());
        assert(0 * batch_size == 0);
    } else {
        let i = (k - 1) as nat;
        lemma_prefix_covers(total_count, batch_size, i);
        lemma_batch_sizes(total_count, batch_size, i);
        assert(all.take(k as int) =~= all.take(i as int).push(all[i as int]));
        all.take(i as int).lemma_flatten_push(all[i as int]);
        assert((i + 1) * batch_size == i * batch_size + batch_size) by (nonlinear_arith);
        assert(all[i as int] == batch(total_count, batch_size, i));
    }
}

/// Put end to end, the batches are the units `0 .. total_count`: each unit
/// once, none left out, in order.
pub proof fn lemma_batches_cover_range(total_count: nat, batch_size: nat)
    requires
        batch_size > 0,
    ensures
        batches(total_count, batch_size).flatten() == unit_range(total_count),
{
    let all = batches(total_count, batch_size);
    let n = batch_count(total_count, batch_size);
    lemma_prefix_covers(total_count, batch_size, n);
    lemma_batch_count_bounds(total_count, batch_size, n);
    assert(all.take(n as int) =~= all);
    assert(n * batch_size <= total_count ==> n * batch_size == total_count);
}

/// A unit stands in one batch only, at one place: unit `u` is element
/// `u % batch_size` of batch `u / batch_size`.
pub proof fn lemma_unit_place(total_count: nat, batch_size: nat, k: int, j: int)
    requires
        batch_size > 0,
        total_count <= u32::MAX + 1,
        0 <= k < batches(total_count, batch_size).len(),
        0 <= j < batches(total_count, batch_size)[k].len(),
    ensures
        batches(total_count, batch_size)[k][j] == k * batch_size + j,
        k * batch_size + j < total_count,
        k == (batches(total_count, batch_size)[k][j] as int) / (batch_size as int),
        j == (batches(total_count, batch_size)[k][j] as int) % (batch_size as int),
{
    lemma_batch_sizes(total_count, batch_size, k as nat);
    let u = k * batch_size + j;
    assert(batches(total_count, batch_size)[k] == batch(total_count, batch_size, k as nat));
    assert((k + 1) * batch_size == k * batch_size + batch_size) by (nonlinear_arith);
    assert(u < total_count);
    assert(0 <= k * batch_size) by (nonlinear_arith)
        requires
            0 <= k,
            0 < batch_size,
    ;
    assert(u == batch_size * k + j) by (nonlinear_arith)
        requires
            u == k * batch_size + j,
    ;
    vstd::arithmetic::div_mod::lemma_fundamental_div_mod_converse(u, batch_size as int, k, j);
}

/// The number of batches that `partition` makes.
pub fn count_batches(total_count: u32, batch_size: usize) -> (n: usize)
    requires
        batch_size > 0,
    ensures
        n == batch_count(total_count as nat, batch_size as nat),
        n <= total_count,
{
    let total: usize = total_count as usize;
    let full: usize = total / batch_size;
    proof {
        lemma_batch_count_le_total(total_count as nat, batch_size as nat);
    }
    if total % batch_size == 0 {
        full
    } else {
        full + 1
    }
}

/// Cuts the units `0 .. total_count` into batches of `batch_size` units, the
/// last one shorter where `total_count` is no multiple of `batch_size`.
pub fn partition(total_count: u32, batch_size: usize) -> (out: Vec<Vec<u32>>)
    requires
        batch_size > 0,
    ensures
        out.len() == batch_count(total_count as nat, batch_size as nat),
        forall|k: int|
            0 <= k < out.len() ==> (#[trigger] out[k])@ == batch(
                total_count as nat,
                batch_size as nat,
                k as nat,
            ),
        out.deep_view() == batches(total_count as nat, batch_size as nat),
        out.deep_view().flatten() == unit_range(total_count as nat),
        forall|k: int| 0 <= k < out.len() - 1 ==> (#[trigger] out[k]).len() == batch_size,
        out.len() > 0 ==> 0 < out[out.len() - 1].len() <= batch_size,
{
    let n: usize = count_batches(total_count, batch_size);
    let mut out: Vec<Vec<u32>> = Vec::new();
    let mut start: u32 = 0;
    let mut k: usize = 0;
    while k < n
        invariant
            batch_size > 0,
            n == batch_count(total_count as nat, batch_size as nat),
            k <= n,
            out.len() == k,
            start as int == (if k * batch_size <= total_count {
                k * batch_size
            } else {
                total_count as int
            }),
            forall|i: int|
                0 <= i < k ==> (#[trigger] out[i])@ == batch(
                    total_count as nat,
                    batch_size as nat,
                    i as nat,
                ),
        decreases n - k,
    {
        proof {
            lemma_batch_sizes(total_count as nat, batch_size as nat, k as nat);
            assert((k + 1) * batch_size == k * batch_size + batch_size) by (nonlinear_arith);
        }
        let left: u32 = total_count - start;
        let len: u32 = if left as usize <= batch_size {
            left
        } else {
            batch_size as u32
        };
        let mut units: Vec<u32> = Vec::new();
        let mut j: u32 = 0;
        while j < len
            invariant
                j <= len,
                start + len <= total_count,
                units.len() == j,
                forall|i: int| 0 <= i < j ==> units[i] == start + i,
            decreases len - j,
        {
            units.push(start + j);
            j = j + 1;
        }
        assert(units@ =~= batch(total_count as nat, batch_size as nat, k as nat));
        out.push(units);
        start = start + len;
        k = k + 1;
    }
    proof {
        lemma_batches_cover_range(total_count as nat, batch_size as nat);
        assert(out.deep_view() =~~= batches(total_count as nat, batch_size as nat));
        assert forall|i: int| 0 <= i < out.len() - 1 implies (#[trigger] out[i]).len()
            == batch_size by {
            lemma_batch_sizes(total_count as nat, batch_size as nat, i as nat);
        }
        if out.len() > 0 {
            lemma_batch_sizes(total_count as nat, batch_size as nat, (out.len() - 1) as nat);
        }
    }
    out
}

} // verus!
