//! Sums of many points. The first point starts the running sum and each further one is
//! added to it, so that `n` points cost `n - 1` additions.
use vstd::prelude::*;

use crate::errors::AltBn128Error;
use crate::group_operations::{G1Point, G2Point};
#[allow(unused_imports)]
use crate::bytes::zeros;
#[allow(unused_imports)]
use crate::group_operations::{g1_added, g1_outcome, g2_added, g2_outcome};

verus! {

/// The sum of G1 points from the left; all zeros, the point at infinity, for none.
#[verifier::opaque]
pub open spec fn g1_aggregate(points: Seq<G1Point>) -> Result<Seq<u8>, AltBn128Error>
    decreases points.len(),
{
    if points.len() == 0 {
        Ok(zeros(64))
    } else if points.len() == 1 {
        Ok(points[0]@)
    } else {
        match g1_aggregate(points.drop_last()) {
            Ok(acc) => g1_added(acc, points.last()@),
            Err(e) => Err(e),
        }
    }
}

/// The sum of G2 points from the left; all zeros, the point at infinity, for none.
#[verifier::opaque]
pub open spec fn g2_aggregate(points: Seq<G2Point>) -> Result<Seq<u8>, AltBn128Error>
    decreases points.len(),
{
    if points.len() == 0 {
        Ok(zeros(128))
    } else if points.len() == 1 {
        Ok(points[0]@)
    } else {
        match g2_aggregate(points.drop_last()) {
            Ok(acc) => g2_added(acc, points.last()@),
            Err(e) => Err(e),
        }
    }
}

/// The sum of no point, of one point, and of one point more.
pub proof fn lemma_g1_aggregate_step(points: Seq<G1Point>, k: int)
    requires
        0 <= k <= points.len(),
    ensures
        g1_aggregate(points.take(k)) == if k == 0 {
            Ok::<Seq<u8>, AltBn128Error>(zeros(64))
        } else if k == 1 {
            Ok::<Seq<u8>, AltBn128Error>(points[0]@)
        } else {
            match g1_aggregate(points.take(k - 1)) {
                Ok(acc) => g1_added(acc, points[k - 1]@),
                Err(e) => Err(e),
            }
        },
{
    reveal(g1_aggregate);
    if k > 1 {
        assert(points.take(k).drop_last() =~= points.take(k - 1));
    }
}

/// A sum that failed stays failed, however many points follow.
proof fn lemma_g1_aggregate_err(points: Seq<G1Point>, k: int, n: int)
    requires
        1 <= k <= n <= points.len(),
        g1_aggregate(points.take(k)) is Err,
    ensures
        g1_aggregate(points.take(n)) == g1_aggregate(points.take(k)),
    decreases n - k,
{
    if k < n {
        lemma_g1_aggregate_err(points, k, n - 1);
        lemma_g1_aggregate_step(points, n);
    }
}

/// Sum a slice of G1 points, leaving the slice as it is.
pub fn aggregate_g1(points: &[G1Point]) -> (r: Result<G1Point, AltBn128Error>)
    ensures
        g1_outcome(r) == g1_aggregate(points@),
{
    proof {
        assert(points@.take(points@.len() as int) =~= points@);
        lemma_g1_aggregate_step(points@, 0);
    }
    if points.len() == 0 {
        let zero = G1Point([0u8; 64]);
        assert(zero@ =~= zeros(64));
        return Ok(zero);
    }
    let mut acc = points[0];
    let mut i: usize = 1;
    proof {
        lemma_g1_aggregate_step(points@, 1);
    }
    while i < points.len()
        invariant
            1 <= i <= points@.len(),
            g1_aggregate(points@.take(i as int)) == Ok::<Seq<u8>, AltBn128Error>(acc@),
            points@.take(points@.len() as int) == points@,
        decreases points@.len() - i,
    {
        proof {
            lemma_g1_aggregate_step(points@, i + 1);
        }
        match acc + points[i] {
            Ok(sum) => acc = sum,
            Err(e) => {
                proof {
                    lemma_g1_aggregate_err(points@, i + 1, points@.len() as int);
                }
                return Err(e);
            },
        }
        i += 1;
    }
    Ok(acc)
}

/// What the slots of a slice hold once the running sum has gone through it: each the sum
/// of the points up to it, or, past a sum that failed, what it held before.
pub open spec fn g1_slid(before: Seq<G1Point>, k: int) -> Seq<u8> {
    match g1_aggregate(before.take(k + 1)) {
        Ok(sum) => sum,
        Err(_) => before[k]@,
    }
}

/// Sum a slice of G1 points, sliding the running sum through it: each slot that the sum
/// has reached holds the sum of the points up to it. On an error the remaining slots are
/// as they were.
pub fn aggregate_g1_in_place(points: &mut [G1Point]) -> (r: Result<G1Point, AltBn128Error>)
    ensures
        g1_outcome(r) == g1_aggregate(old(points)@),
        final(points)@.len() == old(points)@.len(),
        forall|k: int|
            0 <= k < old(points)@.len() ==> (#[trigger] final(points)@[k])@ == g1_slid(
                old(points)@,
                k,
            ),
{
    let ghost before = points@;
    proof {
        assert(before.take(before.len() as int) =~= before);
        lemma_g1_aggregate_step(before, 0);
    }
    if points.len() == 0 {
        let zero = G1Point([0u8; 64]);
        assert(zero@ =~= zeros(64));
        return Ok(zero);
    }
    let mut acc = points[0];
    let mut i: usize = 1;
    proof {
        lemma_g1_aggregate_step(before, 1);
    }
    while i < points.len()
        invariant
            1 <= i <= points@.len(),
            before == old(points)@,
            points@.len() == before.len(),
            before.take(before.len() as int) == before,
            g1_aggregate(before.take(i as int)) == Ok::<Seq<u8>, AltBn128Error>(acc@),
            forall|k: int| 0 <= k < i ==> (#[trigger] points@[k])@ == g1_slid(before, k),
            forall|k: int| i <= k < points@.len() ==> #[trigger] points@[k] == before[k],
            acc@ == points@[i - 1]@,
        decreases points@.len() - i,
    {
        proof {
            lemma_g1_aggregate_step(before, i + 1);
        }
        match acc + points[i] {
            Ok(sum) => {
                acc = sum;
                points[i] = sum;
            },
            Err(e) => {
                proof {
                    assert forall|k: int| 0 <= k < before.len() implies (#[trigger] points@[k])@
                        == g1_slid(before, k) by {
                        if k >= i {
                            lemma_g1_aggregate_err(before, i + 1, k + 1);
                        }
                    }
                    lemma_g1_aggregate_err(before, i + 1, before.len() as int);
                }
                return Err(e);
            },
        }
        i += 1;
    }
    Ok(acc)
}

/// The sum of no point, of one point, and of one point more.
pub proof fn lemma_g2_aggregate_step(points: Seq<G2Point>, k: int)
    requires
        0 <= k <= points.len(),
    ensures
        g2_aggregate(points.take(k)) == if k == 0 {
            Ok::<Seq<u8>, AltBn128Error>(zeros(128))
        } else if k == 1 {
            Ok::<Seq<u8>, AltBn128Error>(points[0]@)
        } else {
            match g2_aggregate(points.take(k - 1)) {
                Ok(acc) => g2_added(acc, points[k - 1]@),
                Err(e) => Err(e),
            }
        },
{
    reveal(g2_aggregate);
    if k > 1 {
        assert(points.take(k).drop_last() =~= points.take(k - 1));
    }
}

/// A sum that failed stays failed, however many points follow.
proof fn lemma_g2_aggregate_err(points: Seq<G2Point>, k: int, n: int)
    requires
        1 <= k <= n <= points.len(),
        g2_aggregate(points.take(k)) is Err,
    ensures
        g2_aggregate(points.take(n)) == g2_aggregate(points.take(k)),
    decreases n - k,
{
    if k < n {
        lemma_g2_aggregate_err(points, k, n - 1);
        lemma_g2_aggregate_step(points, n);
    }
}

/// Sum a slice of G2 points, leaving the slice as it is.
pub fn aggregate_g2(points: &[G2Point]) -> (r: Result<G2Point, AltBn128Error>)
    ensures
        g2_outcome(r) == g2_aggregate(points@),
{
    proof {
        assert(points@.take(points@.len() as int) =~= points@);
        lemma_g2_aggregate_step(points@, 0);
    }
    if points.len() == 0 {
        let zero = G2Point([0u8; 128]);
        assert(zero@ =~= zeros(128));
        return Ok(zero);
    }
    let mut acc = points[0];
    let mut i: usize = 1;
    proof {
        lemma_g2_aggregate_step(points@, 1);
    }
    while i < points.len()
        invariant
            1 <= i <= points@.len(),
            g2_aggregate(points@.take(i as int)) == Ok::<Seq<u8>, AltBn128Error>(acc@),
            points@.take(points@.len() as int) == points@,
        decreases points@.len() - i,
    {
        proof {
            lemma_g2_aggregate_step(points@, i + 1);
        }
        match acc + points[i] {
            Ok(sum) => acc = sum,
            Err(e) => {
                proof {
                    lemma_g2_aggregate_err(points@, i + 1, points@.len() as int);
                }
                return Err(e);
            },
        }
        i += 1;
    }
    Ok(acc)
}

/// What the slots of a slice hold once the running sum has gone through it: each the sum
/// of the points up to it, or, past a sum that failed, what it held before.
pub open spec fn g2_slid(before: Seq<G2Point>, k: int) -> Seq<u8> {
    match g2_aggregate(before.take(k + 1)) {
        Ok(sum) => sum,
        Err(_) => before[k]@,
    }
}

/// Sum a slice of G2 points, sliding the running sum through it: each slot that the sum
/// has reached holds the sum of the points up to it. On an error the remaining slots are
/// as they were.
pub fn aggregate_g2_in_place(points: &mut [G2Point]) -> (r: Result<G2Point, AltBn128Error>)
    ensures
        g2_outcome(r) == g2_aggregate(old(points)@),
        final(points)@.len() == old(points)@.len(),
        forall|k: int|
            0 <= k < old(points)@.len() ==> (#[trigger] final(points)@[k])@ == g2_slid(
                old(points)@,
                k,
            ),
{
    let ghost before = points@;
    proof {
        assert(before.take(before.len() as int) =~= before);
        lemma_g2_aggregate_step(before, 0);
    }
    if points.len() == 0 {
        let zero = G2Point([0u8; 128]);
        assert(zero@ =~= zeros(128));
        return Ok(zero);
    }
    let mut acc = points[0];
    let mut i: usize = 1;
    proof {
        lemma_g2_aggregate_step(before, 1);
    }
    while i < points.len()
        invariant
            1 <= i <= points@.len(),
            before == old(points)@,
            points@.len() == before.len(),
            before.take(before.len() as int) == before,
            g2_aggregate(before.take(i as int)) == Ok::<Seq<u8>, AltBn128Error>(acc@),
            forall|k: int| 0 <= k < i ==> (#[trigger] points@[k])@ == g2_slid(before, k),
            forall|k: int| i <= k < points@.len() ==> #[trigger] points@[k] == before[k],
            acc@ == points@[i - 1]@,
        decreases points@.len() - i,
    {
        proof {
            lemma_g2_aggregate_step(before, i + 1);
        }
        match acc + points[i] {
            Ok(sum) => {
                acc = sum;
                points[i] = sum;
            },
            Err(e) => {
                proof {
                    assert forall|k: int| 0 <= k < before.len() implies (#[trigger] points@[k])@
                        == g2_slid(before, k) by {
                        if k >= i {
                            lemma_g2_aggregate_err(before, i + 1, k + 1);
                        }
                    }
                    lemma_g2_aggregate_err(before, i + 1, before.len() as int);
                }
                return Err(e);
            },
        }
        i += 1;
    }
    Ok(acc)
}

} // verus!
