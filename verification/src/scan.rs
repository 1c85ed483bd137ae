//! Exclusive prefix scan over per-tile overlap counts.
//!
//! The tile back-end turns `tile_counts` into `tile_offsets`: entry `t` is
//! the number of overlaps in tiles before `t`, and the final extra entry is
//! the total overlap count.

use vstd::prelude::*;

verus! {

/// Sum of a sequence of counts.
pub open spec fn seq_sum(s: Seq<u32>) -> int
    decreases s.len(),
{
    if s.len() == 0 {
        0
    } else {
        seq_sum(s.drop_last()) + s.last()
    }
}

/// Extending a prefix by one element adds that element to its sum.
pub proof fn lemma_seq_sum_take_step(s: Seq<u32>, i: int)
    requires
        0 <= i < s.len(),
    ensures
        seq_sum(s.take(i + 1)) == seq_sum(s.take(i)) + s[i],
{
    assert(s.take(i + 1).drop_last() =~= s.take(i));
    assert(s.take(i + 1).last() == s[i]);
}

/// Prefix sums of non-negative counts grow with the prefix.
pub proof fn lemma_seq_sum_take_monotone(s: Seq<u32>, i: int, j: int)
    requires
        0 <= i <= j <= s.len(),
    ensures
        seq_sum(s.take(i)) <= seq_sum(s.take(j)),
    decreases j - i,
{
    if i < j {
        lemma_seq_sum_take_step(s, j - 1);
        lemma_seq_sum_take_monotone(s, i, j - 1);
    }
}

/// Sums the per-tile counts without overflowing.
pub fn sum_counts(counts: &Vec<u32>) -> (r: u64)
    requires
        counts.len() <= 0x10000,
    ensures
        r == seq_sum(counts@),
{
    let n = counts.len();
    let mut total: u64 = 0;
    let mut i: usize = 0;
    proof {
        assert(counts@.take(0) =~= Seq::<u32>::empty());
    }
    while i < n
        invariant
            i <= n,
            n == counts.len(),
            n <= 0x10000,
            total == seq_sum(counts@.take(i as int)),
            total <= i * 0x1_0000_0000,
        decreases n - i,
    {
        proof {
            lemma_seq_sum_take_step(counts@, i as int);
            assert((i + 1) * 0x1_0000_0000 == i * 0x1_0000_0000 + 0x1_0000_0000) by (nonlinear_arith);
        }
        total = total + counts[i] as u64;
        i = i + 1;
    }
    proof {
        assert(counts@.take(n as int) =~= counts@);
    }
    total
}

/// Exclusive prefix scan: `r[t]` is the sum of `counts[0..t]`, and the final
/// entry `r[counts.len()]` is the total.
pub fn prefix_scan_exclusive(counts: &Vec<u32>) -> (r: Vec<u32>)
    requires
        seq_sum(counts@) <= u32::MAX,
    ensures
        r.len() == counts.len() + 1,
        forall|i: int| 0 <= i <= counts.len() ==> r@[i] == seq_sum(counts@.take(i)),
{
    let n = counts.len();
    let mut r: Vec<u32> = Vec::new();
    let mut running: u32 = 0;
    let mut i: usize = 0;
    proof {
        assert(counts@.take(0) =~= Seq::<u32>::empty());
    }
    r.push(0);
    while i < n
        invariant
            i < n ==> i + 1 == r.len(),
            i == n ==> r.len() == n + 1,
            i <= n,
            n == counts.len(),
            running == seq_sum(counts@.take(i as int)),
            seq_sum(counts@) <= u32::MAX,
            forall|j: int| 0 <= j <= i ==> r@[j] == seq_sum(counts@.take(j)),
        decreases n - i,
    {
        let c = counts[i];
        proof {
            lemma_seq_sum_take_step(counts@, i as int);
            assert(counts@.take(n as int) =~= counts@);
            lemma_seq_sum_take_monotone(counts@, i as int + 1, n as int);
        }
        running = running + c;
        r.push(running);
        i = i + 1;
    }
    r
}

} // verus!
