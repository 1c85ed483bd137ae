//! Four-pass least-significant-digit radix sort over packed sort keys.
//!
//! Each pass is a stable 8-bit counting pass: its output is exactly the
//! concatenation, digit by digit, of the order-preserving filters of its
//! input.  That functional description pins the output down completely, so
//! the whole sort is deterministic by contract; sortedness and multiset
//! preservation are proved as lemmas over the same description.

use vstd::prelude::*;
use vstd::multiset::Multiset;

verus! {

/// One sort entry: a packed key and the projected-splat index it stands for.
#[derive(Clone, Copy, PartialEq, Eq, Structural, Debug)]
pub struct KeyValue {
    pub key: u32,
    pub value: u32,
}

/// The 8-bit digit of `k` at bit position `sh`.
pub open spec fn digit(k: u32, sh: u32) -> u32 {
    (k >> sh) & 0xff
}

/// The low `sh` bits of `k` (the part already ordered by earlier passes).
pub open spec fn low_bits(k: u32, sh: u32) -> u32 {
    if sh >= 32 {
        k
    } else {
        k & (((1u32 << sh) - 1) as u32)
    }
}

/// The bit positions the four passes use.
pub open spec fn valid_shift(sh: u32) -> bool {
    sh == 0 || sh == 8 || sh == 16 || sh == 24
}

/// Entries ordered by their low `sh` key bits.
pub open spec fn sorted_upto(s: Seq<KeyValue>, sh: u32) -> bool {
    forall|i: int, j: int|
        0 <= i <= j < s.len() ==> low_bits(#[trigger] s[i].key, sh) <= low_bits(
            #[trigger] s[j].key,
            sh,
        )
}

/// Entries ordered by their full keys.
pub open spec fn sorted_by_key(s: Seq<KeyValue>) -> bool {
    forall|i: int, j: int| 0 <= i <= j < s.len() ==> (#[trigger] s[i]).key <= (#[trigger] s[j]).key
}

/// The input entries whose digit at `sh` equals `d`, in input order.
pub open spec fn filter_digit(s: Seq<KeyValue>, sh: u32, d: u32) -> Seq<KeyValue> {
    s.filter(|kv: KeyValue| digit(kv.key, sh) == d)
}

/// Concatenation of the digit buckets `0 ..= d`.
pub open spec fn buckets_concat(s: Seq<KeyValue>, sh: u32, d: int) -> Seq<KeyValue>
    decreases d + 1,
{
    if d < 0 {
        Seq::empty()
    } else {
        buckets_concat(s, sh, d - 1) + filter_digit(s, sh, d as u32)
    }
}

/// What one stable counting pass at bit position `sh` produces.
pub open spec fn pass_spec(s: Seq<KeyValue>, sh: u32) -> Seq<KeyValue> {
    buckets_concat(s, sh, 255)
}

/// What the whole four-pass sort produces.
pub open spec fn radix_sort_spec(s: Seq<KeyValue>) -> Seq<KeyValue> {
    pass_spec(pass_spec(pass_spec(pass_spec(s, 0), 8), 16), 24)
}

/// Filtering one more element appends it to the filter exactly when the
/// predicate holds of it.
proof fn lemma_filter_take_step(s: Seq<KeyValue>, pred: spec_fn(KeyValue) -> bool, i: int)
    requires
        0 <= i < s.len(),
    ensures
        s.take(i + 1).filter(pred) == if pred(s[i]) {
            s.take(i).filter(pred).push(s[i])
        } else {
            s.take(i).filter(pred)
        },
{
    reveal(Seq::filter);
    let t = s.take(i + 1);
    assert(t.drop_last() =~= s.take(i));
    assert(t.last() == s[i]);
    if t.len() == 0 {
    }
}

/// Each element of a filter occurs in the filtered sequence.
proof fn lemma_filter_subset(s: Seq<KeyValue>, pred: spec_fn(KeyValue) -> bool, i: int)
    requires
        0 <= i < s.filter(pred).len(),
    ensures
        s.contains(s.filter(pred)[i]),
    decreases s.len(),
{
    reveal(Seq::filter);
    if s.len() > 0 {
        let t = s.drop_last();
        if pred(s.last()) && i == s.filter(pred).len() - 1 {
            assert(s[s.len() - 1] == s.filter(pred)[i]);
        } else {
            lemma_filter_subset(t, pred, i);
            let j = choose|j: int| 0 <= j < t.len() && t[j] == t.filter(pred)[i];
            assert(s[j] == t[j]);
        }
    }
}

/// Filtering keeps the order established by earlier passes.
proof fn lemma_filter_sorted(s: Seq<KeyValue>, pred: spec_fn(KeyValue) -> bool, sh: u32)
    requires
        sorted_upto(s, sh),
    ensures
        sorted_upto(s.filter(pred), sh),
    decreases s.len(),
{
    reveal(Seq::filter);
    if s.len() > 0 {
        let t = s.drop_last();
        assert(forall|i: int| 0 <= i < t.len() ==> t[i] == s[i]);
        lemma_filter_sorted(t, pred, sh);
        if pred(s.last()) {
            let f = s.filter(pred);
            assert forall|i: int, j: int|
                0 <= i <= j < f.len() implies low_bits(#[trigger] f[i].key, sh) <= low_bits(
                #[trigger] f[j].key,
                sh,
            ) by {
                if j < f.len() - 1 {
                    assert(f[i] == t.filter(pred)[i]);
                    assert(f[j] == t.filter(pred)[j]);
                } else {
                    assert(f[j] == s.last());
                    if i < f.len() - 1 {
                        assert(f[i] == t.filter(pred)[i]);
                        lemma_filter_subset(t, pred, i);
                        let k = choose|k: int| 0 <= k < t.len() && t[k] == t.filter(pred)[i];
                        assert(low_bits(s[k].key, sh) <= low_bits(s[s.len() - 1].key, sh));
                    }
                }
            }
        }
    }
}

/// How the low bits seen by the next pass decompose: current digit above,
/// already-sorted low bits below.
proof fn lemma_digit_order(x: u32, y: u32, sh: u32)
    requires
        valid_shift(sh),
    ensures
        digit(x, sh) < digit(y, sh) ==> low_bits(x, (sh + 8) as u32) < low_bits(y, (sh + 8) as u32),
        digit(x, sh) == digit(y, sh) && low_bits(x, sh) <= low_bits(y, sh) ==> low_bits(
            x,
            (sh + 8) as u32,
        ) <= low_bits(y, (sh + 8) as u32),
{
    assert((sh == 0 || sh == 8 || sh == 16 || sh == 24) ==> {
        &&& (((x >> sh) & 0xff) < ((y >> sh) & 0xff) ==> low_bits(x, (sh + 8) as u32) < low_bits(
            y,
            (sh + 8) as u32,
        ))
        &&& (((x >> sh) & 0xff) == ((y >> sh) & 0xff) && low_bits(x, sh) <= low_bits(y, sh)
            ==> low_bits(x, (sh + 8) as u32) <= low_bits(y, (sh + 8) as u32))
    }) by (bit_vector);
}

/// The buckets up to `d` hold only digits up to `d`, ordered for the next pass.
proof fn lemma_buckets_sorted(s: Seq<KeyValue>, sh: u32, d: int)
    requires
        sorted_upto(s, sh),
        valid_shift(sh),
        -1 <= d < 256,
    ensures
        sorted_upto(buckets_concat(s, sh, d), (sh + 8) as u32),
        forall|i: int|
            0 <= i < buckets_concat(s, sh, d).len() ==> digit(
                #[trigger] buckets_concat(s, sh, d)[i].key,
                sh,
            ) <= d,
    decreases d + 1,
{
    if d >= 0 {
        lemma_buckets_sorted(s, sh, d - 1);
        let prev = buckets_concat(s, sh, d - 1);
        let f = filter_digit(s, sh, d as u32);
        let cur = buckets_concat(s, sh, d);
        lemma_filter_sorted(s, |kv: KeyValue| digit(kv.key, sh) == d, sh);
        assert(forall|i: int|
            0 <= i < f.len() ==> digit(#[trigger] f[i].key, sh) == d) by {
            assert forall|i: int| 0 <= i < f.len() implies digit(#[trigger] f[i].key, sh) == d by {
                s.lemma_filter_pred(|kv: KeyValue| digit(kv.key, sh) == d, i);
            }
        }
        assert forall|i: int, j: int|
            0 <= i <= j < cur.len() implies low_bits(#[trigger] cur[i].key, (sh + 8) as u32)
            <= low_bits(#[trigger] cur[j].key, (sh + 8) as u32) by {
            if j < prev.len() {
                assert(cur[i] == prev[i] && cur[j] == prev[j]);
            } else if i >= prev.len() {
                assert(cur[i] == f[i - prev.len()] && cur[j] == f[j - prev.len()]);
                lemma_digit_order(cur[i].key, cur[j].key, sh);
            } else {
                assert(cur[i] == prev[i] && cur[j] == f[j - prev.len()]);
                lemma_digit_order(cur[i].key, cur[j].key, sh);
            }
        }
        assert(forall|i: int|
            0 <= i < cur.len() ==> digit(#[trigger] cur[i].key, sh) <= d);
    }
}

/// A pass leaves the entries ordered by the low bits it and the earlier
/// passes have handled.
pub proof fn lemma_pass_sorted(s: Seq<KeyValue>, sh: u32)
    requires
        sorted_upto(s, sh),
        valid_shift(sh),
    ensures
        sorted_upto(pass_spec(s, sh), (sh + 8) as u32),
{
    lemma_buckets_sorted(s, sh, 255);
}

/// Pushing an entry onto the input inserts it into exactly one bucket.
proof fn lemma_buckets_push(s: Seq<KeyValue>, x: KeyValue, sh: u32, d: int)
    requires
        -1 <= d < 256,
    ensures
        buckets_concat(s.push(x), sh, d).to_multiset() == if digit(x.key, sh) <= d {
            buckets_concat(s, sh, d).to_multiset().insert(x)
        } else {
            buckets_concat(s, sh, d).to_multiset()
        },
    decreases d + 1,
{
    broadcast use vstd::seq_lib::group_seq_properties;

    if d >= 0 {
        lemma_buckets_push(s, x, sh, d - 1);
        let pred = |kv: KeyValue| digit(kv.key, sh) == d;
        assert(s.push(x) =~= s + seq![x]);
        Seq::filter_distributes_over_add(s, seq![x], pred);
        reveal(Seq::filter);
        assert(seq![x].drop_last() =~= Seq::<KeyValue>::empty());
        let fx = seq![x].filter(pred);
        assert(s.push(x).filter(pred) == s.filter(pred) + fx);
        vstd::seq_lib::lemma_multiset_commutative(
            buckets_concat(s.push(x), sh, d - 1),
            filter_digit(s.push(x), sh, d as u32),
        );
        vstd::seq_lib::lemma_multiset_commutative(
            buckets_concat(s, sh, d - 1),
            filter_digit(s, sh, d as u32),
        );
        if pred(x) {
            assert(fx =~= seq![x]);
            assert(filter_digit(s.push(x), sh, d as u32).to_multiset() =~= filter_digit(
                s,
                sh,
                d as u32,
            ).to_multiset().insert(x)) by {
                vstd::seq_lib::lemma_multiset_commutative(s.filter(pred), seq![x]);
                assert(seq![x].to_multiset() =~= Multiset::<KeyValue>::empty().insert(x));
            }
            assert(buckets_concat(s.push(x), sh, d).to_multiset() =~= buckets_concat(
                s,
                sh,
                d,
            ).to_multiset().insert(x));
        } else {
            assert(fx =~= Seq::<KeyValue>::empty());
            assert(s.push(x).filter(pred) =~= s.filter(pred));
            if digit(x.key, sh) <= d - 1 {
                assert(buckets_concat(s.push(x), sh, d).to_multiset() =~= buckets_concat(
                    s,
                    sh,
                    d,
                ).to_multiset().insert(x));
            } else {
                assert(buckets_concat(s.push(x), sh, d).to_multiset() =~= buckets_concat(
                    s,
                    sh,
                    d,
                ).to_multiset());
            }
        }
    }
}

/// The buckets of an empty input are empty.
proof fn lemma_buckets_empty(sh: u32, d: int)
    requires
        -1 <= d < 256,
    ensures
        buckets_concat(Seq::<KeyValue>::empty(), sh, d) =~= Seq::<KeyValue>::empty(),
    decreases d + 1,
{
    reveal(Seq::filter);
    if d >= 0 {
        lemma_buckets_empty(sh, d - 1);
        assert(buckets_concat(Seq::<KeyValue>::empty(), sh, d) =~= Seq::<KeyValue>::empty());
    }
}

/// A pass is a permutation: it keeps exactly the entries it was given.
pub proof fn lemma_pass_multiset(s: Seq<KeyValue>, sh: u32)
    ensures
        pass_spec(s, sh).to_multiset() == s.to_multiset(),
    decreases s.len(),
{
    broadcast use vstd::seq_lib::group_to_multiset_ensures;

    if s.len() == 0 {
        lemma_buckets_empty(sh, 255);
        assert(s =~= Seq::<KeyValue>::empty());
    } else {
        let t = s.drop_last();
        let x = s.last();
        lemma_pass_multiset(t, sh);
        assert(s =~= t.push(x));
        lemma_buckets_push(t, x, sh, 255);
        assert(digit(x.key, sh) <= 255) by {
            let k = x.key;
            assert((k >> sh) & 0xff < 256) by (bit_vector);
        }
        assert(t.push(x).to_multiset() =~= t.to_multiset().insert(x));
    }
}

/// The four passes together leave the entries sorted by their full keys and
/// keep exactly the entries they were given.
pub proof fn lemma_radix_sort_spec_ensures(s: Seq<KeyValue>)
    ensures
        sorted_by_key(radix_sort_spec(s)),
        radix_sort_spec(s).to_multiset() == s.to_multiset(),
{
    let s0 = pass_spec(s, 0);
    let s1 = pass_spec(s0, 8);
    let s2 = pass_spec(s1, 16);
    let s3 = pass_spec(s2, 24);
    assert(sorted_upto(s, 0)) by {
        assert(forall|k: u32| low_bits(k, 0) == 0) by (bit_vector);
    }
    lemma_pass_sorted(s, 0);
    lemma_pass_sorted(s0, 8);
    lemma_pass_sorted(s1, 16);
    lemma_pass_sorted(s2, 24);
    assert(forall|k: u32| low_bits(k, 32) == k);
    lemma_pass_multiset(s, 0);
    lemma_pass_multiset(s0, 8);
    lemma_pass_multiset(s1, 16);
    lemma_pass_multiset(s2, 24);
}

/// One stable counting pass: walks the digits in order and collects, digit
/// by digit, the entries carrying that digit.
fn radix_pass(pairs: &Vec<KeyValue>, sh: u32) -> (r: Vec<KeyValue>)
    requires
        sh < 32,
    ensures
        r@ == pass_spec(pairs@, sh),
{
    let n = pairs.len();
    let mut out: Vec<KeyValue> = Vec::new();
    let mut d: u32 = 0;
    proof {
        assert(buckets_concat(pairs@, sh, -1) =~= Seq::<KeyValue>::empty());
    }
    while d < 256
        invariant
            sh < 32,
            d <= 256,
            n == pairs.len(),
            out@ == buckets_concat(pairs@, sh, d - 1),
        decreases 256 - d,
    {
        let ghost pred = |kv: KeyValue| digit(kv.key, sh) == d;
        let mut i: usize = 0;
        proof {
            reveal(Seq::filter);
            assert(pairs@.take(0) =~= Seq::<KeyValue>::empty());
            assert(out@ == buckets_concat(pairs@, sh, d - 1) + pairs@.take(0).filter(pred));
        }
        while i < n
            invariant
                sh < 32,
                i <= n,
                n == pairs.len(),
                out@ == buckets_concat(pairs@, sh, d - 1) + pairs@.take(i as int).filter(pred),
                pred == (|kv: KeyValue| digit(kv.key, sh) == d),
            decreases n - i,
        {
            let kv = pairs[i];
            proof {
                lemma_filter_take_step(pairs@, pred, i as int);
            }
            if ((kv.key >> sh) & 0xff) == d {
                proof {
                    assert(digit(kv.key, sh) == d);
                }
                out.push(kv);
            } else {
                proof {
                    assert(digit(kv.key, sh) != d);
                }
            }
            i = i + 1;
        }
        proof {
            assert(pairs@.take(n as int) =~= pairs@);
            assert(out@ == buckets_concat(pairs@, sh, d as int));
        }
        d = d + 1;
    }
    out
}

/// Four-pass least-significant-digit radix sort of (key, value) pairs.
///
/// The result is a function of the input alone, so identical frames sort
/// identically; it is sorted by key and holds exactly the input entries.
pub fn radix_sort_pairs(pairs: &Vec<KeyValue>) -> (r: Vec<KeyValue>)
    ensures
        r@ == radix_sort_spec(pairs@),
        sorted_by_key(r@),
        r@.to_multiset() == pairs@.to_multiset(),
{
    proof {
        lemma_radix_sort_spec_ensures(pairs@);
    }
    let p0 = radix_pass(pairs, 0);
    let p1 = radix_pass(&p0, 8);
    let p2 = radix_pass(&p1, 16);
    let p3 = radix_pass(&p2, 24);
    p3
}

} // verus!
