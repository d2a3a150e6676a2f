//! Partitioning the requested bot count across worker shards: every shard
//! gets the whole-number share, and one extra shard absorbs the remainder.
//! When there are fewer bots than shards, a single shard takes them all.

use vstd::prelude::*;

verus! {

/// The per-shard bot counts for `total` bots over `shards` workers: nothing
/// for zero bots; one shard of `total` when the whole-number share is zero;
/// otherwise `shards` counts of the share, with the remainder, when there is
/// one, folded into one extra count.
pub open spec fn spec_shard_counts(total: u32, shards: u32) -> Seq<u32> {
    let base = total / shards;
    let rem = total % shards;
    if total == 0 {
        Seq::empty()
    } else if base == 0 {
        seq![total]
    } else if rem == 0 {
        Seq::new(shards as nat, |i: int| base)
    } else {
        Seq::new(shards as nat, |i: int| base).push(rem)
    }
}

/// The sum of a sequence of counts.
pub open spec fn sum_counts(s: Seq<u32>) -> int
    decreases s.len(),
{
    if s.len() == 0 {
        0
    } else {
        s[0] + sum_counts(s.skip(1))
    }
}

/// Computes the per-shard bot counts.
pub fn shard_counts(total: u32, shards: u32) -> (r: Vec<u32>)
    requires
        shards >= 1,
    ensures
        r@ == spec_shard_counts(total, shards),
{
    let base = total / shards;
    let rem = total % shards;
    let mut out: Vec<u32> = Vec::new();
    if total == 0 {
        proof {
            assert(out@ =~= spec_shard_counts(total, shards));
        }
        return out;
    }
    if base == 0 {
        out.push(total);
        proof {
            assert(out@ =~= spec_shard_counts(total, shards));
        }
        return out;
    }
    let mut i: u32 = 0;
    while i < shards
        invariant
            i <= shards,
            out@ == Seq::new(i as nat, |j: int| base),
        decreases shards - i,
    {
        out.push(base);
        i = i + 1;
        proof {
            assert(out@ =~= Seq::new(i as nat, |j: int| base));
        }
    }
    if rem > 0 {
        out.push(rem);
    }
    proof {
        assert(out@ =~= spec_shard_counts(total, shards));
    }
    out
}

proof fn lemma_sum_repeat(n: nat, v: u32)
    ensures
        sum_counts(Seq::new(n, |i: int| v)) == n * v,
    decreases n,
{
    if n == 0 {
    } else {
        let s = Seq::new(n, |i: int| v);
        assert(s.skip(1) =~= Seq::new((n - 1) as nat, |i: int| v));
        lemma_sum_repeat((n - 1) as nat, v);
        assert(n * v == (n - 1) * v + v) by (nonlinear_arith);
    }
}

proof fn lemma_sum_push(s: Seq<u32>, x: u32)
    ensures
        sum_counts(s.push(x)) == sum_counts(s) + x,
    decreases s.len(),
{
    if s.len() == 0 {
        assert(s.push(x)[0] == x);
        assert(s.push(x).skip(1) =~= Seq::<u32>::empty());
        assert(sum_counts(Seq::<u32>::empty()) == 0);
    } else {
        assert(s.push(x)[0] == s[0]);
        assert(s.push(x).skip(1) =~= s.skip(1).push(x));
        lemma_sum_push(s.skip(1), x);
    }
}

/// For every total count and every shard count of at least one, the per-shard
/// counts sum to exactly the total.
pub proof fn lemma_shard_counts_sum(total: u32, shards: u32)
    requires
        shards >= 1,
    ensures
        sum_counts(spec_shard_counts(total, shards)) == total,
{
    let base = total / shards;
    let rem = total % shards;
    vstd::arithmetic::div_mod::lemma_fundamental_div_mod(total as int, shards as int);
    if total == 0 {
    } else if base == 0 {
        let s = seq![total];
        assert(s[0] == total);
        assert(s.skip(1) =~= Seq::<u32>::empty());
        assert(sum_counts(Seq::<u32>::empty()) == 0);
        assert(sum_counts(s) == total);
    } else if rem == 0 {
        lemma_sum_repeat(shards as nat, base);
        assert(total == shards * base + rem);
    } else {
        lemma_sum_repeat(shards as nat, base);
        lemma_sum_push(Seq::new(shards as nat, |i: int| base), rem);
        assert(total == shards * base + rem);
    }
}

/// When the whole-number share and the remainder lie within one of each
/// other — and always when the remainder is zero or the bots fit in a single
/// shard — no two shard counts differ by more than one.
pub proof fn lemma_shard_counts_balanced(total: u32, shards: u32)
    requires
        shards >= 1,
        total % shards == 0 || total / shards == 0 || (total / shards - 1 <= total % shards
            <= total / shards + 1),
    ensures
        forall|i: int, j: int|
            0 <= i < spec_shard_counts(total, shards).len() && 0 <= j < spec_shard_counts(
                total,
                shards,
            ).len() ==> spec_shard_counts(total, shards)[i] - spec_shard_counts(total, shards)[j]
                <= 1,
{
}

} // verus!
