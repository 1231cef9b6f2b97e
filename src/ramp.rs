use vstd::prelude::*;

verus! {

/// Largest number of samples that a pass may take before the remaining
/// budget is halved again.
pub const RAMP_PASS_LIMIT: u32 = 64;

/// The passes in the order they are split off a budget of `total` samples:
/// while more than the limit remains, half of it (rounded down) becomes a
/// pass; what is left at the end is the last pass.
pub open spec fn ramp_split(total: nat) -> Seq<u32>
    decreases total,
{
    if total > RAMP_PASS_LIMIT {
        seq![(total / 2) as u32] + ramp_split((total - total / 2) as nat)
    } else {
        seq![total as u32]
    }
}

/// Sum of a sequence of sample counts.
pub open spec fn total_samples(s: Seq<u32>) -> int
    decreases s.len(),
{
    if s.len() == 0 {
        0
    } else {
        total_samples(s.drop_last()) + s.last()
    }
}

proof fn lemma_total_samples_concat(a: Seq<u32>, b: Seq<u32>)
    ensures
        total_samples(a + b) == total_samples(a) + total_samples(b),
    decreases b.len(),
{
    if b.len() == 0 {
        assert(a + b =~= a);
    } else {
        assert((a + b).drop_last() =~= a + b.drop_last());
        lemma_total_samples_concat(a, b.drop_last());
    }
}

proof fn lemma_total_samples_reverse(s: Seq<u32>)
    ensures
        total_samples(s.reverse()) == total_samples(s),
    decreases s.len(),
{
    if s.len() > 0 {
        let first = seq![s[0]];
        let rest = s.drop_first();
        assert(s =~= first + rest);
        assert(s.reverse() =~= rest.reverse() + first);
        lemma_total_samples_reverse(rest);
        lemma_total_samples_concat(rest.reverse(), first);
        lemma_total_samples_concat(first, rest);
        assert(total_samples(first) == s[0]) by {
            assert(first.drop_last() =~= Seq::<u32>::empty());
            reveal_with_fuel(total_samples, 2);
        }
    }
}

proof fn lemma_ramp_split_total(total: nat)
    requires
        total <= u32::MAX,
    ensures
        total_samples(ramp_split(total)) == total,
        ramp_split(total).len() >= 1,
        forall|i: int| 0 <= i < ramp_split(total).len() ==> #[trigger] ramp_split(total)[i] >= 1
            || total == 0,
    decreases total,
{
    if total > RAMP_PASS_LIMIT {
        let rest = (total - total / 2) as nat;
        lemma_ramp_split_total(rest);
        let head = seq![(total / 2) as u32];
        lemma_total_samples_concat(head, ramp_split(rest));
        assert(head.drop_last() =~= Seq::<u32>::empty());
        reveal_with_fuel(total_samples, 2);
        assert(total_samples(head) == total / 2);
        assert forall|i: int| 0 <= i < ramp_split(total).len() implies
            #[trigger] ramp_split(total)[i] >= 1 by {
            if i > 0 {
                assert(ramp_split(total)[i] == ramp_split(rest)[i - 1]);
            }
        }
    } else {
        assert(seq![total as u32].drop_last() =~= Seq::<u32>::empty());
        reveal_with_fuel(total_samples, 2);
    }
}

/// The progressive sampling schedule for a budget of `total_samples_per_pixel`
/// samples per pixel: the halves split off the budget, smallest first, so
/// that a rough image appears early. The passes add up to the whole budget,
/// and none is empty unless the budget is.
pub fn sampling_ramp(total_samples_per_pixel: u32) -> (r: Vec<u32>)
    ensures
        r@ == ramp_split(total_samples_per_pixel as nat).reverse(),
        total_samples(r@) == total_samples_per_pixel,
        r@.len() >= 1,
        total_samples_per_pixel > 0 ==> forall|i: int| 0 <= i < r@.len() ==> #[trigger] r@[i] >= 1,
{
    let mut remaining: u32 = total_samples_per_pixel;
    let mut split: Vec<u32> = Vec::new();
    while remaining > RAMP_PASS_LIMIT
        invariant
            split@ + ramp_split(remaining as nat) == ramp_split(total_samples_per_pixel as nat),
        decreases remaining,
    {
        let cur: u32 = remaining / 2;
        proof {
            let rest = ramp_split((remaining - remaining / 2) as nat);
            assert(split@.push(cur) + rest =~= split@ + (seq![cur] + rest));
        }
        remaining = remaining - cur;
        split.push(cur);
    }
    split.push(remaining);
    proof {
        assert(split@ =~= ramp_split(total_samples_per_pixel as nat));
    }
    let ghost forward = split@;
    let mut ramp: Vec<u32> = Vec::new();
    let mut i: usize = split.len();
    while i > 0
        invariant
            i <= split@.len(),
            split@ == forward,
            ramp@ =~= forward.subrange(i as int, forward.len() as int).reverse(),
        decreases i,
    {
        i = i - 1;
        ramp.push(split[i]);
    }
    proof {
        assert(forward.subrange(0, forward.len() as int) =~= forward);
        lemma_ramp_split_total(total_samples_per_pixel as nat);
        lemma_total_samples_reverse(forward);
        assert forall|i: int| 0 <= i < ramp@.len() && total_samples_per_pixel > 0 implies
            #[trigger] ramp@[i] >= 1 by {
            assert(ramp@[i] == forward[forward.len() - 1 - i]);
        }
    }
    ramp
}

} // verus!
