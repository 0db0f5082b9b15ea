//! The fee schedule: tiers keyed by a client's 30-day transaction count.

use crate::common::Scalar;
use vstd::prelude::*;

verus! {

/// One step of the schedule: from `min_tx_count_30d` transactions on, the
/// rate `percent` applies.
#[derive(Debug, Clone, Copy, PartialEq, Eq, Structural)]
pub struct FeeTier {
    pub min_tx_count_30d: u64,
    /// The rate as a decimal fraction.
    pub percent: Scalar,
}

/// The schedule. A schedule in use is not empty and ascends by threshold;
/// [`FeeConfig::wf`] says so.
#[derive(Debug, Clone)]
pub struct FeeConfig {
    pub tiers: Vec<FeeTier>,
}

/// The rate 0.005, half a percent.
pub const RATE_50_BP: u64 = 0x3F74_7AE1_47AE_147B;

/// The rate 0.004.
pub const RATE_40_BP: u64 = 0x3F70_624D_D2F1_A9FC;

/// The rate 0.003.
pub const RATE_30_BP: u64 = 0x3F68_9374_BC6A_7EFA;

/// The rate 0.002.
pub const RATE_20_BP: u64 = 0x3F60_624D_D2F1_A9FC;

/// The rate 0.001, a tenth of a percent.
pub const RATE_10_BP: u64 = 0x3F50_624D_D2F1_A9FC;

/// Whether the thresholds never fall from one tier to a later one.
pub open spec fn ascending(tiers: Seq<FeeTier>) -> bool {
    forall|i: int, j: int|
        0 <= i <= j < tiers.len() ==> tiers[i].min_tx_count_30d <= tiers[j].min_tx_count_30d
}

/// The tiers of `tiers` whose threshold is `k`, in their order.
pub open spec fn with_threshold(tiers: Seq<FeeTier>, k: u64) -> Seq<FeeTier> {
    tiers.filter(|t: FeeTier| t.min_tx_count_30d == k)
}

/// Whether `output` holds the tiers of `input` in ascending order of
/// threshold, tiers of one threshold in the order `input` had them.
pub open spec fn is_stable_sort(input: Seq<FeeTier>, output: Seq<FeeTier>) -> bool {
    &&& output.len() == input.len()
    &&& ascending(output)
    &&& forall|k: u64| #[trigger] with_threshold(output, k) == with_threshold(input, k)
}

/// The schedule that applies where none is configured.
pub open spec fn default_tiers() -> Seq<FeeTier> {
    seq![
        FeeTier { min_tx_count_30d: 0, percent: Scalar { bits: RATE_50_BP } },
        FeeTier { min_tx_count_30d: 100, percent: Scalar { bits: RATE_40_BP } },
        FeeTier { min_tx_count_30d: 1_000, percent: Scalar { bits: RATE_30_BP } },
        FeeTier { min_tx_count_30d: 10_000, percent: Scalar { bits: RATE_20_BP } },
        FeeTier { min_tx_count_30d: 100_000, percent: Scalar { bits: RATE_10_BP } },
    ]
}

/// The first position from `from` on whose threshold exceeds `count`, or
/// the length of `tiers` where there is none.
pub open spec fn first_exceeding(tiers: Seq<FeeTier>, count: u64, from: int) -> int
    decreases tiers.len() - from,
{
    if from < 0 || from >= tiers.len() {
        tiers.len() as int
    } else if tiers[from].min_tx_count_30d > count {
        from
    } else {
        first_exceeding(tiers, count, from + 1)
    }
}

/// The position of the tier that applies at `count`: the last of the
/// leading tiers whose thresholds do not exceed `count`, and the first tier
/// where even its threshold does.
pub open spec fn selected_index(tiers: Seq<FeeTier>, count: u64) -> int {
    let stop = first_exceeding(tiers, count, 0);
    if stop == 0 {
        0
    } else {
        stop - 1
    }
}

impl View for FeeConfig {
    type V = Seq<FeeTier>;

    open spec fn view(&self) -> Seq<FeeTier> {
        self.tiers@
    }
}

impl FeeConfig {
    /// A schedule in use: not empty, thresholds ascending.
    pub open spec fn wf(&self) -> bool {
        self@.len() > 0 && ascending(self@)
    }

    /// The tier that applies at `count`.
    pub open spec fn spec_tier_for(&self, count: u64) -> FeeTier {
        self@[selected_index(self@, count)]
    }

    /// The five-tier default schedule.
    pub fn defaults() -> (cfg: FeeConfig)
        ensures
            cfg@ == default_tiers(),
            cfg.wf(),
    {
        let tiers = vec![
            FeeTier { min_tx_count_30d: 0, percent: Scalar { bits: RATE_50_BP } },
            FeeTier { min_tx_count_30d: 100, percent: Scalar { bits: RATE_40_BP } },
            FeeTier { min_tx_count_30d: 1_000, percent: Scalar { bits: RATE_30_BP } },
            FeeTier { min_tx_count_30d: 10_000, percent: Scalar { bits: RATE_20_BP } },
            FeeTier { min_tx_count_30d: 100_000, percent: Scalar { bits: RATE_10_BP } },
        ];
        assert(tiers@ =~= default_tiers());
        FeeConfig { tiers }
    }

    /// The schedule for the tiers that the environment supplied: the tiers
    /// in ascending order of threshold, equal thresholds in the order given;
    /// the default schedule where it supplied none.
    pub fn from_env(tiers: Vec<FeeTier>) -> (cfg: FeeConfig)
        ensures
            tiers@.len() == 0 ==> cfg@ == default_tiers(),
            tiers@.len() > 0 ==> is_stable_sort(tiers@, cfg@),
            cfg.wf(),
    {
        if tiers.len() == 0 {
            return Self::defaults();
        }
        let mut sorted: Vec<FeeTier> = Vec::new();
        let mut i: usize = 0;
        assert(tiers@.take(0) =~= Seq::<FeeTier>::empty());
        assert forall|k: u64| #[trigger]
            with_threshold(sorted@, k) == with_threshold(tiers@.take(0), k) by {}
        while i < tiers.len()
            invariant
                i <= tiers.len(),
                is_stable_sort(tiers@.take(i as int), sorted@),
            decreases tiers.len() - i,
        {
            let tier = tiers[i];
            let mut pos: usize = sorted.len();
            while pos > 0 && sorted[pos - 1].min_tx_count_30d > tier.min_tx_count_30d
                invariant
                    pos <= sorted.len(),
                    forall|j: int|
                        pos <= j < sorted.len() ==> sorted[j].min_tx_count_30d
                            > tier.min_tx_count_30d,
                decreases pos,
            {
                pos = pos - 1;
            }
            proof {
                lemma_insert_keeps_stable_sort(tiers@, i as int, sorted@, pos as int);
            }
            sorted.insert(pos, tier);
            i = i + 1;
        }
        assert(tiers@.take(i as int) =~= tiers@);
        FeeConfig { tiers: sorted }
    }

    /// The tier that applies to a client with `count` transactions in the
    /// window. In a schedule that ascends, it is the tier with the greatest
    /// threshold that does not exceed `count`.
    pub fn tier_for(&self, count: u64) -> (tier: FeeTier)
        requires
            self@.len() > 0,
        ensures
            tier == self.spec_tier_for(count),
            self.wf() && self@[0].min_tx_count_30d <= count ==> {
                &&& tier.min_tx_count_30d <= count
                &&& forall|j: int|
                    0 <= j < self@.len() && (#[trigger] self@[j]).min_tx_count_30d <= count
                        ==> self@[j].min_tx_count_30d <= tier.min_tx_count_30d
            },
    {
        proof {
            if self.wf() {
                lemma_selects_greatest_threshold(self@, count);
            }
        }
        let mut chosen: usize = 0;
        let mut i: usize = 0;
        while i < self.tiers.len()
            invariant_except_break
                i <= self.tiers.len(),
                first_exceeding(self@, count, 0) == first_exceeding(self@, count, i as int),
                chosen == if i == 0 {
                    0
                } else {
                    i - 1
                },
            invariant
                self.tiers.len() > 0,
                chosen < self.tiers.len(),
            ensures
                chosen == selected_index(self@, count),
            decreases self.tiers.len() - i,
        {
            if count >= self.tiers[i].min_tx_count_30d {
                chosen = i;
            } else {
                break ;
            }
            i = i + 1;
        }
        self.tiers[chosen]
    }
}

/// From `from` on, every tier before the first one that exceeds `count` does
/// not exceed it.
proof fn lemma_first_exceeding(tiers: Seq<FeeTier>, count: u64, from: int)
    requires
        0 <= from <= tiers.len(),
    ensures
        from <= first_exceeding(tiers, count, from) <= tiers.len(),
        forall|j: int|
            from <= j < first_exceeding(tiers, count, from) ==> tiers[j].min_tx_count_30d <= count,
        first_exceeding(tiers, count, from) < tiers.len() ==> tiers[first_exceeding(
            tiers,
            count,
            from,
        )].min_tx_count_30d > count,
    decreases tiers.len() - from,
{
    if from < tiers.len() && tiers[from].min_tx_count_30d <= count {
        lemma_first_exceeding(tiers, count, from + 1);
    }
}

/// In an ascending schedule the tier that applies at `count` is the one with
/// the greatest threshold that does not exceed `count`. Where every
/// threshold exceeds `count`, the first tier applies.
pub proof fn lemma_selects_greatest_threshold(tiers: Seq<FeeTier>, count: u64)
    requires
        tiers.len() > 0,
        ascending(tiers),
    ensures
        0 <= selected_index(tiers, count) < tiers.len(),
        tiers[0].min_tx_count_30d <= count ==> {
            &&& tiers[selected_index(tiers, count)].min_tx_count_30d <= count
            &&& forall|j: int|
                0 <= j < tiers.len() && (#[trigger] tiers[j]).min_tx_count_30d <= count
                    ==> tiers[j].min_tx_count_30d <= tiers[selected_index(
                    tiers,
                    count,
                )].min_tx_count_30d
        },
        tiers[0].min_tx_count_30d > count ==> selected_index(tiers, count) == 0,
{
    lemma_first_exceeding(tiers, count, 0);
}

/// In an ascending schedule that starts at threshold 0, a count below every
/// other threshold gets a tier of threshold 0.
pub proof fn lemma_selects_base_tier(tiers: Seq<FeeTier>, count: u64)
    requires
        tiers.len() > 0,
        ascending(tiers),
        tiers[0].min_tx_count_30d == 0,
        forall|j: int|
            0 <= j < tiers.len() && (#[trigger] tiers[j]).min_tx_count_30d != 0 ==> count
                < tiers[j].min_tx_count_30d,
    ensures
        tiers[selected_index(tiers, count)].min_tx_count_30d == 0,
{
    lemma_selects_greatest_threshold(tiers, count);
}

/// Two sequences that ascend by threshold and agree, threshold by
/// threshold, on the tiers they hold and on their order, are one sequence.
proof fn lemma_ascending_groups_decide(a: Seq<FeeTier>, b: Seq<FeeTier>)
    requires
        a.len() == b.len(),
        ascending(a),
        ascending(b),
        forall|k: u64| #[trigger] with_threshold(a, k) == with_threshold(b, k),
    ensures
        a == b,
    decreases a.len(),
{
    if a.len() == 0 {
        assert(a =~= b);
    } else {
        let ka = a.last().min_tx_count_30d;
        let kb = b.last().min_tx_count_30d;
        lemma_threshold_present(a, b, a.len() - 1);
        lemma_threshold_present(b, a, b.len() - 1);
        assert(ka == kb);
        let a_rest = a.drop_last();
        let b_rest = b.drop_last();
        assert(a =~= a_rest.push(a.last()));
        assert(b =~= b_rest.push(b.last()));
        assert forall|k: u64| #[trigger]
            with_threshold(a_rest, k) == with_threshold(b_rest, k) && (k == ka ==> a.last()
                == b.last()) by {
            let pred = |t: FeeTier| t.min_tx_count_30d == k;
            a_rest.lemma_filter_push(a.last(), pred);
            b_rest.lemma_filter_push(b.last(), pred);
            assert(with_threshold(a, k) == with_threshold(b, k));
            if k == ka {
                assert(a_rest.filter(pred).push(a.last()).last() == a.last());
                assert(b_rest.filter(pred).push(b.last()).last() == b.last());
                assert(a_rest.filter(pred).push(a.last()).drop_last() =~= a_rest.filter(pred));
                assert(b_rest.filter(pred).push(b.last()).drop_last() =~= b_rest.filter(pred));
            }
        }
        assert(with_threshold(a_rest, ka) == with_threshold(b_rest, ka));
        assert(a.last() == b.last());
        lemma_ascending_groups_decide(a_rest, b_rest);
    }
}

/// A threshold that `a` holds at `i` is held by `b` too, where the two
/// agree threshold by threshold; so it does not exceed the last of `b`,
/// where `b` ascends.
proof fn lemma_threshold_present(a: Seq<FeeTier>, b: Seq<FeeTier>, i: int)
    requires
        0 <= i < a.len(),
        ascending(b),
        forall|k: u64| #[trigger] with_threshold(a, k) == with_threshold(b, k),
    ensures
        b.len() > 0,
        a[i].min_tx_count_30d <= b.last().min_tx_count_30d,
{
    let k = a[i].min_tx_count_30d;
    let pred = |t: FeeTier| t.min_tx_count_30d == k;
    a.lemma_filter_contains(pred, i);
    assert(with_threshold(a, k) == with_threshold(b, k));
    assert(b.filter(pred).contains(a[i]));
    b.lemma_filter_contains_rev(pred, a[i]);
    let j = choose|j: int| 0 <= j < b.len() && b[j] == a[i];
    assert(b[j].min_tx_count_30d <= b[b.len() - 1].min_tx_count_30d);
}

/// A sequence of tiers has one stable sort by threshold and no other.
pub proof fn lemma_stable_sort_is_unique(input: Seq<FeeTier>, a: Seq<FeeTier>, b: Seq<FeeTier>)
    requires
        is_stable_sort(input, a),
        is_stable_sort(input, b),
    ensures
        a == b,
{
    assert forall|k: u64| #[trigger] with_threshold(a, k) == with_threshold(b, k) by {
        assert(with_threshold(a, k) == with_threshold(input, k));
        assert(with_threshold(b, k) == with_threshold(input, k));
    }
    lemma_ascending_groups_decide(a, b);
}

/// Putting the next tier behind the last sorted tier that does not exceed it
/// keeps the sorted tiers a stable sort of the tiers taken so far.
proof fn lemma_insert_keeps_stable_sort(
    input: Seq<FeeTier>,
    i: int,
    sorted: Seq<FeeTier>,
    pos: int,
)
    requires
        0 <= i < input.len(),
        is_stable_sort(input.take(i), sorted),
        0 <= pos <= sorted.len(),
        forall|j: int|
            pos <= j < sorted.len() ==> sorted[j].min_tx_count_30d > input[i].min_tx_count_30d,
        pos > 0 ==> sorted[pos - 1].min_tx_count_30d <= input[i].min_tx_count_30d,
    ensures
        is_stable_sort(input.take(i + 1), sorted.insert(pos, input[i])),
{
    let tier = input[i];
    let next = sorted.insert(pos, tier);
    let head = sorted.subrange(0, pos);
    let tail = sorted.subrange(pos, sorted.len() as int);
    assert(sorted =~= head + tail);
    assert(next =~= head + seq![tier] + tail);
    assert(input.take(i + 1) =~= input.take(i) + seq![tier]);
    assert(ascending(next)) by {
        assert forall|a: int, b: int| 0 <= a <= b < next.len() implies next[a].min_tx_count_30d
            <= next[b].min_tx_count_30d by {
            if a < pos && b == pos {
                assert(sorted[a].min_tx_count_30d <= sorted[pos - 1].min_tx_count_30d);
            }
        }
    }
    assert forall|k: u64| #[trigger]
        with_threshold(next, k) == with_threshold(input.take(i + 1), k) by {
        let pred = |t: FeeTier| t.min_tx_count_30d == k;
        Seq::filter_distributes_over_add(head, tail, pred);
        Seq::filter_distributes_over_add(head, seq![tier], pred);
        Seq::filter_distributes_over_add(head + seq![tier], tail, pred);
        Seq::filter_distributes_over_add(input.take(i), seq![tier], pred);
        assert(with_threshold(sorted, k) == with_threshold(input.take(i), k));
        if k == tier.min_tx_count_30d {
            assert(tail.all(|t: FeeTier| !pred(t)));
            tail.lemma_all_neg_filter_empty(pred);
            assert(tail.filter(pred) =~= Seq::<FeeTier>::empty());
            assert(head.filter(pred) + tail.filter(pred) =~= head.filter(pred));
            assert(head.filter(pred) + seq![tier].filter(pred) + tail.filter(pred)
                =~= head.filter(pred) + seq![tier].filter(pred));
        } else {
            assert(seq![tier].all(|t: FeeTier| !pred(t)));
            seq![tier].lemma_all_neg_filter_empty(pred);
            assert(seq![tier].filter(pred) =~= Seq::<FeeTier>::empty());
            assert(head.filter(pred) + seq![tier].filter(pred) + tail.filter(pred)
                =~= head.filter(pred) + tail.filter(pred));
            assert(input.take(i).filter(pred) + seq![tier].filter(pred) =~= input.take(i).filter(
                pred,
            ));
        }
    }
}

} // verus!
