use vstd::prelude::*;

verus! {

/// Two to the 63rd, the scale that a ratio is applied to.
pub const HALF_RANGE: u128 = 0x8000_0000_0000_0000;

/// The ratio `num / den` of traces to export; well formed when `den > 0`
/// and `num <= den`.
#[derive(Clone, Copy, Debug, PartialEq, Eq, Structural)]
pub struct SamplingRatio {
    pub num: u64,
    pub den: u64,
}

impl SamplingRatio {
    pub open spec fn wf(&self) -> bool {
        self.den > 0 && self.num <= self.den
    }

    /// The ratio `num / den`, if it lies in [0, 1] with a non-zero
    /// denominator.
    pub fn new(num: u64, den: u64) -> (r: Option<SamplingRatio>)
        ensures
            r is Some <==> (den > 0 && num <= den),
            r matches Some(s) ==> s.wf() && s.num == num && s.den == den,
    {
        if den > 0 && num <= den {
            Some(SamplingRatio { num, den })
        } else {
            None
        }
    }
}

/// The pseudo-random value that a trace is judged by: the low 64 bits of its
/// id, without their lowest bit.
pub open spec fn trace_draw(trace_id: u128) -> int {
    (trace_id as int % 0x1_0000_0000_0000_0000) / 2
}

/// A trace root is exported when its draw falls below `ratio` of the draw's
/// range [0, 2^63).
pub open spec fn root_sampled(trace_id: u128, ratio: SamplingRatio) -> bool {
    trace_draw(trace_id) * ratio.den < ratio.num * HALF_RANGE
}

/// A span follows its parent's decision; a root decides by its trace id.
pub open spec fn span_sampled(parent: Option<bool>, trace_id: u128, ratio: SamplingRatio) -> bool {
    match parent {
        Some(d) => d,
        None => root_sampled(trace_id, ratio),
    }
}

/// The number of roots among `ids` that are exported.
pub open spec fn sampled_count(ids: Seq<u128>, ratio: SamplingRatio) -> nat
    decreases ids.len(),
{
    if ids.len() == 0 {
        0
    } else {
        sampled_count(ids.drop_last(), ratio) + if root_sampled(ids.last(), ratio) {
            1nat
        } else {
            0nat
        }
    }
}

/// The decision for the root of trace `trace_id`; a function of the id and
/// the ratio alone, so the same ids always give the same decisions.
pub fn sample_root(trace_id: u128, ratio: &SamplingRatio) -> (r: bool)
    requires
        ratio.wf(),
    ensures
        r == root_sampled(trace_id, *ratio),
{
    let low: u64 = (trace_id % 0x1_0000_0000_0000_0000u128) as u64;
    let draw: u128 = (low / 2) as u128;
    assert(draw * ratio.den <= 0x8000_0000_0000_0000u128 * 0xffff_ffff_ffff_ffffu128) by (nonlinear_arith)
        requires
            draw < 0x8000_0000_0000_0000u128,
            ratio.den <= 0xffff_ffff_ffff_ffffu128,
    ;
    assert(ratio.num * HALF_RANGE <= 0xffff_ffff_ffff_ffffu128 * 0x8000_0000_0000_0000u128) by (nonlinear_arith)
        requires
            ratio.num <= 0xffff_ffff_ffff_ffffu128,
    ;
    draw * (ratio.den as u128) < (ratio.num as u128) * HALF_RANGE
}

/// The decision for a span: inherited from the parent's decision when there
/// is a parent, else made for the root.
pub fn sample_span(parent: Option<bool>, trace_id: u128, ratio: &SamplingRatio) -> (r: bool)
    requires
        ratio.wf(),
    ensures
        r == span_sampled(parent, trace_id, *ratio),
{
    match parent {
        Some(d) => d,
        None => sample_root(trace_id, ratio),
    }
}

/// Counts the roots among `ids` that are exported.
pub fn count_sampled(ids: &Vec<u128>, ratio: &SamplingRatio) -> (r: usize)
    requires
        ratio.wf(),
    ensures
        r as nat == sampled_count(ids@, *ratio),
{
    let mut n: usize = 0;
    let mut i: usize = 0;
    while i < ids.len()
        invariant
            i <= ids@.len(),
            ratio.wf(),
            n as nat == sampled_count(ids@.subrange(0, i as int), *ratio),
            n <= i,
        decreases ids@.len() - i,
    {
        assert(ids@.subrange(0, i + 1).drop_last() =~= ids@.subrange(0, i as int));
        if sample_root(ids[i], ratio) {
            n = n + 1;
        }
        i = i + 1;
    }
    assert(ids@.subrange(0, ids@.len() as int) =~= ids@);
    n
}

/// A ratio of zero exports no root, and a ratio of one exports every root.
pub proof fn lemma_ratio_extremes(trace_id: u128, ratio: SamplingRatio)
    requires
        ratio.wf(),
    ensures
        ratio.num == 0 ==> !root_sampled(trace_id, ratio),
        ratio.num == ratio.den ==> root_sampled(trace_id, ratio),
{
    let d = trace_draw(trace_id);
    assert(0 <= d < HALF_RANGE);
    assert(d * ratio.den >= 0) by (nonlinear_arith)
        requires
            d >= 0,
            ratio.den > 0,
    ;
    if ratio.num == ratio.den {
        assert(d * ratio.den < ratio.den * HALF_RANGE) by (nonlinear_arith)
            requires
                d < HALF_RANGE,
                ratio.den > 0,
        ;
    }
}

/// Over any sequence of trace roots, a ratio of zero exports none of them
/// and a ratio of one exports all of them.
pub proof fn lemma_count_extremes(ids: Seq<u128>, ratio: SamplingRatio)
    requires
        ratio.wf(),
    ensures
        ratio.num == 0 ==> sampled_count(ids, ratio) == 0,
        ratio.num == ratio.den ==> sampled_count(ids, ratio) == ids.len(),
    decreases ids.len(),
{
    if ids.len() > 0 {
        lemma_count_extremes(ids.drop_last(), ratio);
        lemma_ratio_extremes(ids.last(), ratio);
    }
}

/// Every span of a trace carries the root's decision: a span whose parent
/// followed the root, follows it too.
pub proof fn lemma_decision_inherited(trace_id: u128, ratio: SamplingRatio, parent: bool)
    requires
        parent == root_sampled(trace_id, ratio),
    ensures
        span_sampled(Some(parent), trace_id, ratio) == span_sampled(None, trace_id, ratio),
{
}

} // verus!
