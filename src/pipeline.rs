use vstd::prelude::*;
use crate::severity::Severity;
use crate::span::TaskContext;

verus! {

/// A structured log record. `span` is the span that was current where it was
/// emitted.
pub struct Event {
    pub severity: Severity,
    pub message: String,
    pub span: Option<usize>,
    pub timestamp: u64,
}

/// An output destination with its own minimum severity.
#[derive(Clone, Copy, Debug, PartialEq, Eq, Structural)]
pub struct Sink {
    pub id: u64,
    pub threshold: Severity,
}

/// The global severity gate followed by the ordered chain of sinks.
pub struct Pipeline {
    pub gate: Severity,
    pub sinks: Vec<Sink>,
}

/// What one emission produced: the event, and which sinks it was handed to
/// (one flag per sink, in registration order).
pub struct Emission {
    pub event: Event,
    pub delivered: Vec<bool>,
}

/// An event of severity `sev` reaches a sink of threshold `threshold` behind
/// the global gate `gate` exactly when it passes both.
pub open spec fn visible(gate: Severity, threshold: Severity, sev: Severity) -> bool {
    sev.rank() >= gate.rank() && sev.rank() >= threshold.rank()
}

impl Pipeline {
    /// `mask` gives, for each sink in order, whether an event of severity
    /// `sev` reaches it.
    pub open spec fn delivers(&self, sev: Severity, mask: Seq<bool>) -> bool {
        &&& mask.len() == self.sinks@.len()
        &&& forall|i: int|
            0 <= i < mask.len() ==> #[trigger] mask[i] == visible(
                self.gate,
                self.sinks@[i].threshold,
                sev,
            )
    }

    /// A pipeline with no sinks behind the global gate `gate`.
    pub fn new(gate: Severity) -> (r: Pipeline)
        ensures
            r.gate == gate,
            r.sinks@.len() == 0,
    {
        Pipeline { gate, sinks: Vec::new() }
    }

    /// Appends a sink to the chain.
    pub fn register(&mut self, id: u64, threshold: Severity)
        ensures
            final(self).gate == old(self).gate,
            final(self).sinks@ == old(self).sinks@.push(Sink { id, threshold }),
    {
        self.sinks.push(Sink { id, threshold });
    }

    /// The first stage: whether an event of severity `sev` passes the global gate.
    pub fn passes_gate(&self, sev: Severity) -> (r: bool)
        ensures
            r == (sev.rank() >= self.gate.rank()),
    {
        sev.is_at_least(self.gate)
    }

    /// Decides, for each sink independently, whether `event` reaches it: the
    /// gate first, then the sink's own threshold. Reads the pipeline and the
    /// event only, so the same event may be dispatched any number of times.
    pub fn dispatch(&self, event: &Event) -> (r: Vec<bool>)
        ensures
            self.delivers(event.severity, r@),
    {
        let sev = event.severity;
        let mut r: Vec<bool> = Vec::new();
        if !self.passes_gate(sev) {
            let mut i: usize = 0;
            while i < self.sinks.len()
                invariant
                    i <= self.sinks@.len(),
                    r@.len() == i,
                    sev.rank() < self.gate.rank(),
                    forall|k: int| 0 <= k < i ==> #[trigger] r@[k] == false,
                decreases self.sinks@.len() - i,
            {
                r.push(false);
                i = i + 1;
            }
            return r;
        }
        let mut i: usize = 0;
        while i < self.sinks.len()
            invariant
                i <= self.sinks@.len(),
                r@.len() == i,
                sev.rank() >= self.gate.rank(),
                forall|k: int|
                    0 <= k < i ==> #[trigger] r@[k] == visible(
                        self.gate,
                        self.sinks@[k].threshold,
                        sev,
                    ),
            decreases self.sinks@.len() - i,
        {
            r.push(sev.is_at_least(self.sinks[i].threshold));
            i = i + 1;
        }
        r
    }

    /// Emits an event: it is attached to the span current in `ctx` and
    /// dispatched to the sinks. Emission never fails.
    pub fn emit(&self, ctx: &TaskContext, severity: Severity, message: String, now: u64) -> (r:
        Emission)
        ensures
            r.event.severity == severity,
            r.event.message@ == message@,
            r.event.span == ctx.current(),
            r.event.timestamp == now,
            self.delivers(severity, r.delivered@),
    {
        let span = ctx.current_span();
        let event = Event { severity, message, span, timestamp: now };
        let delivered = self.dispatch(&event);
        Emission { event, delivered }
    }
}

/// Which sinks must be reported to the fallback stream: those that were
/// handed the event (`delivered`) and reported a failure (`succeeded` false).
/// Each sink's outcome is looked at on its own.
pub fn fallback_reports(delivered: &Vec<bool>, succeeded: &Vec<bool>) -> (r: Vec<bool>)
    requires
        delivered@.len() == succeeded@.len(),
    ensures
        r@.len() == delivered@.len(),
        forall|i: int| 0 <= i < r@.len() ==> #[trigger] r@[i] == (delivered@[i] && !succeeded@[i]),
{
    let mut r: Vec<bool> = Vec::new();
    let mut i: usize = 0;
    while i < delivered.len()
        invariant
            i <= delivered@.len(),
            delivered@.len() == succeeded@.len(),
            r@.len() == i,
            forall|k: int| 0 <= k < i ==> #[trigger] r@[k] == (delivered@[k] && !succeeded@[k]),
        decreases delivered@.len() - i,
    {
        r.push(delivered[i] && !succeeded[i]);
        i = i + 1;
    }
    r
}

/// A sink receives an event exactly when the event passes the global gate
/// and the sink's own threshold; in particular nothing below the global gate
/// reaches any sink, whatever its threshold.
pub proof fn lemma_two_stage_gate(p: &Pipeline, sev: Severity, mask: Seq<bool>, i: int)
    requires
        p.delivers(sev, mask),
        0 <= i < p.sinks@.len(),
    ensures
        mask[i] <==> (sev.rank() >= p.gate.rank() && sev.rank() >= p.sinks@[i].threshold.rank()),
        sev.rank() < p.gate.rank() ==> !mask[i],
{
    assert(mask[i] == visible(p.gate, p.sinks@[i].threshold, sev));
}

/// Dispatching is repeatable: two dispatches of the same severity through
/// the same pipeline hand it to exactly the same sinks.
pub proof fn lemma_dispatch_repeatable(p: &Pipeline, sev: Severity, first: Seq<bool>, second: Seq<bool>)
    requires
        p.delivers(sev, first),
        p.delivers(sev, second),
    ensures
        first == second,
{
    assert(first =~= second);
}

} // verus!
