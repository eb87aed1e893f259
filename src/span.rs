use vstd::prelude::*;

verus! {

/// Outcome recorded on a span when it closes.
#[derive(Clone, Copy, Debug, PartialEq, Eq, Structural)]
pub enum SpanStatus {
    Unset,
    Succeeded,
    Failed,
}

/// One timed scope. `end` is `None` while the span is open.
pub struct SpanRecord {
    pub name: String,
    pub parent: Option<usize>,
    pub start: u64,
    pub end: Option<u64>,
    pub status: SpanStatus,
}

/// Every span ever started, indexed by its handle, together with the latest
/// time recorded so far. Recorded times never go backwards.
pub struct SpanTable {
    pub spans: Vec<SpanRecord>,
    pub clock: u64,
}

/// The current-span stack of one logical task. It travels with the task, so
/// suspending and resuming the task, on whatever thread, keeps it intact.
pub struct TaskContext {
    pub stack: Vec<usize>,
}

/// Why a span operation was refused; a refused operation changes nothing.
#[derive(Clone, Copy, Debug, PartialEq, Eq, Structural)]
pub enum SpanError {
    /// The handle names no span of the table.
    UnknownSpan,
    /// The span has already been closed.
    AlreadyClosed,
    /// The span is not the current span of the task.
    NotCurrent,
    /// A child of the span is still open.
    OpenChildren,
    /// The task's current span is closed, so it cannot take a child.
    ParentClosed,
}

/// The later of two instants.
pub open spec fn later(a: u64, b: u64) -> u64 {
    if a >= b { a } else { b }
}

impl TaskContext {
    /// The span that is current in the task, if any.
    pub open spec fn current(&self) -> Option<usize> {
        if self.stack@.len() == 0 {
            None
        } else {
            Some(self.stack@.last())
        }
    }

    /// A task with no current span.
    pub fn new() -> (r: TaskContext)
        ensures
            r.stack@.len() == 0,
    {
        TaskContext { stack: Vec::new() }
    }

    /// A context for a new task started from this one: it begins with the
    /// same current span.
    pub fn fork(&self) -> (r: TaskContext)
        ensures
            r.current() == self.current(),
    {
        let mut stack: Vec<usize> = Vec::new();
        if self.stack.len() > 0 {
            stack.push(self.stack[self.stack.len() - 1]);
        }
        TaskContext { stack }
    }

    /// Executable form of `current`.
    pub fn current_span(&self) -> (r: Option<usize>)
        ensures
            r == self.current(),
    {
        if self.stack.len() == 0 {
            None
        } else {
            Some(self.stack[self.stack.len() - 1])
        }
    }
}

impl SpanTable {
    pub open spec fn len(&self) -> int {
        self.spans@.len() as int
    }

    pub open spec fn is_closed(&self, i: int) -> bool {
        self.spans@[i].end is Some
    }

    pub open spec fn end_of(&self, i: int) -> u64 {
        self.spans@[i].end.unwrap()
    }

    /// Times of span `i` are consistent, and it nests in its parent: the
    /// parent is older, starts no later, and, once closed, closes no earlier
    /// (so every child of a closed span is closed).
    pub open spec fn span_ok(&self, i: int) -> bool {
        let s = self.spans@[i];
        &&& s.start <= self.clock
        &&& (s.end matches Some(e) ==> s.start <= e && e <= self.clock)
        &&& (s.parent matches Some(p) ==> {
            &&& (p as int) < i
            &&& self.spans@[p as int].start <= s.start
            &&& (self.is_closed(p as int) ==> self.is_closed(i) && self.end_of(i) <= self.end_of(
                p as int,
            ))
        })
    }

    pub open spec fn wf(&self) -> bool {
        forall|i: int| 0 <= i < self.len() ==> #[trigger] self.span_ok(i)
    }

    /// `next` extends `self`: no span disappears, what was fixed at a span's
    /// start stays, and a closed span keeps its end and status.
    pub open spec fn grows_into(&self, next: &SpanTable) -> bool {
        &&& self.len() <= next.len()
        &&& self.clock <= next.clock
        &&& forall|i: int|
            #![trigger next.spans@[i]]
            0 <= i < self.len() ==> {
                &&& next.spans@[i].name@ == self.spans@[i].name@
                &&& next.spans@[i].parent == self.spans@[i].parent
                &&& next.spans@[i].start == self.spans@[i].start
                &&& (self.is_closed(i) ==> next.spans@[i].end == self.spans@[i].end
                    && next.spans@[i].status == self.spans@[i].status)
            }
    }

    /// Whether span `i` has a child that is still open.
    pub open spec fn has_open_child(&self, i: int) -> bool {
        exists|j: int|
            #![trigger self.spans@[j]]
            0 <= j < self.len() && self.spans@[j].parent == Some(i as usize) && !self.is_closed(j)
    }

    /// The reason `start_span` refuses to start a span in `ctx`, if any.
    pub open spec fn start_refusal(&self, ctx: &TaskContext) -> Option<SpanError> {
        match ctx.current() {
            None => None,
            Some(p) => if p as int >= self.len() {
                Some(SpanError::UnknownSpan)
            } else if self.is_closed(p as int) {
                Some(SpanError::ParentClosed)
            } else {
                None
            },
        }
    }

    /// The reason `close_span` refuses to close `id` in `ctx`, if any.
    pub open spec fn close_refusal(&self, ctx: &TaskContext, id: usize) -> Option<SpanError> {
        if id as int >= self.len() {
            Some(SpanError::UnknownSpan)
        } else if self.is_closed(id as int) {
            Some(SpanError::AlreadyClosed)
        } else if ctx.current() != Some(id) {
            Some(SpanError::NotCurrent)
        } else if self.has_open_child(id as int) {
            Some(SpanError::OpenChildren)
        } else {
            None
        }
    }

    /// `next` and `next_ctx` are `self` and `ctx` after a new span named
    /// `name` was started at `now` under the task's current span and made
    /// current. The start time is `now`, or the clock if that is later.
    pub open spec fn starts(
        &self,
        next: &SpanTable,
        ctx: &TaskContext,
        next_ctx: &TaskContext,
        name: Seq<char>,
        now: u64,
    ) -> bool {
        let id = self.spans@.len() as usize;
        &&& next.len() == self.len() + 1
        &&& forall|i: int|
            0 <= i < self.len() ==> #[trigger] next.spans@[i] == self.spans@[i]
        &&& next.spans@[id as int].name@ == name
        &&& next.spans@[id as int].parent == ctx.current()
        &&& next.spans@[id as int].start == later(now, self.clock)
        &&& next.spans@[id as int].end is None
        &&& next.spans@[id as int].status == SpanStatus::Unset
        &&& next.clock == later(now, self.clock)
        &&& next_ctx.stack@ == ctx.stack@.push(id)
    }

    /// `next` and `next_ctx` are `self` and `ctx` after span `id` was closed
    /// at `now` with `status`, and the previous current span restored. The
    /// end time is `now`, or the clock if that is later.
    pub open spec fn closes(
        &self,
        next: &SpanTable,
        ctx: &TaskContext,
        next_ctx: &TaskContext,
        id: usize,
        status: SpanStatus,
        now: u64,
    ) -> bool {
        &&& next.len() == self.len()
        &&& forall|i: int|
            0 <= i < self.len() && i != id ==> #[trigger] next.spans@[i] == self.spans@[i]
        &&& next.spans@[id as int].name@ == self.spans@[id as int].name@
        &&& next.spans@[id as int].parent == self.spans@[id as int].parent
        &&& next.spans@[id as int].start == self.spans@[id as int].start
        &&& next.spans@[id as int].end == Some(later(now, self.clock))
        &&& next.spans@[id as int].status == status
        &&& next.clock == later(now, self.clock)
        &&& next_ctx.stack@ == ctx.stack@.drop_last()
    }

    /// An empty table whose clock starts at `now`.
    pub fn new(now: u64) -> (r: SpanTable)
        ensures
            r.wf(),
            r.len() == 0,
            r.clock == now,
    {
        SpanTable { spans: Vec::new(), clock: now }
    }

    pub fn span_count(&self) -> (r: usize)
        ensures
            r as int == self.len(),
    {
        self.spans.len()
    }

    /// Starts span `name` as a child of the task's current span (a root
    /// when there is none) and makes it current. Its start time is `now`,
    /// or the table's clock if that is later.
    pub fn start_span(&mut self, ctx: &mut TaskContext, name: String, now: u64) -> (r: Result<
        usize,
        SpanError,
    >)
        requires
            old(self).wf(),
        ensures
            final(self).wf(),
            old(self).grows_into(final(self)),
            match old(self).start_refusal(old(ctx)) {
                Some(e) => {
                    &&& r == Err::<usize, SpanError>(e)
                    &&& *final(self) == *old(self)
                    &&& *final(ctx) == *old(ctx)
                },
                None => {
                    &&& r == Ok::<usize, SpanError>(old(self).spans@.len() as usize)
                    &&& old(self).starts(final(self), old(ctx), final(ctx), name@, now)
                },
            },
    {
        let parent = ctx.current_span();
        if let Some(p) = parent {
            if p >= self.spans.len() {
                return Err(SpanError::UnknownSpan);
            }
            if self.spans[p].end.is_some() {
                return Err(SpanError::ParentClosed);
            }
        }
        let t = if now >= self.clock { now } else { self.clock };
        let id = self.spans.len();
        let ghost prev = *self;
        self.clock = t;
        self.spans.push(SpanRecord { name, parent, start: t, end: None, status: SpanStatus::Unset });
        ctx.stack.push(id);
        assert forall|i: int| 0 <= i < self.len() implies #[trigger] self.span_ok(i) by {
            if i < prev.len() {
                assert(prev.span_ok(i));
                assert(self.spans@[i] == prev.spans@[i]);
                if let Some(p) = self.spans@[i].parent {
                    assert(self.spans@[p as int] == prev.spans@[p as int]);
                }
            } else if let Some(p) = parent {
                assert(prev.span_ok(p as int));
                assert(self.spans@[p as int] == prev.spans@[p as int]);
            }
        }
        Ok(id)
    }

    /// Scans for an open child of `id`.
    fn find_open_child(&self, id: usize) -> (r: bool)
        ensures
            r == self.has_open_child(id as int),
    {
        let mut j: usize = 0;
        while j < self.spans.len()
            invariant
                j <= self.spans@.len(),
                forall|k: int|
                    #![trigger self.spans@[k]]
                    0 <= k < j ==> !(self.spans@[k].parent == Some(id) && !self.is_closed(k)),
            decreases self.spans@.len() - j,
        {
            if self.spans[j].parent == Some(id) && self.spans[j].end.is_none() {
                return true;
            }
            j = j + 1;
        }
        false
    }

    /// Closes `id`, which must be the task's current span and have no open
    /// child, with `status`; the previous current span becomes current again.
    /// Its end time is `now`, or the table's clock if that is later, so it is
    /// never before its start. A span closes at most once: a second close is
    /// refused with `AlreadyClosed` and records nothing.
    pub fn close_span(&mut self, ctx: &mut TaskContext, id: usize, status: SpanStatus, now: u64) -> (r:
        Result<(), SpanError>)
        requires
            old(self).wf(),
        ensures
            final(self).wf(),
            old(self).grows_into(final(self)),
            match old(self).close_refusal(old(ctx), id) {
                Some(e) => {
                    &&& r == Err::<(), SpanError>(e)
                    &&& *final(self) == *old(self)
                    &&& *final(ctx) == *old(ctx)
                },
                None => {
                    &&& r == Ok::<(), SpanError>(())
                    &&& old(self).closes(final(self), old(ctx), final(ctx), id, status, now)
                },
            },
    {
        if id >= self.spans.len() {
            return Err(SpanError::UnknownSpan);
        }
        if self.spans[id].end.is_some() {
            return Err(SpanError::AlreadyClosed);
        }
        if ctx.current_span() != Some(id) {
            return Err(SpanError::NotCurrent);
        }
        if self.find_open_child(id) {
            return Err(SpanError::OpenChildren);
        }
        let t = if now >= self.clock { now } else { self.clock };
        let ghost prev = *self;
        self.clock = t;
        self.spans[id].end = Some(t);
        self.spans[id].status = status;
        ctx.stack.pop();
        assert forall|i: int| 0 <= i < self.len() implies #[trigger] self.span_ok(i) by {
            assert(prev.span_ok(i));
            if let Some(p) = self.spans@[i].parent {
                if p == id && i != id {
                    assert(!(prev.spans@[i].parent == Some(id) && !prev.is_closed(i)));
                }
            }
        }
        Ok(())
    }
}

/// In a well-formed table a closed span ended no earlier than it started.
pub proof fn lemma_end_not_before_start(t: &SpanTable, i: int)
    requires
        t.wf(),
        0 <= i < t.len(),
        t.is_closed(i),
    ensures
        t.spans@[i].start <= t.end_of(i),
{
    assert(t.span_ok(i));
}

/// Tables only grow: over any two steps, what held after the first step
/// still holds after the second. In particular a span's end time, once set,
/// is never set again.
pub proof fn lemma_grows_transitive(a: &SpanTable, b: &SpanTable, c: &SpanTable)
    requires
        a.grows_into(b),
        b.grows_into(c),
    ensures
        a.grows_into(c),
{
    assert forall|i: int| 0 <= i < a.len() implies {
        &&& (#[trigger] c.spans@[i]).name@ == a.spans@[i].name@
        &&& c.spans@[i].parent == a.spans@[i].parent
        &&& c.spans@[i].start == a.spans@[i].start
        &&& (a.is_closed(i) ==> c.spans@[i].end == a.spans@[i].end && c.spans@[i].status
            == a.spans@[i].status)
    } by {
        let _ = b.spans@[i];
    }
}

/// Nesting survives suspension. A task whose current span is `p` starts
/// span `c`, so `c`'s parent is the task's current span; the table may then
/// grow in any way (the task suspends, other tasks run, it resumes on
/// another thread). In every later well-formed table `c`'s parent is still
/// `p`, and if `p` has closed then `c` closed first.
pub proof fn lemma_nesting_across_suspension(
    ctx: &TaskContext,
    p: usize,
    started: &SpanTable,
    c: int,
    later_table: &SpanTable,
)
    requires
        ctx.current() == Some(p),
        0 <= c < started.len(),
        started.spans@[c].parent == ctx.current(),
        started.grows_into(later_table),
        later_table.wf(),
    ensures
        later_table.spans@[c].parent == Some(p),
        later_table.is_closed(p as int) ==> later_table.is_closed(c) && later_table.end_of(c)
            <= later_table.end_of(p as int),
{
    let _ = later_table.spans@[c];
    assert(later_table.span_ok(c));
}

} // verus!
