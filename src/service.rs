use vstd::prelude::*;
use crate::pipeline::{Emission, Pipeline};
use crate::severity::Severity;
use crate::span::{SpanError, SpanStatus, SpanTable, TaskContext};

verus! {

/// The routes of the service; each runs inside a span of its own name.
#[derive(Clone, Copy, Debug, PartialEq, Eq, Structural)]
pub enum Route {
    Root,
    CauseError,
}

/// Why hashing a password failed.
#[derive(Clone, Copy, Debug, PartialEq, Eq, Structural)]
pub enum HashError {
    /// The cost lies outside the range the algorithm allows.
    CostNotAllowed(u32),
    /// The hash could not be computed (no random salt could be drawn).
    Unavailable,
}

/// Lowest and highest bcrypt cost.
pub const MIN_COST: u32 = 4;

pub const MAX_COST: u32 = 31;

/// Length of a bcrypt hash string.
pub const HASH_LEN: usize = 60;

/// The cost the root route hashes with.
pub const ROOT_HASH_COST: u32 = 4;

/// What hashing `cost` may give: a cost outside [MIN_COST, MAX_COST] always
/// fails, and is the only cause of `CostNotAllowed`; a hash is `HASH_LEN`
/// characters long.
pub open spec fn hash_outcome_ok(cost: u32, r: Result<String, HashError>) -> bool {
    &&& !(MIN_COST <= cost <= MAX_COST) ==> r is Err
    &&& (r matches Ok(h) ==> h@.len() == HASH_LEN)
    &&& (r matches Err(HashError::CostNotAllowed(c)) ==> c == cost && !(MIN_COST <= cost
        <= MAX_COST))
}

/// Relies on bcrypt::hash: it draws a random salt (failing if none can be
/// drawn), refuses a cost outside 4..=31 with `CostNotAllowed(cost)`, and
/// otherwise formats "$2b$", the cost in two digits, "$", 22 salt characters
/// and 31 hash characters, 60 characters in all.
#[verifier::external_body]
fn bcrypt_hash(password: &str, cost: u32) -> (r: Result<String, HashError>)
    ensures
        hash_outcome_ok(cost, r),
{
    match bcrypt::hash(password, cost) {
        Ok(h) => Ok(h),
        Err(bcrypt::BcryptError::CostNotAllowed(c)) => Err(HashError::CostNotAllowed(c)),
        Err(_) => Err(HashError::Unavailable),
    }
}

impl Route {
    /// The name of the span the route runs in.
    pub open spec fn span_name(self) -> Seq<char> {
        match self {
            Route::Root => "root"@,
            Route::CauseError => "cause_error"@,
        }
    }

    pub fn name(self) -> (r: String)
        ensures
            r@ == self.span_name(),
    {
        match self {
            Route::Root => {
                proof {
                    reveal_strlit("root");
                }
                "root".to_owned()
            },
            Route::CauseError => {
                proof {
                    reveal_strlit("cause_error");
                }
                "cause_error".to_owned()
            },
        }
    }
}

/// A fresh span, the last one of a well-formed table, has no child.
proof fn lemma_last_has_no_child(t: &SpanTable, id: usize)
    requires
        t.wf(),
        id as int == t.len() - 1,
    ensures
        !t.has_open_child(id as int),
{
    assert forall|j: int| 0 <= j < t.len() implies !(#[trigger] t.spans@[j].parent == Some(id)
        && !t.is_closed(j)) by {
        assert(t.span_ok(j));
    }
}

/// Opens the span of `route` in the task, at `now`.
pub fn begin_request(table: &mut SpanTable, ctx: &mut TaskContext, route: Route, now: u64) -> (r:
    Result<usize, SpanError>)
    requires
        old(table).wf(),
    ensures
        final(table).wf(),
        old(table).grows_into(final(table)),
        match old(table).start_refusal(old(ctx)) {
            Some(e) => {
                &&& r == Err::<usize, SpanError>(e)
                &&& *final(table) == *old(table)
                &&& *final(ctx) == *old(ctx)
            },
            None => {
                &&& r == Ok::<usize, SpanError>(old(table).spans@.len() as usize)
                &&& old(table).starts(final(table), old(ctx), final(ctx), route.span_name(), now)
            },
        },
{
    table.start_span(ctx, route.name(), now)
}

/// The opening events of `route`, as (severity, message): both routes log
/// that they process the request; the error route then warns.
pub open spec fn opening_events(route: Route) -> Seq<(Severity, Seq<char>)> {
    match route {
        Route::Root => seq![(Severity::Info, "Processing request"@)],
        Route::CauseError => seq![
            (Severity::Info, "Processing request"@),
            (Severity::Warn, "possible error"@),
        ],
    }
}

/// Emits the opening events of `route`, in order, in the task's current
/// span, and reports where each one was delivered.
pub fn open_request(pipeline: &Pipeline, ctx: &TaskContext, route: Route, now: u64) -> (r: Vec<
    Emission,
>)
    ensures
        r@.len() == opening_events(route).len(),
        forall|i: int|
            #![trigger r@[i]]
            0 <= i < r@.len() ==> {
                &&& r@[i].event.severity == opening_events(route)[i].0
                &&& r@[i].event.message@ == opening_events(route)[i].1
                &&& r@[i].event.span == ctx.current()
                &&& r@[i].event.timestamp == now
                &&& pipeline.delivers(r@[i].event.severity, r@[i].delivered@)
            },
{
    let mut r: Vec<Emission> = Vec::new();
    proof {
        reveal_strlit("Processing request");
        reveal_strlit("possible error");
    }
    r.push(pipeline.emit(ctx, Severity::Info, "Processing request".to_owned(), now));
    match route {
        Route::Root => {},
        Route::CauseError => {
            r.push(pipeline.emit(ctx, Severity::Warn, "possible error".to_owned(), now));
        },
    }
    r
}

/// Hashes `password` at `cost` inside a span `name` that brackets exactly
/// the hashing: it starts at `now`, is current while the hash runs, and is
/// closed when it returns, whatever the outcome, at the time `clock` gives,
/// with status `Succeeded` or `Failed` as the hash did. The hash's outcome
/// is handed back unchanged.
pub fn hash_in_span<C: Fn() -> u64>(
    table: &mut SpanTable,
    ctx: &mut TaskContext,
    name: String,
    password: &str,
    cost: u32,
    now: u64,
    clock: C,
) -> (r: Result<Result<String, HashError>, SpanError>)
    requires
        old(table).wf(),
        clock.requires(()),
    ensures
        final(table).wf(),
        old(table).grows_into(final(table)),
        match old(table).start_refusal(old(ctx)) {
            Some(e) => {
                &&& r == Err::<Result<String, HashError>, SpanError>(e)
                &&& *final(table) == *old(table)
                &&& *final(ctx) == *old(ctx)
            },
            None => {
                let id = old(table).spans@.len() as int;
                &&& r matches Ok(h) && hash_outcome_ok(cost, h)
                &&& final(table).len() == old(table).len() + 1
                &&& forall|i: int|
                    0 <= i < old(table).len() ==> #[trigger] final(table).spans@[i] == old(
                        table,
                    ).spans@[i]
                &&& final(table).spans@[id].name@ == name@
                &&& final(table).spans@[id].parent == old(ctx).current()
                &&& final(table).spans@[id].start == crate::span::later(now, old(table).clock)
                &&& final(table).is_closed(id)
                &&& final(table).spans@[id].status == (if r matches Ok(Ok(_)) {
                    SpanStatus::Succeeded
                } else {
                    SpanStatus::Failed
                })
                &&& final(ctx).stack@ == old(ctx).stack@
            },
        },
{
    let ghost t0 = *table;
    let ghost c0 = *ctx;
    let count = table.span_count();
    let id = match table.start_span(ctx, name, now) {
        Ok(id) => id,
        Err(e) => {
            return Err(e);
        },
    };
    let ghost t1 = *table;
    let ghost c1 = *ctx;
    let h = bcrypt_hash(password, cost);
    let status = if h.is_ok() {
        SpanStatus::Succeeded
    } else {
        SpanStatus::Failed
    };
    let end = clock();
    proof {
        lemma_last_has_no_child(&t1, id);
        assert(c1.stack@.last() == id && id == count);
    }
    let closed = table.close_span(ctx, id, status, end);
    proof {
        assert(closed is Ok);
        crate::span::lemma_grows_transitive(&t0, &t1, &*table);
        assert(c1.stack@.drop_last() =~= c0.stack@);
        assert forall|i: int| 0 <= i < t0.len() implies #[trigger] table.spans@[i] == t0.spans@[
            i
        ] by {
            assert(t1.spans@[i] == t0.spans@[i]);
        }
    }
    Ok(h)
}

/// Opens the span that wraps a database query, at `now`.
pub fn begin_query(table: &mut SpanTable, ctx: &mut TaskContext, now: u64) -> (r: Result<
    usize,
    SpanError,
>)
    requires
        old(table).wf(),
    ensures
        final(table).wf(),
        old(table).grows_into(final(table)),
        match old(table).start_refusal(old(ctx)) {
            Some(e) => {
                &&& r == Err::<usize, SpanError>(e)
                &&& *final(table) == *old(table)
                &&& *final(ctx) == *old(ctx)
            },
            None => {
                &&& r == Ok::<usize, SpanError>(old(table).spans@.len() as usize)
                &&& old(table).starts(final(table), old(ctx), final(ctx), "fetch row"@, now)
            },
        },
{
    proof {
        reveal_strlit("fetch row");
    }
    table.start_span(ctx, "fetch row".to_owned(), now)
}

/// Closes the query span `span` at `now` once the query has completed: with
/// status `Succeeded` if it succeeded; otherwise with `Failed`, and an
/// `Error` event carrying `outcome`'s message is emitted in the span that is
/// current afterwards. The query's own outcome is left to the caller.
pub fn finish_query(
    table: &mut SpanTable,
    ctx: &mut TaskContext,
    pipeline: &Pipeline,
    span: usize,
    outcome: Result<(), String>,
    now: u64,
) -> (r: Result<Option<Emission>, SpanError>)
    requires
        old(table).wf(),
    ensures
        final(table).wf(),
        old(table).grows_into(final(table)),
        match old(table).close_refusal(old(ctx), span) {
            Some(e) => {
                &&& r == Err::<Option<Emission>, SpanError>(e)
                &&& *final(table) == *old(table)
                &&& *final(ctx) == *old(ctx)
            },
            None => {
                &&& old(table).closes(
                    final(table),
                    old(ctx),
                    final(ctx),
                    span,
                    if outcome is Ok {
                        SpanStatus::Succeeded
                    } else {
                        SpanStatus::Failed
                    },
                    now,
                )
                &&& match outcome {
                    Ok(_) => r matches Ok(None),
                    Err(m) => r matches Ok(Some(em)) && {
                        &&& em.event.severity == Severity::Error
                        &&& em.event.message@ == m@
                        &&& em.event.span == final(ctx).current()
                        &&& em.event.timestamp == final(table).clock
                        &&& pipeline.delivers(Severity::Error, em.delivered@)
                    },
                }
            },
        },
{
    let status = if outcome.is_ok() {
        SpanStatus::Succeeded
    } else {
        SpanStatus::Failed
    };
    match table.close_span(ctx, span, status, now) {
        Err(e) => Err(e),
        Ok(()) => match outcome {
            Ok(()) => Ok(None),
            Err(m) => Ok(Some(pipeline.emit(ctx, Severity::Error, m, table.clock))),
        },
    }
}

} // verus!
