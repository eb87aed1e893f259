use trace_pipeline::exporter::BatchQueue;
use trace_pipeline::pipeline::{fallback_reports, Event, Pipeline};
use trace_pipeline::sampling::{count_sampled, sample_root, sample_span, SamplingRatio};
use trace_pipeline::service::{
    begin_query, begin_request, finish_query, hash_in_span, open_request, HashError, Route,
    ROOT_HASH_COST,
};
use trace_pipeline::severity::Severity;
use trace_pipeline::span::{SpanError, SpanStatus, SpanTable, TaskContext};

const STDOUT: u64 = 1;
const REMOTE: u64 = 2;

fn service_pipeline() -> Pipeline {
    let mut p = Pipeline::new(Severity::Info);
    p.register(STDOUT, Severity::Warn);
    p.register(REMOTE, Severity::Info);
    p
}

fn event(severity: Severity) -> Event {
    Event { severity, message: "m".to_string(), span: None, timestamp: 0 }
}

/// A small deterministic generator of trace ids from a seed.
fn trace_ids(seed: u64, n: usize) -> Vec<u128> {
    let mut state = seed;
    let mut out = Vec::new();
    for _ in 0..n {
        state = state.wrapping_mul(6364136223846793005).wrapping_add(1442695040888963407);
        let hi = state;
        state = state.wrapping_mul(6364136223846793005).wrapping_add(1442695040888963407);
        out.push(((hi as u128) << 64) | state as u128);
    }
    out
}

#[test]
fn severity_order() {
    assert!(Severity::Error.is_at_least(Severity::Warn));
    assert!(Severity::Warn.is_at_least(Severity::Warn));
    assert!(!Severity::Info.is_at_least(Severity::Warn));
    assert!(!Severity::Trace.is_at_least(Severity::Debug));
    assert_eq!(Severity::Trace.level(), 0);
    assert_eq!(Severity::Error.level(), 4);
}

#[test]
fn sink_sees_event_only_past_gate_and_threshold() {
    let p = service_pipeline();
    assert_eq!(p.dispatch(&event(Severity::Info)), vec![false, true]);
    assert_eq!(p.dispatch(&event(Severity::Warn)), vec![true, true]);
    assert_eq!(p.dispatch(&event(Severity::Error)), vec![true, true]);
}

#[test]
fn global_gate_comes_first() {
    let mut p = Pipeline::new(Severity::Info);
    p.register(7, Severity::Trace);
    assert_eq!(p.dispatch(&event(Severity::Debug)), vec![false]);
    assert!(!p.passes_gate(Severity::Debug));
    assert!(p.passes_gate(Severity::Info));
}

#[test]
fn empty_chain_delivers_nowhere() {
    let p = Pipeline::new(Severity::Trace);
    assert!(p.dispatch(&event(Severity::Error)).is_empty());
}

#[test]
fn dispatching_twice_gives_same_delivery() {
    let p = service_pipeline();
    let e = event(Severity::Warn);
    let first = p.dispatch(&e);
    let second = p.dispatch(&e);
    assert_eq!(first, second);
    assert_eq!(p.sinks.len(), 2);
}

#[test]
fn failed_sink_is_reported_alone() {
    let r = fallback_reports(&vec![true, true, false], &vec![false, true, false]);
    assert_eq!(r, vec![true, false, false]);
}

#[test]
fn emitted_event_carries_current_span() {
    let p = service_pipeline();
    let mut t = SpanTable::new(0);
    let mut ctx = TaskContext::new();
    let e = p.emit(&ctx, Severity::Warn, "outside".to_string(), 1);
    assert_eq!(e.event.span, None);
    let id = t.start_span(&mut ctx, "s".to_string(), 2).unwrap();
    let e = p.emit(&ctx, Severity::Warn, "inside".to_string(), 3);
    assert_eq!(e.event.span, Some(id));
    assert_eq!(e.event.message, "inside");
    assert_eq!(e.delivered, vec![true, true]);
}

#[test]
fn span_closes_once_and_never_before_start() {
    let mut t = SpanTable::new(100);
    let mut ctx = TaskContext::new();
    let id = t.start_span(&mut ctx, "s".to_string(), 50).unwrap();
    assert_eq!(t.spans[id].start, 100);
    assert_eq!(t.close_span(&mut ctx, id, SpanStatus::Succeeded, 20), Ok(()));
    assert_eq!(t.spans[id].end, Some(100));
    assert_eq!(ctx.current_span(), None);
    ctx.stack.push(id);
    assert_eq!(t.close_span(&mut ctx, id, SpanStatus::Failed, 500), Err(SpanError::AlreadyClosed));
    assert_eq!(t.spans[id].end, Some(100));
    assert_eq!(t.spans[id].status, SpanStatus::Succeeded);
    assert_eq!(t.clock, 100);
}

#[test]
fn close_refusals() {
    let mut t = SpanTable::new(0);
    let mut ctx = TaskContext::new();
    assert_eq!(t.close_span(&mut ctx, 0, SpanStatus::Succeeded, 1), Err(SpanError::UnknownSpan));
    let p = t.start_span(&mut ctx, "p".to_string(), 1).unwrap();
    let mut other = ctx.fork();
    let c = t.start_span(&mut other, "c".to_string(), 2).unwrap();
    assert_eq!(t.spans[c].parent, Some(p));
    assert_eq!(t.close_span(&mut ctx, c, SpanStatus::Succeeded, 3), Err(SpanError::NotCurrent));
    assert_eq!(t.close_span(&mut ctx, p, SpanStatus::Succeeded, 3), Err(SpanError::OpenChildren));
    assert_eq!(t.close_span(&mut other, c, SpanStatus::Succeeded, 4), Ok(()));
    assert_eq!(t.close_span(&mut ctx, p, SpanStatus::Succeeded, 5), Ok(()));
    assert!(t.spans[c].end.unwrap() <= t.spans[p].end.unwrap());
    let mut stale = TaskContext::new();
    stale.stack.push(p);
    assert_eq!(t.start_span(&mut stale, "late".to_string(), 6), Err(SpanError::ParentClosed));
    stale.stack.push(9);
    assert_eq!(t.start_span(&mut stale, "lost".to_string(), 6), Err(SpanError::UnknownSpan));
    assert_eq!(t.span_count(), 2);
}

#[test]
fn nesting_survives_suspension() {
    let mut t = SpanTable::new(0);
    let mut task_a = TaskContext::new();
    let mut task_b = TaskContext::new();
    let p = t.start_span(&mut task_a, "P".to_string(), 1).unwrap();
    // task A suspends; task B runs on the same table
    let q = t.start_span(&mut task_b, "Q".to_string(), 2).unwrap();
    // task A resumes and starts its child
    let c = t.start_span(&mut task_a, "C".to_string(), 3).unwrap();
    assert_eq!(t.spans[c].parent, Some(p));
    assert_eq!(t.spans[q].parent, None);
    assert_eq!(t.close_span(&mut task_b, q, SpanStatus::Succeeded, 4), Ok(()));
    assert_eq!(t.close_span(&mut task_a, c, SpanStatus::Succeeded, 5), Ok(()));
    assert_eq!(task_a.current_span(), Some(p));
    assert_eq!(t.close_span(&mut task_a, p, SpanStatus::Succeeded, 6), Ok(()));
    assert_eq!(t.spans[c].parent, Some(p));
    assert!(t.spans[c].end.unwrap() <= t.spans[p].end.unwrap());
}

#[test]
fn ratio_must_lie_in_unit_interval() {
    assert!(SamplingRatio::new(1, 0).is_none());
    assert!(SamplingRatio::new(3, 2).is_none());
    assert_eq!(SamplingRatio::new(1, 2), Some(SamplingRatio { num: 1, den: 2 }));
}

#[test]
fn ratio_zero_exports_no_root() {
    let r = SamplingRatio::new(0, 1).unwrap();
    assert_eq!(count_sampled(&trace_ids(42, 1000), &r), 0);
}

#[test]
fn ratio_one_exports_every_root() {
    let r = SamplingRatio::new(1, 1).unwrap();
    assert_eq!(count_sampled(&trace_ids(42, 1000), &r), 1000);
    assert!(sample_root(u128::MAX, &r));
}

#[test]
fn half_ratio_is_reproducible() {
    let r = SamplingRatio::new(1, 2).unwrap();
    let ids = trace_ids(7, 1000);
    let first: Vec<bool> = ids.iter().map(|i| sample_root(*i, &r)).collect();
    let second: Vec<bool> = trace_ids(7, 1000).iter().map(|i| sample_root(*i, &r)).collect();
    assert_eq!(first, second);
    let n = count_sampled(&ids, &r);
    assert!(n > 0 && n < 1000);
}

#[test]
fn half_ratio_threshold() {
    let r = SamplingRatio::new(1, 2).unwrap();
    // draw = low 64 bits / 2; bound = 2^62
    assert!(sample_root((1u128 << 63) - 2, &r));
    assert!(!sample_root(1u128 << 63, &r));
    assert!(!sample_root((1u128 << 64) + (1u128 << 63), &r));
    assert!(sample_root(1u128 << 64, &r));
}

#[test]
fn child_inherits_root_decision() {
    let r = SamplingRatio::new(0, 1).unwrap();
    assert!(sample_span(Some(true), 5, &r));
    assert!(!sample_span(None, 5, &r));
    let all = SamplingRatio::new(1, 1).unwrap();
    assert!(!sample_span(Some(false), 5, &all));
}

#[test]
fn warn_reaches_stdout_and_both_reach_remote() {
    let p = service_pipeline();
    let mut t = SpanTable::new(0);
    let mut ctx = TaskContext::new();
    let span = begin_request(&mut t, &mut ctx, Route::CauseError, 1).unwrap();
    assert_eq!(t.spans[span].name, "cause_error");
    let events = open_request(&p, &ctx, Route::CauseError, 2);
    assert_eq!(events.len(), 2);
    assert_eq!(events[0].event.severity, Severity::Info);
    assert_eq!(events[0].event.message, "Processing request");
    assert_eq!(events[1].event.severity, Severity::Warn);
    assert_eq!(events[1].event.message, "possible error");
    let stdout: Vec<&str> =
        events.iter().filter(|e| e.delivered[0]).map(|e| e.event.message.as_str()).collect();
    let remote: Vec<&str> =
        events.iter().filter(|e| e.delivered[1]).map(|e| e.event.message.as_str()).collect();
    assert_eq!(stdout, vec!["possible error"]);
    assert_eq!(remote, vec!["Processing request", "possible error"]);
    assert!(events.iter().all(|e| e.event.span == Some(span)));
}

#[test]
fn root_route_logs_once() {
    let p = service_pipeline();
    let events = open_request(&p, &TaskContext::new(), Route::Root, 0);
    assert_eq!(events.len(), 1);
    assert_eq!(events[0].event.message, "Processing request");
    assert_eq!(events[0].delivered, vec![false, true]);
    assert_eq!(Route::Root.name(), "root");
}

#[test]
fn hashing_runs_in_a_closed_span() {
    let mut t = SpanTable::new(0);
    let mut ctx = TaskContext::new();
    let root = begin_request(&mut t, &mut ctx, Route::Root, 1).unwrap();
    let h = hash_in_span(&mut t, &mut ctx, "some process".to_string(), "password", ROOT_HASH_COST, 2, || 9)
        .unwrap()
        .unwrap();
    assert_eq!(h.len(), 60);
    assert!(h.starts_with("$2b$04$"));
    assert_eq!(t.spans.len(), 2);
    assert_eq!(t.spans[1].name, "some process");
    assert_eq!(t.spans[1].parent, Some(root));
    assert_eq!(t.spans[1].end, Some(9));
    assert_eq!(t.spans[1].status, SpanStatus::Succeeded);
    assert_eq!(ctx.current_span(), Some(root));
}

#[test]
fn bad_cost_closes_span_as_failed() {
    let mut t = SpanTable::new(0);
    let mut ctx = TaskContext::new();
    let r = hash_in_span(&mut t, &mut ctx, "h".to_string(), "password", 3, 1, || 0).unwrap();
    assert_eq!(r, Err(HashError::CostNotAllowed(3)));
    assert_eq!(t.spans[0].status, SpanStatus::Failed);
    assert_eq!(t.spans[0].end, Some(1));
    assert_eq!(ctx.current_span(), None);
}

#[test]
fn failed_query_emits_error_event() {
    let p = service_pipeline();
    let mut t = SpanTable::new(0);
    let mut ctx = TaskContext::new();
    let req = begin_request(&mut t, &mut ctx, Route::CauseError, 1).unwrap();
    let q = begin_query(&mut t, &mut ctx, 2).unwrap();
    assert_eq!(t.spans[q].name, "fetch row");
    assert_eq!(t.spans[q].parent, Some(req));
    let r = finish_query(&mut t, &mut ctx, &p, q, Err("Error: syntax".to_string()), 3).unwrap();
    let em = r.unwrap();
    assert_eq!(em.event.severity, Severity::Error);
    assert_eq!(em.event.message, "Error: syntax");
    assert_eq!(em.event.span, Some(req));
    assert_eq!(em.delivered, vec![true, true]);
    assert_eq!(t.spans[q].status, SpanStatus::Failed);
    assert_eq!(t.spans[q].end, Some(3));
}

#[test]
fn successful_query_emits_nothing() {
    let p = service_pipeline();
    let mut t = SpanTable::new(0);
    let mut ctx = TaskContext::new();
    let q = begin_query(&mut t, &mut ctx, 2).unwrap();
    assert!(finish_query(&mut t, &mut ctx, &p, q, Ok(()), 4).unwrap().is_none());
    assert_eq!(t.spans[q].status, SpanStatus::Succeeded);
    assert_eq!(
        finish_query(&mut t, &mut ctx, &p, q, Ok(()), 5).err(),
        Some(SpanError::AlreadyClosed)
    );
}

#[test]
fn queue_rejects_bad_sizes() {
    assert!(BatchQueue::new(4, 0, 10, 0).is_none());
    assert!(BatchQueue::new(4, 5, 10, 0).is_none());
}

#[test]
fn queue_flushes_on_size() {
    let mut q = BatchQueue::new(4, 2, 100, 0).unwrap();
    assert!(q.push(10));
    assert!(!q.batch_due(1));
    assert!(q.take_batch(1).is_empty());
    assert!(q.push(11));
    assert!(q.push(12));
    assert_eq!(q.take_batch(2), vec![10, 11]);
    assert_eq!(q.pending, vec![12]);
    assert_eq!(q.last_flush, 2);
}

#[test]
fn queue_flushes_on_delay() {
    let mut q = BatchQueue::new(4, 3, 100, 0).unwrap();
    assert!(q.push(1));
    assert!(!q.batch_due(99));
    assert_eq!(q.take_batch(100), vec![1]);
    assert!(q.pending.is_empty());
}

#[test]
fn full_queue_drops() {
    let mut q = BatchQueue::new(2, 2, 100, 0).unwrap();
    assert!(q.push(1));
    assert!(q.push(2));
    assert!(!q.push(3));
    assert_eq!(q.dropped, 1);
    assert_eq!(q.pending, vec![1, 2]);
}
