//! The disconnect monitor: the forwarding bridge between the converted
//! engine stream and the HTTP response body.
//!
//! Each successful event is forwarded to the consumer; a transport error
//! becomes a terminal SSE event tagged `error` carrying the message as a
//! comment, after which nothing further is consumed. The consumer accepts
//! only a bounded number of sends before dropping (modeling the client
//! connection); on the first refused send the monitor relays exactly one
//! cancellation upstream and consumes nothing further. On clean end of
//! stream it offers the `[DONE]` sentinel, and marks the inflight guard
//! successful only if the sentinel was accepted.

use vstd::prelude::*;
use vstd::string::StringExecFns;
use crate::context::RequestContext;
use crate::metrics::InflightGuard;
use crate::sse::{is_done_sentinel, SseEvent, SseEventView};

verus! {

/// The shapes of the converter results handed to the monitor.
pub open spec fn results_view(s: Seq<Result<SseEvent, String>>) -> Seq<
    Result<SseEventView, Seq<char>>,
> {
    Seq::new(
        s.len(),
        |i: int|
            match s[i] {
                Ok(e) => Ok(e@),
                Err(m) => Err(m@),
            },
    )
}

/// The event the monitor forwards for one transport error: tagged `error`,
/// with the message as the single comment line.
pub open spec fn error_event(msg: Seq<char>) -> SseEventView {
    SseEventView { data: None, event: Some("error"@), comments: seq![msg] }
}

/// The event the monitor forwards for one converter result.
pub open spec fn monitor_event(item: Result<SseEventView, Seq<char>>) -> SseEventView {
    match item {
        Ok(e) => e,
        Err(msg) => error_event(msg),
    }
}

/// The events the monitor forwards for the results it consumes, in order.
pub open spec fn monitor_events(items: Seq<Result<SseEventView, Seq<char>>>) -> Seq<SseEventView> {
    Seq::new(items.len(), |i: int| monitor_event(items[i]))
}

/// The position of the first error signal, or the length if there is none.
pub open spec fn first_error_of(items: Seq<Result<SseEventView, Seq<char>>>) -> int
    decreases items.len(),
{
    if items.len() == 0 {
        0
    } else if items[0] is Err {
        0
    } else {
        1 + first_error_of(items.drop_first())
    }
}

/// How many sends the monitor attempts before the stream is over: an error
/// signal is terminal, so nothing past the first one is consumed.
pub open spec fn attempted_of(items: Seq<Result<SseEventView, Seq<char>>>) -> int {
    let fe = first_error_of(items);
    if fe < items.len() {
        fe + 1
    } else {
        items.len() as int
    }
}

/// The first error stands no earlier than any all-successful prefix.
proof fn lemma_first_error_ge(items: Seq<Result<SseEventView, Seq<char>>>, k: int)
    requires
        0 <= k <= items.len(),
        forall|t: int| 0 <= t < k ==> items[t] is Ok,
    ensures
        first_error_of(items) >= k,
    decreases k,
{
    if k > 0 {
        assert(items[0] is Ok);
        assert forall|t: int| 0 <= t < k - 1 implies items.drop_first()[t] is Ok by {
            assert(items.drop_first()[t] == items[t + 1]);
        }
        lemma_first_error_ge(items.drop_first(), k - 1);
    } else {
        lemma_first_error_bounds(items);
    }
}

/// The first error's position is at most the length, and is an error.
proof fn lemma_first_error_bounds(items: Seq<Result<SseEventView, Seq<char>>>)
    ensures
        0 <= first_error_of(items) <= items.len(),
        first_error_of(items) < items.len() ==> items[first_error_of(items)] is Err,
    decreases items.len(),
{
    if items.len() > 0 && !(items[0] is Err) {
        lemma_first_error_bounds(items.drop_first());
    }
}

/// An error right after an all-successful prefix is the first one.
proof fn lemma_first_error_at(items: Seq<Result<SseEventView, Seq<char>>>, k: int)
    requires
        0 <= k < items.len(),
        forall|t: int| 0 <= t < k ==> items[t] is Ok,
        items[k] is Err,
    ensures
        first_error_of(items) == k,
    decreases k,
{
    if k > 0 {
        assert(items[0] is Ok);
        assert forall|t: int| 0 <= t < k - 1 implies items.drop_first()[t] is Ok by {
            assert(items.drop_first()[t] == items[t + 1]);
        }
        assert(items.drop_first()[k - 1] is Err);
        lemma_first_error_at(items.drop_first(), k - 1);
    }
}

/// The `[DONE]` sentinel's shape.
pub open spec fn done_view() -> SseEventView {
    SseEventView { data: Some("[DONE]"@), event: None, comments: Seq::empty() }
}

/// What the consumer receives when it accepts `accepts` sends: every
/// consumed result's event up to the consumer's limit; the sentinel follows
/// if and only if the stream ended without an error signal and the consumer
/// was still reading.
pub open spec fn spec_monitor_forwarded(
    items: Seq<Result<SseEventView, Seq<char>>>,
    accepts: int,
) -> Seq<SseEventView> {
    let fe = first_error_of(items);
    let k = attempted_of(items);
    if fe == items.len() && items.len() < accepts {
        monitor_events(items).push(done_view())
    } else if k <= accepts {
        monitor_events(items).take(k)
    } else {
        monitor_events(items).take(accepts)
    }
}

/// Whether the monitor marks the request successful: the stream ended
/// without an error signal and the consumer accepted the sentinel.
pub open spec fn monitor_marks_ok(
    items: Seq<Result<SseEventView, Seq<char>>>,
    accepts: int,
) -> bool {
    first_error_of(items) == items.len() && items.len() < accepts
}

/// Whether the monitor detects a disconnect: the consumer refused a send
/// while the monitor still had something to send.
pub open spec fn monitor_stops_upstream(
    items: Seq<Result<SseEventView, Seq<char>>>,
    accepts: int,
) -> bool {
    attempted_of(items) > accepts
}

/// A monitored stream is never both cleanly completed and dropped: marking
/// the request successful and cancelling upstream exclude each other.
pub proof fn lemma_monitor_outcomes_exclusive(
    items: Seq<Result<SseEventView, Seq<char>>>,
    accepts: int,
)
    ensures
        !(monitor_marks_ok(items, accepts) && monitor_stops_upstream(items, accepts)),
{
}

/// Where the `[DONE]` sentinel stands: exactly at the end, exactly when the
/// stream ended cleanly and the consumer was still reading; never anywhere
/// else. This assumes no consumed result's own event looks like the
/// sentinel.
pub proof fn lemma_done_sentinel_placement(
    items: Seq<Result<SseEventView, Seq<char>>>,
    accepts: int,
)
    requires
        0 <= accepts,
        forall|i: int|
            0 <= i < items.len() ==> !is_done_sentinel(#[trigger] monitor_event(items[i])),
    ensures
        monitor_marks_ok(items, accepts) ==> ({
            let fwd = spec_monitor_forwarded(items, accepts);
            &&& fwd.len() == items.len() + 1
            &&& is_done_sentinel(fwd.last())
            &&& forall|i: int| 0 <= i < fwd.len() - 1 ==> !is_done_sentinel(#[trigger] fwd[i])
        }),
        !monitor_marks_ok(items, accepts) ==> (forall|i: int|
            0 <= i < spec_monitor_forwarded(items, accepts).len() ==> !is_done_sentinel(
                #[trigger] spec_monitor_forwarded(items, accepts)[i],
            )),
{
    reveal_strlit("[DONE]");
    lemma_first_error_bounds(items);
    let fwd = spec_monitor_forwarded(items, accepts);
    if monitor_marks_ok(items, accepts) {
        assert(is_done_sentinel(done_view()));
        assert(fwd.last() == done_view());
        assert forall|i: int| 0 <= i < fwd.len() - 1 implies !is_done_sentinel(
            #[trigger] fwd[i],
        ) by {
            assert(fwd[i] == monitor_event(items[i]));
        }
    } else {
        assert forall|i: int| 0 <= i < fwd.len() implies !is_done_sentinel(#[trigger] fwd[i]) by {
            assert(fwd[i] == monitor_events(items)[i]);
            assert(monitor_events(items)[i] == monitor_event(items[i]));
        }
    }
}

/// Converter results with matching shapes have those shapes as their view.
pub proof fn lemma_results_view_of_match(
    rs: Seq<Result<SseEvent, String>>,
    ss: Seq<Result<SseEventView, Seq<char>>>,
)
    requires
        crate::convert::convert_results_match(rs, ss),
    ensures
        results_view(rs) == ss,
{
    assert forall|i: int| 0 <= i < rs.len() implies results_view(rs)[i] == ss[i] by {
        assert(crate::convert::convert_result_matches(rs[i], ss[i]));
    }
    assert(results_view(rs) =~= ss);
}

/// What the monitor does with one converter result: forward its event and
/// keep draining, or forward a terminal error frame and stop.
pub enum MonitorStep {
    Forward(SseEvent),
    Terminal(SseEvent),
}

/// Decides one step of the monitor: a successful event is forwarded; an
/// error signal becomes the terminal `error` frame, per [`monitor_event`].
pub fn monitor_step(item: Result<SseEvent, String>) -> (r: MonitorStep)
    ensures
        match (r, item) {
            (MonitorStep::Forward(e), Ok(oe)) => e == oe,
            (MonitorStep::Terminal(e), Err(m)) => e@ == error_event(m@),
            _ => false,
        },
{
    match item {
        Ok(e) => MonitorStep::Forward(e),
        Err(err) => {
            let mut comments: Vec<String> = Vec::new();
            comments.push(err);
            let frame = SseEvent {
                data: None,
                event: Some(String::from_str("error")),
                comments,
            };
            proof {
                assert(frame@ =~~= error_event(frame@.comments[0]));
            }
            MonitorStep::Terminal(frame)
        },
    }
}

/// Settles the inflight guard once the sentinel was offered: only an
/// accepted sentinel marks the request successful.
pub fn settle_after_sentinel(accepted: bool, inflight_guard: &mut InflightGuard)
    ensures
        final(inflight_guard).marked_ok == (old(inflight_guard).marked_ok || accepted),
        final(inflight_guard).model == old(inflight_guard).model,
        final(inflight_guard).endpoint == old(inflight_guard).endpoint,
        final(inflight_guard).streaming == old(inflight_guard).streaming,
{
    if accepted {
        inflight_guard.mark_ok();
    }
}

/// What the monitor leaves behind: the events the consumer received and the
/// released inflight guard.
#[derive(Debug)]
pub struct MonitorOutcome {
    pub forwarded: Vec<SseEvent>,
    pub inflight_guard: InflightGuard,
}

/// Drains the converted stream into the consumer, which accepts the first
/// `accepts` sends and refuses the rest.
///
/// Forwards per [`spec_monitor_forwarded`]: an error signal becomes a
/// terminal `error` event. Relays exactly one cancellation through the
/// context if and only if the consumer dropped while sends remained; marks
/// the guard successful if and only if the stream ended cleanly and the
/// consumer accepted the `[DONE]` sentinel.
pub fn monitor_for_disconnects(
    items: Vec<Result<SseEvent, String>>,
    accepts: usize,
    context: &mut RequestContext,
    inflight_guard: InflightGuard,
) -> (r: MonitorOutcome)
    requires
        old(context).stop_calls < u64::MAX,
    ensures
        r.forwarded.deep_view() == spec_monitor_forwarded(results_view(items@), accepts as int),
        r.inflight_guard.marked_ok == (inflight_guard.marked_ok || monitor_marks_ok(
            results_view(items@),
            accepts as int,
        )),
        r.inflight_guard.model == inflight_guard.model,
        r.inflight_guard.endpoint == inflight_guard.endpoint,
        r.inflight_guard.streaming == inflight_guard.streaming,
        final(context).stop_calls == old(context).stop_calls + (if monitor_stops_upstream(
            results_view(items@),
            accepts as int,
        ) {
            1int
        } else {
            0int
        }),
        final(context).id == old(context).id,
{
    let ghost dv = results_view(items@);
    let mut guard = inflight_guard;
    let mut forwarded: Vec<SseEvent> = Vec::new();
    let n = items.len();
    let mut rest = items;
    let mut k: usize = 0;
    while k < n
        invariant
            k <= n,
            k <= accepts,
            n == dv.len(),
            n == items@.len(),
            dv == results_view(items@),
            rest@.len() == n - k,
            results_view(rest@) =~= dv.subrange(k as int, n as int),
            forall|t: int| 0 <= t < k ==> dv[t] is Ok,
            forwarded.deep_view() =~= monitor_events(dv).take(k as int),
            context.stop_calls == old(context).stop_calls,
            context.id == old(context).id,
            old(context).stop_calls < u64::MAX,
            guard == inflight_guard,
        decreases n - k,
    {
        let ghost rest_before = rest@;
        let item = rest.remove(0);
        proof {
            assert(results_view(rest_before)[0] == dv[k as int]);
            assert(rest@ =~= rest_before.subrange(1, rest_before.len() as int));
            assert forall|i: int| 0 <= i < rest@.len() implies results_view(rest@)[i]
                == dv.subrange(k + 1, n as int)[i] by {
                assert(rest@[i] == rest_before[1 + i]);
                assert(results_view(rest_before)[1 + i] == dv.subrange(k as int, n as int)[1 + i]);
            }
            assert(results_view(rest@) =~= dv.subrange(k + 1, n as int));
        }
        let terminal: bool;
        let event = match monitor_step(item) {
            MonitorStep::Forward(e) => {
                terminal = false;
                e
            },
            MonitorStep::Terminal(e) => {
                terminal = true;
                e
            },
        };
        proof {
            assert(event@ =~~= monitor_event(dv[k as int]));
        }
        if k < accepts {
            let ghost prev_fwd = forwarded.deep_view();
            let ghost prev_vec = forwarded@;
            forwarded.push(event);
            proof {
                assert(prev_fwd.len() == prev_vec.len());
                assert(prev_fwd == monitor_events(dv).take(k as int));
                assert(prev_vec.len() == k);
                assert forall|i: int| 0 <= i < k + 1 implies forwarded.deep_view()[i]
                    == monitor_events(dv).take(k + 1)[i] by {
                    assert(forwarded@ == prev_vec.push(event));
                    if i < k {
                        assert(forwarded@[i] == prev_vec[i]);
                        assert(forwarded.deep_view()[i] == forwarded@[i].deep_view());
                        assert(prev_fwd[i] == prev_vec[i].deep_view());
                        assert(prev_fwd[i] == monitor_events(dv).take(k as int)[i]);
                    } else {
                        assert(forwarded@[i] == event);
                        assert(forwarded.deep_view()[i] == forwarded@[i].deep_view());
                    }
                }
                assert(forwarded.deep_view() =~= monitor_events(dv).take(k + 1));
            }
            if terminal {
                // An error signal closes the stream: no sentinel, no success.
                proof {
                    lemma_first_error_at(dv, k as int);
                    assert(forwarded.deep_view() =~= spec_monitor_forwarded(dv, accepts as int));
                }
                return MonitorOutcome { forwarded, inflight_guard: guard };
            }
            k += 1;
        } else {
            // The consumer dropped: relay one cancellation and stop draining.
            context.stop_generating();
            proof {
                lemma_first_error_ge(dv, k as int);
                lemma_first_error_bounds(dv);
                assert(attempted_of(dv) > accepts);
                assert(forwarded.deep_view() =~= spec_monitor_forwarded(dv, accepts as int));
            }
            return MonitorOutcome { forwarded, inflight_guard: guard };
        }
    }
    proof {
        lemma_first_error_ge(dv, n as int);
        lemma_first_error_bounds(dv);
        assert(first_error_of(dv) == n);
    }
    // Stream completed cleanly: offer the sentinel; only its acceptance
    // marks success.
    if n < accepts {
        forwarded.push(SseEvent::done_sentinel());
        guard.mark_ok();
        proof {
            assert(monitor_events(dv).take(n as int) =~= monitor_events(dv));
            assert(forwarded.deep_view() =~~= monitor_events(dv).push(done_view()));
        }
    }
    MonitorOutcome { forwarded, inflight_guard: guard }
}

} // verus!
