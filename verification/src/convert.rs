//! The event converter: a pure transform from an annotated engine item to a
//! Server-Sent Event or a terminal error signal, parameterized by the
//! per-request metric collector.
//!
//! Rules, in order: a metric annotation is observed by the collector and
//! erased from the outgoing copy; payload data is serialized as a JSON
//! string into the event's data field; an `error` event tag turns the
//! comments into a terminal error; any other tag becomes the SSE event
//! name; comment lines are forwarded in order.

use vstd::prelude::*;
use vstd::string::StringExecFns;
use crate::metrics::{CollectorView, ResponseMetricCollector, ResponseObservation};
use crate::protocols::{spec_metrics_of, Annotated, AnnotatedView, EventConverter, LlmMetrics};
use crate::sse::{SseEvent, SseEventView};
use crate::text::{json_quote, json_quoted, str_eq};

verus! {

/// Comments joined by `" -- "`.
pub open spec fn join_comments_spec(cs: Seq<Seq<char>>) -> Seq<char>
    decreases cs.len(),
{
    if cs.len() == 0 {
        Seq::empty()
    } else if cs.len() == 1 {
        cs[0]
    } else {
        join_comments_spec(cs.drop_last()) + " -- "@ + cs.last()
    }
}

/// The error message of an item tagged `error`: its comments joined by
/// `" -- "`, or `unspecified error` if it carries none.
pub open spec fn error_message_of(comment: Option<Seq<Seq<char>>>) -> Seq<char> {
    match comment {
        Some(cs) => join_comments_spec(cs),
        None => "unspecified error"@,
    }
}

/// What the collector looks like after observing a metric annotation.
pub open spec fn spec_observe(c: CollectorView, m: LlmMetrics) -> CollectorView {
    CollectorView {
        model: c.model,
        current_osl: m.output_tokens,
        observations: c.observations.push(
            ResponseObservation { input_tokens: m.input_tokens, chunk_tokens: m.chunk_tokens },
        ),
    }
}

/// The converter's result on one item, together with the collector's state
/// after it: the metric annotation (if any) is observed and the tag and
/// comments erased; remaining payload data is JSON-quoted into the data
/// field; an `error` tag yields the error signal; otherwise the tag and the
/// comments are forwarded.
pub open spec fn spec_convert(a: AnnotatedView, c: CollectorView) -> (Result<
    SseEventView,
    Seq<char>,
>, CollectorView) {
    let m = spec_metrics_of(a);
    let c1 = match m {
        Some(mm) => spec_observe(c, mm),
        None => c,
    };
    let a1 = match m {
        Some(_) => AnnotatedView { event: None, comment: None, ..a },
        None => a,
    };
    let r = if a1.event matches Some(e) && e == "error"@ {
        Err(error_message_of(a1.comment))
    } else {
        Ok(
            SseEventView {
                data: match a1.data {
                    Some(d) => Some(json_quoted(d)),
                    None => None,
                },
                event: a1.event,
                comments: match a1.comment {
                    Some(cs) => cs,
                    None => Seq::empty(),
                },
            },
        )
    };
    (r, c1)
}

/// Whether an exec converter result has the given mathematical shape.
pub open spec fn convert_result_matches(
    r: Result<SseEvent, String>,
    s: Result<SseEventView, Seq<char>>,
) -> bool {
    match (r, s) {
        (Ok(e), Ok(ev)) => e@ == ev,
        (Err(m), Err(mv)) => m@ == mv,
        _ => false,
    }
}

/// A metric annotation never surfaces to the client: the converted event of
/// an item that carries one has no event tag and no comment lines, while
/// the collector observes the annotation's running output length and its
/// chunk counts.
pub proof fn lemma_metric_annotation_stripped(a: AnnotatedView, c: CollectorView, m: LlmMetrics)
    requires
        spec_metrics_of(a) == Some(m),
    ensures
        ({
            let (r, c1) = spec_convert(a, c);
            &&& r matches Ok(ev) && ev.event is None && ev.comments.len() == 0
            &&& c1.current_osl == m.output_tokens
            &&& c1.observations == c.observations.push(
                ResponseObservation { input_tokens: m.input_tokens, chunk_tokens: m.chunk_tokens },
            )
            &&& c1.model == c.model
        }),
{
}

/// Joins comments by `" -- "`, per [`join_comments_spec`].
pub fn join_comments(cs: &Vec<String>) -> (r: String)
    ensures
        r@ == join_comments_spec(cs.deep_view()),
{
    let mut out = String::new();
    let mut k: usize = 0;
    let n = cs.len();
    while k < n
        invariant
            k <= n,
            n == cs@.len(),
            out@ == join_comments_spec(cs.deep_view().subrange(0, k as int)),
        decreases n - k,
    {
        if k > 0 {
            out.append(" -- ");
        }
        out.append(cs[k].as_str());
        proof {
            let dv = cs.deep_view();
            assert(dv.subrange(0, k + 1).drop_last() =~= dv.subrange(0, k as int));
            assert(dv[k as int] == cs@[k as int]@);
            if k == 0 {
                assert(out@ =~= join_comments_spec(dv.subrange(0, 1)));
            } else {
                assert(out@ =~= join_comments_spec(dv.subrange(0, k + 1)));
            }
        }
        k += 1;
    }
    proof {
        assert(cs.deep_view().subrange(0, n as int) =~= cs.deep_view());
    }
    out
}

/// Converts one annotated item to an SSE event or a terminal error signal,
/// per [`spec_convert`], observing any metric annotation on the collector.
pub fn process_event_converter(
    annotated: EventConverter,
    response_collector: &mut ResponseMetricCollector,
) -> (r: Result<SseEvent, String>)
    ensures
        ({
            let (sr, sc) = spec_convert(annotated.0@, old(response_collector)@);
            &&& final(response_collector)@ == sc
            &&& convert_result_matches(r, sr)
        }),
{
    let mut a = annotated.0;

    match LlmMetrics::from_annotation(&a) {
        Some(m) => {
            response_collector.observe_current_osl(m.output_tokens);
            response_collector.observe_response(m.input_tokens, m.chunk_tokens);
            // The annotation was sideband-only: erase it from the wire copy.
            a.event = None;
            a.comment = None;
        },
        None => {},
    }

    let mut event = SseEvent::empty();

    match a.data {
        Some(d) => {
            event.data = Some(json_quote(d.as_str()));
        },
        None => {},
    }

    match a.event {
        Some(msg) => {
            if str_eq(msg.as_str(), "error") {
                let joined = match a.comment {
                    Some(cs) => join_comments(&cs),
                    None => String::from_str("unspecified error"),
                };
                return Err(joined);
            }
            event.event = Some(msg);
        },
        None => {},
    }

    match a.comment {
        Some(comments) => {
            event.comments = comments;
        },
        None => {},
    }

    proof {
        let (sr, sc) = spec_convert(annotated.0@, old(response_collector)@);
        match sr {
            Ok(ev) => {
                assert(event@.comments =~= ev.comments);
            },
            Err(_) => {},
        }
    }
    Ok(event)
}

/// The converter folded over a whole item sequence: the per-item results in
/// order, and the collector's final state.
pub open spec fn spec_convert_seq(items: Seq<AnnotatedView>, c: CollectorView) -> (Seq<
    Result<SseEventView, Seq<char>>,
>, CollectorView)
    decreases items.len(),
{
    if items.len() == 0 {
        (Seq::empty(), c)
    } else {
        let (rs, c1) = spec_convert_seq(items.drop_last(), c);
        let (r, c2) = spec_convert(items.last(), c1);
        (rs.push(r), c2)
    }
}

/// The converter yields one result per item.
pub proof fn lemma_convert_seq_len(items: Seq<AnnotatedView>, c: CollectorView)
    ensures
        spec_convert_seq(items, c).0.len() == items.len(),
    decreases items.len(),
{
    if items.len() > 0 {
        lemma_convert_seq_len(items.drop_last(), c);
    }
}

/// Whether a sequence of exec converter results has the given shapes.
pub open spec fn convert_results_match(
    rs: Seq<Result<SseEvent, String>>,
    ss: Seq<Result<SseEventView, Seq<char>>>,
) -> bool {
    &&& rs.len() == ss.len()
    &&& forall|i: int| 0 <= i < rs.len() ==> convert_result_matches(rs[i], ss[i])
}

/// Converts every item of an engine stream in order, per
/// [`spec_convert_seq`].
pub fn convert_stream(items: Vec<Annotated>, response_collector: &mut ResponseMetricCollector)
    -> (r: Vec<Result<SseEvent, String>>)
    ensures
        ({
            let (ss, sc) = spec_convert_seq(items.deep_view(), old(response_collector)@);
            &&& final(response_collector)@ == sc
            &&& convert_results_match(r@, ss)
        }),
{
    let ghost dv = items.deep_view();
    let ghost c0 = response_collector@;
    let mut out: Vec<Result<SseEvent, String>> = Vec::new();
    let mut k: usize = 0;
    let n = items.len();
    let mut rest = items;
    while k < n
        invariant
            k <= n,
            n == dv.len(),
            rest@.len() == n - k,
            forall|i: int| 0 <= i < rest@.len() ==> rest@[i].deep_view() == dv[k + i],
            ({
                let (ss, sc) = spec_convert_seq(dv.subrange(0, k as int), c0);
                &&& response_collector@ == sc
                &&& convert_results_match(out@, ss)
            }),
        decreases n - k,
    {
        let item = rest.remove(0);
        let converted = process_event_converter(EventConverter(item), response_collector);
        out.push(converted);
        proof {
            assert(dv.subrange(0, k + 1).drop_last() =~= dv.subrange(0, k as int));
            assert(dv.subrange(0, k + 1).last() == dv[k as int]);
        }
        k += 1;
    }
    proof {
        assert(dv.subrange(0, n as int) =~= dv);
    }
    out
}

} // verus!
