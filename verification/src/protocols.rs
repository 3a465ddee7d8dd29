//! Annotated engine items and the sideband metric annotation they may carry.
//!
//! An engine produces a lazy stream of annotated items: an optional payload,
//! an optional event tag, optional ordered comment lines and an optional id.
//! Token-count metrics ride inside an item under a reserved event tag, as a
//! small JSON object in the first comment line; they are observed by the
//! per-request collector and never surface to the client.

use vstd::prelude::*;
use crate::text::{match_at, match_lit, scan_u64, spec_scan_u64, str_eq};

verus! {

/// An engine output item: optional payload text, optional event tag,
/// optional ordered comment lines, optional id.
#[derive(Debug)]
pub struct Annotated {
    pub data: Option<String>,
    pub id: Option<String>,
    pub event: Option<String>,
    pub comment: Option<Vec<String>>,
}

/// The mathematical shape of an annotated item: each text as its character
/// sequence.
#[verifier::ext_equal]
pub ghost struct AnnotatedView {
    pub data: Option<Seq<char>>,
    pub id: Option<Seq<char>>,
    pub event: Option<Seq<char>>,
    pub comment: Option<Seq<Seq<char>>>,
}

impl View for Annotated {
    type V = AnnotatedView;

    open spec fn view(&self) -> AnnotatedView {
        AnnotatedView {
            data: self.data.deep_view(),
            id: self.id.deep_view(),
            event: self.event.deep_view(),
            comment: self.comment.deep_view(),
        }
    }
}

impl DeepView for Annotated {
    type V = AnnotatedView;

    open spec fn deep_view(&self) -> AnnotatedView {
        self.view()
    }
}

/// Token counts an engine reports alongside a chunk.
#[derive(Debug, Clone, Copy, PartialEq, Eq, Structural)]
pub struct LlmMetrics {
    pub input_tokens: u64,
    pub output_tokens: u64,
    pub chunk_tokens: u64,
}

/// The reserved event tag under which a metric annotation rides.
pub open spec fn metrics_tag() -> Seq<char> {
    "llm_metrics"@
}

/// The comment line carrying a metric annotation: a compact JSON object of
/// the three token counts, in this order.
pub open spec fn spec_metrics_parse(s: Seq<char>) -> Option<LlmMetrics> {
    if !match_at(s, 0, "{\"input_tokens\":"@) {
        None
    } else {
        match spec_scan_u64(s, "{\"input_tokens\":"@.len() as int) {
            None => None,
            Some((input_tokens, i2)) => if !match_at(s, i2, ",\"output_tokens\":"@) {
                None
            } else {
                match spec_scan_u64(s, i2 + ",\"output_tokens\":"@.len()) {
                    None => None,
                    Some((output_tokens, i3)) => if !match_at(s, i3, ",\"chunk_tokens\":"@) {
                        None
                    } else {
                        match spec_scan_u64(s, i3 + ",\"chunk_tokens\":"@.len()) {
                            None => None,
                            Some((chunk_tokens, i4)) => if match_at(s, i4, "}"@) && i4
                                + "}"@.len() == s.len() {
                                Some(LlmMetrics { input_tokens, output_tokens, chunk_tokens })
                            } else {
                                None
                            },
                        }
                    },
                }
            },
        }
    }
}

/// The canonical comment line carrying the given metric annotation.
pub open spec fn metrics_comment(m: LlmMetrics) -> Seq<char> {
    "{\"input_tokens\":"@ + crate::text::dec_str(m.input_tokens as nat) + ",\"output_tokens\":"@
        + crate::text::dec_str(m.output_tokens as nat) + ",\"chunk_tokens\":"@
        + crate::text::dec_str(m.chunk_tokens as nat) + "}"@
}

/// Every metric annotation's canonical comment line parses back to it.
pub proof fn lemma_metrics_comment_parses(m: LlmMetrics)
    ensures
        spec_metrics_parse(metrics_comment(m)) == Some(m),
{
    reveal_strlit("{\"input_tokens\":");
    reveal_strlit(",\"output_tokens\":");
    reveal_strlit(",\"chunk_tokens\":");
    reveal_strlit("}");
    let s = metrics_comment(m);
    let d1 = crate::text::dec_str(m.input_tokens as nat);
    let d2 = crate::text::dec_str(m.output_tokens as nat);
    let d3 = crate::text::dec_str(m.chunk_tokens as nat);
    crate::text::lemma_dec_str_wf(m.input_tokens as nat);
    crate::text::lemma_dec_str_wf(m.output_tokens as nat);
    crate::text::lemma_dec_str_wf(m.chunk_tokens as nat);
    let i1 = "{\"input_tokens\":"@.len() as int;
    let j1 = i1 + d1.len();
    let i2 = j1 + ",\"output_tokens\":"@.len();
    let j2 = i2 + d2.len();
    let i3 = j2 + ",\"chunk_tokens\":"@.len();
    let j3 = i3 + d3.len();
    assert(s.len() == j3 + 1);

    assert(s.subrange(0, i1) =~= "{\"input_tokens\":"@);
    assert(match_at(s, 0, "{\"input_tokens\":"@));
    assert(s.subrange(i1, j1) =~= d1);
    assert(s[j1] == ',');
    crate::text::lemma_scan_embedded(s, i1, d1);

    assert(s.subrange(j1, i2) =~= ",\"output_tokens\":"@);
    assert(match_at(s, j1, ",\"output_tokens\":"@));
    assert(s.subrange(i2, j2) =~= d2);
    assert(s[j2] == ',');
    crate::text::lemma_scan_embedded(s, i2, d2);

    assert(s.subrange(j2, i3) =~= ",\"chunk_tokens\":"@);
    assert(match_at(s, j2, ",\"chunk_tokens\":"@));
    assert(s.subrange(i3, j3) =~= d3);
    assert(s[j3] == '}');
    crate::text::lemma_scan_embedded(s, i3, d3);

    assert(s.subrange(j3, j3 + 1) =~= "}"@);
    assert(match_at(s, j3, "}"@));
}

/// The metric annotation an item carries: present exactly when the item's
/// event tag is the reserved metrics tag and its first comment line parses
/// as the metric object.
pub open spec fn spec_metrics_of(a: AnnotatedView) -> Option<LlmMetrics> {
    match a.event {
        Some(e) => if e == metrics_tag() {
            match a.comment {
                Some(cs) => if cs.len() > 0 {
                    spec_metrics_parse(cs[0])
                } else {
                    None
                },
                None => None,
            }
        } else {
            None
        },
        None => None,
    }
}

impl LlmMetrics {
    /// Reads the metric comment line, per [`spec_metrics_parse`].
    pub fn from_comment(s: &str) -> (r: Option<LlmMetrics>)
        ensures
            r == spec_metrics_parse(s@),
    {
        let n = s.unicode_len();
        if !match_lit(s, 0, "{\"input_tokens\":") {
            return None;
        }
        let i1 = "{\"input_tokens\":".unicode_len();
        let (input_tokens, i2) = match scan_u64(s, i1) {
            None => { return None; },
            Some(x) => x,
        };
        if !match_lit(s, i2, ",\"output_tokens\":") {
            return None;
        }
        let l2 = ",\"output_tokens\":".unicode_len();
        let (output_tokens, i3) = match scan_u64(s, i2 + l2) {
            None => { return None; },
            Some(x) => x,
        };
        if !match_lit(s, i3, ",\"chunk_tokens\":") {
            return None;
        }
        let l3 = ",\"chunk_tokens\":".unicode_len();
        let (chunk_tokens, i4) = match scan_u64(s, i3 + l3) {
            None => { return None; },
            Some(x) => x,
        };
        if match_lit(s, i4, "}") && i4 + "}".unicode_len() == n {
            Some(LlmMetrics { input_tokens, output_tokens, chunk_tokens })
        } else {
            None
        }
    }

    /// Extracts the metric annotation an item carries, per
    /// [`spec_metrics_of`].
    pub fn from_annotation(a: &Annotated) -> (r: Option<LlmMetrics>)
        ensures
            r == spec_metrics_of(a@),
    {
        let event = match &a.event {
            Some(e) => e,
            None => { return None; },
        };
        if !str_eq(event.as_str(), "llm_metrics") {
            return None;
        }
        let comments = match &a.comment {
            Some(cs) => cs,
            None => { return None; },
        };
        if comments.len() == 0 {
            return None;
        }
        LlmMetrics::from_comment(comments[0].as_str())
    }
}

/// Wraps an annotated item on its way to the SSE converter.
#[derive(Debug)]
pub struct EventConverter(pub Annotated);

impl From<Annotated> for EventConverter {
    fn from(annotated: Annotated) -> (r: Self) {
        EventConverter(annotated)
    }
}

impl vstd::std_specs::convert::FromSpecImpl<Annotated> for EventConverter {
    open spec fn obeys_from_spec() -> bool {
        true
    }

    open spec fn from_spec(annotated: Annotated) -> Self {
        EventConverter(annotated)
    }
}

} // verus!
