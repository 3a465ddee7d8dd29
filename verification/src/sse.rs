//! Server-Sent-Events model: an event is an optional `event:` name, ordered
//! comment lines and an optional `data:` payload; on the wire each event is
//! the corresponding lines terminated by a blank line. Stream end is
//! signaled by a final event whose data is the literal `[DONE]`.

use vstd::prelude::*;
use vstd::string::StringExecFns;

verus! {

/// One Server-Sent Event: optional JSON data, optional event name, ordered
/// comment lines.
#[derive(Debug)]
pub struct SseEvent {
    pub data: Option<String>,
    pub event: Option<String>,
    pub comments: Vec<String>,
}

/// The mathematical shape of an event: each text as its character sequence.
#[verifier::ext_equal]
pub ghost struct SseEventView {
    pub data: Option<Seq<char>>,
    pub event: Option<Seq<char>>,
    pub comments: Seq<Seq<char>>,
}

impl View for SseEvent {
    type V = SseEventView;

    open spec fn view(&self) -> SseEventView {
        SseEventView {
            data: self.data.deep_view(),
            event: self.event.deep_view(),
            comments: self.comments.deep_view(),
        }
    }
}

impl DeepView for SseEvent {
    type V = SseEventView;

    open spec fn deep_view(&self) -> SseEventView {
        self.view()
    }
}

/// The comment lines of a frame: each comment as `: <text>` on its own line.
pub open spec fn comment_lines(cs: Seq<Seq<char>>) -> Seq<char>
    decreases cs.len(),
{
    if cs.len() == 0 {
        Seq::empty()
    } else {
        comment_lines(cs.drop_last()) + ": "@ + cs.last() + "\n"@
    }
}

/// The wire frame of one event: an optional `event:` line, the comment
/// lines, an optional `data:` line, and the terminating blank line.
pub open spec fn spec_frame(e: SseEventView) -> Seq<char> {
    (match e.event {
        Some(name) => "event: "@ + name + "\n"@,
        None => Seq::empty(),
    }) + comment_lines(e.comments) + (match e.data {
        Some(d) => "data: "@ + d + "\n"@,
        None => Seq::empty(),
    }) + "\n"@
}

/// The sentinel closing a stream: an event whose data is exactly `[DONE]`.
pub open spec fn is_done_sentinel(e: SseEventView) -> bool {
    &&& e.data matches Some(d) && d == "[DONE]"@
    &&& e.event is None
    &&& e.comments.len() == 0
}

impl SseEvent {
    /// An empty event.
    pub fn empty() -> (r: SseEvent)
        ensures
            r@.data is None,
            r@.event is None,
            r@.comments.len() == 0,
    {
        SseEvent { data: None, event: None, comments: Vec::new() }
    }

    /// The `[DONE]` sentinel event.
    pub fn done_sentinel() -> (r: SseEvent)
        ensures
            is_done_sentinel(r@),
    {
        SseEvent {
            data: Some(String::from_str("[DONE]")),
            event: None,
            comments: Vec::new(),
        }
    }

    /// Renders this event as its wire frame, per [`spec_frame`].
    pub fn frame(&self) -> (r: String)
        ensures
            r@ == spec_frame(self@),
    {
        let mut out = String::new();
        match &self.event {
            Some(name) => {
                out.append("event: ");
                out.append(name.as_str());
                out.append("\n");
            },
            None => {},
        }
        let ghost head = out@;
        proof {
            assert(head =~= (match self@.event {
                Some(name) => "event: "@ + name + "\n"@,
                None => Seq::<char>::empty(),
            }));
        }
        let mut k: usize = 0;
        let n = self.comments.len();
        while k < n
            invariant
                k <= n,
                n == self.comments@.len(),
                out@ == head + comment_lines(self.comments.deep_view().subrange(0, k as int)),
            decreases n - k,
        {
            out.append(": ");
            out.append(self.comments[k].as_str());
            out.append("\n");
            proof {
                let dv = self.comments.deep_view();
                assert(dv.subrange(0, k + 1).drop_last() =~= dv.subrange(0, k as int));
                assert(dv[k as int] == self.comments@[k as int]@);
                assert(out@ =~= head + comment_lines(dv.subrange(0, k + 1)));
            }
            k += 1;
        }
        proof {
            assert(self.comments.deep_view().subrange(0, n as int) =~= self.comments.deep_view());
        }
        match &self.data {
            Some(d) => {
                out.append("data: ");
                out.append(d.as_str());
                out.append("\n");
            },
            None => {},
        }
        out.append("\n");
        proof {
            assert(out@ =~= spec_frame(self@));
        }
        out
    }
}

/// Renders a whole event sequence as its wire form: the frames in order.
pub open spec fn spec_frames(events: Seq<SseEventView>) -> Seq<char>
    decreases events.len(),
{
    if events.len() == 0 {
        Seq::empty()
    } else {
        spec_frames(events.drop_last()) + spec_frame(events.last())
    }
}

/// Renders a stream of events as its full wire form, per [`spec_frames`].
pub fn frame_all(events: &Vec<SseEvent>) -> (r: String)
    ensures
        r@ == spec_frames(events.deep_view()),
{
    let mut out = String::new();
    let mut k: usize = 0;
    let n = events.len();
    while k < n
        invariant
            k <= n,
            n == events@.len(),
            out@ == spec_frames(events.deep_view().subrange(0, k as int)),
        decreases n - k,
    {
        let f = events[k].frame();
        out.append(f.as_str());
        proof {
            let dv = events.deep_view();
            assert(dv.subrange(0, k + 1).drop_last() =~= dv.subrange(0, k as int));
            assert(dv[k as int] == events@[k as int]@);
            assert(out@ =~= spec_frames(dv.subrange(0, k + 1)));
        }
        k += 1;
    }
    proof {
        assert(events.deep_view().subrange(0, n as int) =~= events.deep_view());
    }
    out
}

} // verus!
