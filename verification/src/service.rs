//! Service components, the scrape client, and the service-discovery data
//! model: services, their endpoints, and per-endpoint metrics.
//!
//! A component tracks live against ready state and owns a cancellation
//! signal; the scrape client folds decoded service announcements into a
//! service set. An endpoint's numeric id is the hex value of the last
//! hyphen-separated part of its subject.

use vstd::prelude::*;
use vstd::string::StrSliceExecFns;
use vstd::string::StringExecFns;

verus! {

/// The lifecycle of a service component.
#[derive(Debug, Clone, Copy, PartialEq, Eq, Structural)]
pub enum ServiceState {
    Live,
    Ready,
    Stopped,
}

/// A named component tracking its lifecycle state and whether cancellation
/// was signaled to its workers.
pub struct ServiceComponent {
    pub name: String,
    pub state: ServiceState,
    pub cancel_requested: bool,
}

impl ServiceComponent {
    /// A fresh component: live, not yet ready, nothing cancelled.
    pub fn new(name: String) -> (r: Self)
        ensures
            r.name == name,
            r.state == ServiceState::Live,
            !r.cancel_requested,
    {
        ServiceComponent { name, state: ServiceState::Live, cancel_requested: false }
    }

    /// Marks the component ready; waiters are then released.
    pub fn mark_ready(&mut self)
        ensures
            final(self).state == ServiceState::Ready,
            final(self).name == old(self).name,
            final(self).cancel_requested == old(self).cancel_requested,
    {
        self.state = ServiceState::Ready;
    }

    /// Marks the component stopped and signals cancellation.
    pub fn mark_stopped(&mut self)
        ensures
            final(self).state == ServiceState::Stopped,
            final(self).cancel_requested,
            final(self).name == old(self).name,
    {
        self.state = ServiceState::Stopped;
        self.cancel_requested = true;
    }

    /// Whether a waiter may proceed at once rather than sleep.
    pub fn is_ready(&self) -> (r: bool)
        ensures
            r == (self.state == ServiceState::Ready),
    {
        match self.state {
            ServiceState::Ready => true,
            _ => false,
        }
    }
}

/// One announced service: identity, version, start time, and endpoints.
#[derive(Debug, Clone)]
pub struct ServiceInfo {
    pub name: String,
    pub id: String,
    pub version: String,
    pub started: String,
    pub endpoints: Vec<EndpointInfo>,
}

/// One endpoint of a service, with its optional metrics payload.
#[derive(Debug, Clone)]
pub struct EndpointInfo {
    pub name: String,
    pub subject: String,
    pub data: Option<Metrics>,
}

/// Per-endpoint metrics. The average processing time is held in
/// microseconds; the free-form payload is held as its JSON text.
#[derive(Debug, Clone)]
pub struct Metrics {
    pub average_processing_time: u64,
    pub last_error: String,
    pub num_errors: u64,
    pub num_requests: u64,
    pub processing_time: u64,
    pub queue_group: String,
    pub data: String,
}

/// The services one scrape collected.
#[derive(Debug, Clone)]
pub struct ServiceSet {
    pub services: Vec<ServiceInfo>,
}

/// The endpoints of a service sequence, flattened in order.
pub open spec fn endpoints_of(services: Seq<ServiceInfo>) -> Seq<EndpointInfo>
    decreases services.len(),
{
    if services.len() == 0 {
        Seq::empty()
    } else {
        endpoints_of(services.drop_last()) + services.last().endpoints@
    }
}

impl ServiceSet {
    /// All endpoints of all collected services, in announcement order.
    pub fn into_endpoints(self) -> (r: Vec<EndpointInfo>)
        ensures
            r@ == endpoints_of(self.services@),
    {
        let ghost sv = self.services@;
        let mut out: Vec<EndpointInfo> = Vec::new();
        let mut rest = self.services;
        let n = rest.len();
        let mut k: usize = 0;
        proof {
            assert(sv.subrange(0, 0) =~= Seq::<ServiceInfo>::empty());
            assert(out@ =~= endpoints_of(sv.subrange(0, 0)));
        }
        while k < n
            invariant
                k <= n,
                n == sv.len(),
                rest@.len() == n - k,
                rest@ =~= sv.subrange(k as int, n as int),
                out@ == endpoints_of(sv.subrange(0, k as int)),
            decreases n - k,
        {
            let ghost rest_before = rest@;
            let service = rest.remove(0);
            let mut endpoints = service.endpoints;
            out.append(&mut endpoints);
            proof {
                assert(rest@ =~= sv.subrange(k + 1, n as int));
                assert(sv.subrange(0, k + 1).drop_last() =~= sv.subrange(0, k as int));
                assert(sv.subrange(0, k + 1).last() == sv[k as int]);
                assert(out@ =~= endpoints_of(sv.subrange(0, k + 1)));
            }
            k += 1;
        }
        proof {
            assert(sv.subrange(0, n as int) =~= sv);
        }
        out
    }
}

/// The service announcements kept from one scrape: the decodable ones, in
/// arrival order.
pub open spec fn decoded_services(decoded: Seq<Option<ServiceInfo>>) -> Seq<ServiceInfo>
    decreases decoded.len(),
{
    if decoded.len() == 0 {
        Seq::empty()
    } else {
        decoded_services(decoded.drop_last()) + (match decoded.last() {
            Some(info) => seq![info],
            None => Seq::empty(),
        })
    }
}

/// The scrape client: collects service announcements into a service set.
/// The transport connection that carries the scrape lives outside the
/// verified core; this owns what is decided about the collected payloads.
pub struct ServiceClient {
}

impl ServiceClient {
    /// A fresh scrape client.
    pub fn new() -> (r: Self)
        ensures
            r == (ServiceClient {  }),
    {
        ServiceClient {  }
    }

    /// Folds the decode results of the scraped payloads into a service set:
    /// undecodable announcements are dropped, the rest kept in order.
    pub fn collect_services(&self, decoded: Vec<Option<ServiceInfo>>) -> (r: ServiceSet)
        ensures
            r.services@ == decoded_services(decoded@),
    {
        let ghost dv = decoded@;
        let mut services: Vec<ServiceInfo> = Vec::new();
        let mut rest = decoded;
        let n = rest.len();
        let mut k: usize = 0;
        proof {
            assert(dv.subrange(0, 0) =~= Seq::<Option<ServiceInfo>>::empty());
            assert(services@ =~= decoded_services(dv.subrange(0, 0)));
        }
        while k < n
            invariant
                k <= n,
                n == dv.len(),
                rest@.len() == n - k,
                rest@ =~= dv.subrange(k as int, n as int),
                services@ == decoded_services(dv.subrange(0, k as int)),
            decreases n - k,
        {
            let item = rest.remove(0);
            proof {
                assert(rest@ =~= dv.subrange(k + 1, n as int));
                assert(dv.subrange(0, k + 1).drop_last() =~= dv.subrange(0, k as int));
                assert(dv.subrange(0, k + 1).last() == dv[k as int]);
            }
            match item {
                Some(info) => {
                    services.push(info);
                },
                None => {},
            }
            proof {
                assert(services@ =~= decoded_services(dv.subrange(0, k + 1)));
            }
            k += 1;
        }
        proof {
            assert(dv.subrange(0, n as int) =~= dv);
        }
        ServiceSet { services }
    }
}

/// A hex digit, either case.
pub open spec fn is_hex_digit(c: char) -> bool {
    ||| 48 <= (c as int) && (c as int) <= 57
    ||| 97 <= (c as int) && (c as int) <= 102
    ||| 65 <= (c as int) && (c as int) <= 70
}

/// The value of a hex digit.
pub open spec fn hex_digit_val(c: char) -> nat {
    if 48 <= (c as int) && (c as int) <= 57 {
        ((c as int) - 48) as nat
    } else if 97 <= (c as int) && (c as int) <= 102 {
        ((c as int) - 87) as nat
    } else {
        ((c as int) - 55) as nat
    }
}

/// The value of a run of hex digits, most significant first.
pub open spec fn hex_val(s: Seq<char>) -> nat
    decreases s.len(),
{
    if s.len() == 0 {
        0
    } else {
        hex_val(s.drop_last()) * 16 + hex_digit_val(s.last())
    }
}

/// The characters after the last hyphen; the whole string if it has none.
pub open spec fn after_last_dash(s: Seq<char>) -> Seq<char>
    decreases s.len(),
{
    if s.len() == 0 {
        Seq::empty()
    } else if s.last() == '-' {
        Seq::empty()
    } else {
        after_last_dash(s.drop_last()).push(s.last())
    }
}

/// The digit part of an id segment: the radix parse takes one optional
/// leading plus sign, which carries no value.
pub open spec fn id_digits_of(seg: Seq<char>) -> Seq<char> {
    if seg.len() > 0 && seg[0] == '+' {
        seg.drop_first()
    } else {
        seg
    }
}

/// The numeric id a subject carries: the hex value of its last
/// hyphen-separated part, if that part is, after an optional leading plus
/// sign, a non-empty run of hex digits whose value fits an `i64`.
pub open spec fn spec_endpoint_id(subject: Seq<char>) -> Option<i64> {
    let digits = id_digits_of(after_last_dash(subject));
    if digits.len() > 0 && (forall|t: int|
        0 <= t < digits.len() ==> is_hex_digit(#[trigger] digits[t])) && hex_val(digits)
        <= i64::MAX {
        Some(hex_val(digits) as i64)
    } else {
        None
    }
}

/// A suffix with no hyphen, whose predecessor (if any) is one, is what
/// stands after the last hyphen.
proof fn lemma_after_last_dash(s: Seq<char>, start: int)
    requires
        0 <= start <= s.len(),
        forall|t: int| start <= t < s.len() ==> s[t] != '-',
        start > 0 ==> s[start - 1] == '-',
    ensures
        after_last_dash(s) == s.subrange(start, s.len() as int),
    decreases s.len(),
{
    if s.len() == 0 {
        assert(after_last_dash(s) =~= s.subrange(start, s.len() as int));
    } else if start == s.len() {
        assert(s.last() == '-');
        assert(after_last_dash(s) =~= s.subrange(start, s.len() as int));
    } else {
        assert(s.last() != '-');
        lemma_after_last_dash(s.drop_last(), start);
        assert(s.drop_last().subrange(start, s.len() - 1) =~= s.subrange(start, s.len() - 1));
        assert(s.subrange(start, s.len() - 1).push(s.last()) =~= s.subrange(
            start,
            s.len() as int,
        ));
    }
}

/// Appending a hex digit multiplies the run's value by sixteen and adds it.
proof fn lemma_hex_val_push(s: Seq<char>, c: char)
    ensures
        hex_val(s.push(c)) == hex_val(s) * 16 + hex_digit_val(c),
{
    assert(s.push(c).drop_last() =~= s);
    assert(s.push(c).last() == c);
}

impl EndpointInfo {
    /// The endpoint's numeric id, per [`spec_endpoint_id`]; a subject whose
    /// last hyphen-separated part is not a fitting hex number (after an
    /// optional leading plus sign) is rejected.
    pub fn id(&self) -> (r: Result<i64, String>)
        ensures
            match r {
                Ok(v) => spec_endpoint_id(self.subject@) == Some(v),
                Err(m) => spec_endpoint_id(self.subject@) is None && m@
                    == "Invalid id format"@,
            },
    {
        let s = self.subject.as_str();
        let n = s.unicode_len();

        // Find the character position after the last hyphen.
        let mut start = n;
        let mut stop = false;
        while start > 0 && !stop
            invariant
                start <= n,
                n == s@.len(),
                forall|t: int| start <= t < n ==> s@[t] != '-',
                stop ==> (start > 0 && s@[start - 1] == '-'),
            decreases start + (if stop {
                0int
            } else {
                1int
            }),
        {
            let c = s.get_char(start - 1);
            if c == '-' {
                stop = true;
            } else {
                start -= 1;
            }
        }
        proof {
            lemma_after_last_dash(s@, start as int);
        }
        let ghost seg = s@.subrange(start as int, n as int);

        // Take one optional leading plus sign off the segment.
        let mut dstart = start;
        if start < n && s.get_char(start) == '+' {
            dstart = start + 1;
        }
        let ghost digits = s@.subrange(dstart as int, n as int);
        proof {
            if start < n && s@[start as int] == '+' {
                assert(seg[0] == '+');
                assert(seg.drop_first() =~= s@.subrange(start + 1, n as int));
            } else {
                if start < n {
                    assert(seg[0] == s@[start as int]);
                }
                assert(digits =~= seg);
            }
            assert(digits == id_digits_of(seg));
        }

        if dstart == n {
            return Err(String::from_str("Invalid id format"));
        }

        let mut value: i64 = 0;
        let mut over = false;
        let mut k = dstart;
        while k < n
            invariant
                dstart <= k <= n,
                n == s@.len(),
                s@ == self.subject@,
                digits == s@.subrange(dstart as int, n as int),
                digits == id_digits_of(after_last_dash(self.subject@)),
                digits.len() > 0,
                forall|t: int| dstart <= t < k ==> is_hex_digit(#[trigger] s@[t]),
                0 <= value,
                !over ==> value as nat == hex_val(s@.subrange(dstart as int, k as int)),
                over ==> hex_val(s@.subrange(dstart as int, k as int)) > i64::MAX,
            decreases n - k,
        {
            let c = s.get_char(k);
            let u = c as u32;
            let d: i64 = if 48 <= u && u <= 57 {
                (u - 48) as i64
            } else if 97 <= u && u <= 102 {
                (u - 87) as i64
            } else if 65 <= u && u <= 70 {
                (u - 55) as i64
            } else {
                proof {
                    assert(digits[k - dstart] == s@[k as int]);
                    assert(!is_hex_digit(digits[k - dstart]));
                }
                return Err(String::from_str("Invalid id format"));
            };
            proof {
                assert(s@.subrange(dstart as int, k + 1) =~= s@.subrange(
                    dstart as int,
                    k as int,
                ).push(s@[k as int]));
                lemma_hex_val_push(s@.subrange(dstart as int, k as int), s@[k as int]);
            }
            if over || value > 576460752303423487 {
                over = true;
            } else {
                value = value * 16 + d;
            }
            k += 1;
        }
        proof {
            assert(s@.subrange(dstart as int, n as int) == digits);
        }
        if over {
            return Err(String::from_str("Invalid id format"));
        }
        Ok(value)
    }
}

} // verus!
