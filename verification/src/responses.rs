//! Folding an annotated engine stream into a single aggregated response,
//! for clients that did not ask for streaming: payload chunks are
//! concatenated in order; an error-tagged item aborts the fold with its
//! message.

use vstd::prelude::*;
use vstd::string::StringExecFns;
use crate::convert::error_message_of;
use crate::protocols::{Annotated, AnnotatedView};
use crate::text::str_eq;

verus! {

/// The fold continued on `items` with `acc` already aggregated: stops with
/// the first error-tagged item's message, otherwise appends each payload.
pub open spec fn spec_fold_from(items: Seq<AnnotatedView>, acc: Seq<char>) -> Result<
    Seq<char>,
    Seq<char>,
>
    decreases items.len(),
{
    if items.len() == 0 {
        Ok(acc)
    } else if items[0].event matches Some(e) && e == "error"@ {
        Err(error_message_of(items[0].comment))
    } else {
        spec_fold_from(
            items.drop_first(),
            acc + (match items[0].data {
                Some(d) => d,
                None => Seq::empty(),
            }),
        )
    }
}

/// The aggregated text of a whole annotated stream, or the first error.
pub open spec fn spec_fold(items: Seq<AnnotatedView>) -> Result<Seq<char>, Seq<char>> {
    spec_fold_from(items, Seq::empty())
}

/// Folds an annotated stream into one aggregated text, per [`spec_fold`].
pub fn from_annotated_stream(items: &Vec<Annotated>) -> (r: Result<String, String>)
    ensures
        match (r, spec_fold(items.deep_view())) {
            (Ok(text), Ok(st)) => text@ == st,
            (Err(msg), Err(sm)) => msg@ == sm,
            _ => false,
        },
{
    let ghost dv = items.deep_view();
    let mut acc = String::new();
    let mut k: usize = 0;
    let n = items.len();
    proof {
        assert(dv.skip(0) =~= dv);
    }
    while k < n
        invariant
            k <= n,
            n == dv.len(),
            dv == items.deep_view(),
            spec_fold(dv) == spec_fold_from(dv.skip(k as int), acc@),
        decreases n - k,
    {
        proof {
            assert(dv.skip(k as int)[0] == dv[k as int]);
            assert(dv[k as int] == items@[k as int]@);
        }
        match &items[k].event {
            Some(e) => {
                if str_eq(e.as_str(), "error") {
                    let msg = match &items[k].comment {
                        Some(cs) => crate::convert::join_comments(cs),
                        None => String::from_str("unspecified error"),
                    };
                    return Err(msg);
                }
            },
            None => {},
        }
        match &items[k].data {
            Some(d) => {
                acc.append(d.as_str());
            },
            None => {},
        }
        proof {
            assert(dv.skip(k as int).drop_first() =~= dv.skip(k + 1));
        }
        k += 1;
    }
    proof {
        assert(dv.skip(n as int) =~= Seq::<AnnotatedView>::empty());
    }
    Ok(acc)
}

} // verus!
