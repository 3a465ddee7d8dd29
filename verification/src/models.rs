//! The model listing endpoint: the registered model names, deduplicated,
//! each as an OpenAI-style listing entry.

use vstd::prelude::*;
use vstd::string::StringExecFns;
use crate::handlers::contains_name;

verus! {

/// One listed model: its id, the fixed object tag, the listing timestamp in
/// seconds since the epoch, and the owning organization.
#[derive(Debug)]
pub struct ModelListing {
    pub id: String,
    pub object: String,
    pub created: u64,
    pub owned_by: String,
}

/// The whole listing: the fixed list tag and the entries.
#[derive(Debug)]
pub struct ListModelOpenAI {
    pub object: String,
    pub data: Vec<ModelListing>,
}

/// The names kept when duplicates collapse: each name once, in the order of
/// its first occurrence.
pub open spec fn dedup_names(s: Seq<Seq<char>>) -> Seq<Seq<char>>
    decreases s.len(),
{
    if s.len() == 0 {
        Seq::empty()
    } else {
        let d = dedup_names(s.drop_last());
        if d.contains(s.last()) {
            d
        } else {
            d.push(s.last())
        }
    }
}

/// Deduplication keeps exactly the names that occur, each once.
pub proof fn lemma_dedup_names(s: Seq<Seq<char>>)
    ensures
        forall|x: Seq<char>| #[trigger] dedup_names(s).contains(x) <==> s.contains(x),
        forall|i: int, j: int|
            0 <= i < j < dedup_names(s).len() ==> dedup_names(s)[i] != dedup_names(s)[j],
    decreases s.len(),
{
    if s.len() > 0 {
        let prefix = s.drop_last();
        lemma_dedup_names(prefix);
        let d = dedup_names(prefix);
        assert forall|x: Seq<char>| #[trigger] dedup_names(s).contains(x) implies s.contains(
            x,
        ) by {
            if d.contains(x) {
                let i = choose|i: int| 0 <= i < prefix.len() && prefix[i] == x;
                assert(s[i] == x);
            } else {
                assert(dedup_names(s) == d.push(s.last()));
                let i = choose|i: int|
                    0 <= i < dedup_names(s).len() && dedup_names(s)[i] == x;
                if i < d.len() {
                    assert(d[i] == x);
                    assert(d.contains(x));
                } else {
                    assert(x == s.last());
                    assert(s[s.len() - 1] == x);
                }
            }
        }
        assert forall|x: Seq<char>| s.contains(x) implies #[trigger] dedup_names(s).contains(
            x,
        ) by {
            let i = choose|i: int| 0 <= i < s.len() && s[i] == x;
            if i < s.len() - 1 {
                assert(prefix[i] == x);
                assert(prefix.contains(x));
                assert(d.contains(x));
                let j = choose|j: int| 0 <= j < d.len() && d[j] == x;
                if d.contains(s.last()) {
                    assert(dedup_names(s)[j] == x);
                } else {
                    assert(dedup_names(s)[j] == x);
                }
            } else {
                if d.contains(x) {
                    let j = choose|j: int| 0 <= j < d.len() && d[j] == x;
                    if d.contains(s.last()) {
                        assert(dedup_names(s)[j] == x);
                    } else {
                        assert(dedup_names(s)[j] == x);
                    }
                } else {
                    assert(dedup_names(s) == d.push(s.last()));
                    assert(dedup_names(s)[d.len() as int] == x);
                }
            }
        }
        assert forall|i: int, j: int|
            0 <= i < j < dedup_names(s).len() implies dedup_names(s)[i] != dedup_names(
            s,
        )[j] by {
            if !d.contains(s.last()) {
                if j == d.len() {
                    assert(dedup_names(s)[i] == d[i]);
                    if d[i] == s.last() {
                        assert(d.contains(s.last()));
                    }
                } else {
                    assert(dedup_names(s)[i] == d[i]);
                    assert(dedup_names(s)[j] == d[j]);
                }
            }
        }
    }
}

/// The ids of the listed entries, in order.
pub open spec fn ids_of(data: Seq<ModelListing>) -> Seq<Seq<char>> {
    Seq::new(data.len(), |i: int| data[i].id@)
}

/// Builds the listing for the given model names at the given timestamp:
/// the ids are the names with duplicates collapsed, in first-occurrence
/// order; every entry is tagged `object`, stamped `created` and owned by
/// `nvidia`; the listing itself is tagged `list`.
pub fn list_models_openai(names: &Vec<String>, created: u64) -> (r: ListModelOpenAI)
    ensures
        r.object@ == "list"@,
        ids_of(r.data@) == dedup_names(names.deep_view()),
        forall|i: int|
            0 <= i < r.data@.len() ==> (#[trigger] r.data@[i]).object@ == "object"@
                && r.data@[i].created == created && r.data@[i].owned_by@ == "nvidia"@,
{
    let ghost dv = names.deep_view();
    let mut seen: Vec<String> = Vec::new();
    let mut data: Vec<ModelListing> = Vec::new();
    let n = names.len();
    let mut k: usize = 0;
    proof {
        assert(dv.subrange(0, 0) =~= Seq::<Seq<char>>::empty());
        assert(ids_of(data@) =~= seen.deep_view());
    }
    while k < n
        invariant
            k <= n,
            n == dv.len(),
            dv == names.deep_view(),
            seen.deep_view() == dedup_names(dv.subrange(0, k as int)),
            ids_of(data@) == seen.deep_view(),
            data@.len() == seen@.len(),
            forall|i: int|
                0 <= i < data@.len() ==> (#[trigger] data@[i]).object@ == "object"@
                    && data@[i].created == created && data@[i].owned_by@ == "nvidia"@,
        decreases n - k,
    {
        proof {
            assert(dv.subrange(0, k + 1).drop_last() =~= dv.subrange(0, k as int));
            assert(dv.subrange(0, k + 1).last() == dv[k as int]);
            assert(dv[k as int] == names@[k as int]@);
        }
        let ghost seen_before = seen.deep_view();
        if !contains_name(&seen, &names[k]) {
            seen.push(names[k].clone());
            data.push(
                ModelListing {
                    id: names[k].clone(),
                    object: String::from_str("object"),
                    created,
                    owned_by: String::from_str("nvidia"),
                },
            );
            proof {
                assert(seen.deep_view() =~= seen_before.push(names@[k as int]@));
                assert(ids_of(data@) =~= seen.deep_view());
            }
        }
        k += 1;
    }
    proof {
        assert(dv.subrange(0, n as int) =~= dv);
    }
    ListModelOpenAI { object: String::from_str("list"), data }
}

} // verus!
