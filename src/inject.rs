//! Inserting a resolved block identifier into a parameter list.

use vstd::prelude::*;
use crate::cache::key_of;

verus! {

/// The serialized JSON `null`.
pub open spec fn json_null() -> Seq<char> {
    "null"@
}

/// `params` with `value` at `index`: later parameters move one place on,
/// and a list shorter than `index` is first padded with `null`.
pub open spec fn injected(params: Seq<Seq<char>>, index: nat, value: Seq<char>) -> Seq<Seq<char>> {
    if params.len() < index {
        (params + Seq::new((index - params.len()) as nat, |j: int| json_null())).push(value)
    } else {
        params.insert(index as int, value)
    }
}

/// Inserts `value` into `params` at `index`.
pub fn inject_param(params: Vec<String>, index: usize, value: String) -> (r: Vec<String>)
    ensures
        key_of(r@) == injected(key_of(params@), index as nat, value@),
{
    let mut r = params;
    if r.len() < index {
        let ghost p = key_of(r@);
        while r.len() < index
            invariant
                p.len() <= r@.len() <= index,
                forall|j: int| 0 <= j < p.len() ==> r@[j]@ == p[j],
                forall|j: int| p.len() <= j < r@.len() ==> r@[j]@ == json_null(),
            decreases index - r@.len(),
        {
            r.push("null".to_owned());
        }
        r.push(value);
        assert(key_of(r@) =~= injected(p, index as nat, value@));
    } else {
        let ghost p = key_of(r@);
        r.insert(index, value);
        assert(key_of(r@) =~= injected(p, index as nat, value@));
    }
    r
}

/// The injected value lands at `index`; parameters before it keep their
/// places, those from `index` on move one place on in their order, and a
/// gap before `index` holds `null`.
pub proof fn lemma_injection_layout(params: Seq<Seq<char>>, index: nat, value: Seq<char>)
    ensures
        ({
            let r = injected(params, index, value);
            &&& r.len() == (if params.len() < index { index } else { params.len() }) + 1
            &&& r[index as int] == value
            &&& forall|j: int| 0 <= j < params.len() && j < index ==> r[j] == params[j]
            &&& forall|j: int| index <= j < params.len() ==> r[j + 1] == params[j]
            &&& forall|j: int| params.len() <= j < index ==> r[j] == json_null()
        }),
{
}

} // verus!
