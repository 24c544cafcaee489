//! Transport addresses of brokers and peers.
//!
//! Whether a text is an endpoint is for the transport to say. This module
//! asks it, keeps what it accepted, and drops the rest.

use std::str::FromStr;
use vstd::prelude::*;

verus! {

/// The canonical text of the endpoint that `text` denotes, or `None` where
/// the transport does not accept `text` as an endpoint.
pub uninterp spec fn endpoint_canonical(text: Seq<char>) -> Option<Seq<char>>;

/// Calls `zenoh::config::EndPoint::from_str` and hands the endpoint back as
/// text. The transport's parser reads nothing but the text it is given; this
/// contract only gives its outcome a name.
#[verifier::external_body]
fn parse_endpoint_text(text: &str) -> (r: Option<String>)
    ensures
        r is Some <==> endpoint_canonical(text@) is Some,
        r matches Some(e) ==> endpoint_canonical(text@) == Some(e@),
{
    zenoh::config::EndPoint::from_str(text).ok().map(String::from)
}

/// A transport address that the transport's parser has accepted.
#[derive(Debug, PartialEq, Eq)]
pub struct Endpoint {
    text: String,
}

impl View for Endpoint {
    type V = Seq<char>;

    closed spec fn view(&self) -> Seq<char> {
        self.text@
    }
}

impl DeepView for Endpoint {
    type V = Seq<char>;

    open spec fn deep_view(&self) -> Seq<char> {
        self@
    }
}

impl Endpoint {
    /// Parses `text`; `None` where it is not an endpoint.
    pub fn parse(text: &str) -> (r: Option<Endpoint>)
        ensures
            r is Some <==> endpoint_canonical(text@) is Some,
            r matches Some(e) ==> endpoint_canonical(text@) == Some(e@),
    {
        match parse_endpoint_text(text) {
            Some(t) => Some(Endpoint { text: t }),
            None => None,
        }
    }

    /// The endpoint in canonical form.
    pub fn as_str(&self) -> (r: &str)
        ensures
            r@ == self@,
    {
        self.text.as_str()
    }

    /// Another endpoint with the same text.
    pub fn duplicate(&self) -> (r: Endpoint)
        ensures
            r@ == self@,
    {
        Endpoint { text: self.text.clone() }
    }
}

/// The endpoints among the outcomes of parsing, in the order given. An
/// outcome of `None`, a text that was no endpoint, leaves no trace.
pub open spec fn kept(outcomes: Seq<Option<Seq<char>>>) -> Seq<Seq<char>>
    decreases outcomes.len(),
{
    if outcomes.len() == 0 {
        seq![]
    } else {
        let before = kept(outcomes.drop_last());
        match outcomes.last() {
            Some(e) => before.push(e),
            None => before,
        }
    }
}

/// What the transport makes of each candidate.
pub open spec fn parsed(candidates: Seq<Seq<char>>) -> Seq<Option<Seq<char>>> {
    Seq::new(candidates.len(), |i: int| endpoint_canonical(candidates[i]))
}

/// The endpoints among `candidates`, in the order given, each in canonical
/// form.
pub open spec fn accepted_endpoints(candidates: Seq<Seq<char>>) -> Seq<Seq<char>> {
    kept(parsed(candidates))
}

/// Parses every candidate.
pub fn parse_each(candidates: &Vec<String>) -> (r: Vec<Option<Endpoint>>)
    ensures
        r.deep_view() == parsed(candidates.deep_view()),
{
    let mut outcomes: Vec<Option<Endpoint>> = Vec::new();
    let mut i: usize = 0;
    while i < candidates.len()
        invariant
            i <= candidates.len(),
            outcomes.len() == i,
            forall|j: int|
                0 <= j < i ==> (#[trigger] outcomes[j]).deep_view() == endpoint_canonical(
                    candidates[j]@,
                ),
        decreases candidates.len() - i,
    {
        outcomes.push(Endpoint::parse(candidates[i].as_str()));
        i = i + 1;
    }
    assert(outcomes.deep_view() =~= parsed(candidates.deep_view()));
    outcomes
}

/// Keeps the endpoints among the outcomes of parsing and drops the rest.
pub fn keep_valid(outcomes: &Vec<Option<Endpoint>>) -> (r: Vec<Endpoint>)
    ensures
        r.deep_view() == kept(outcomes.deep_view()),
{
    let mut valid: Vec<Endpoint> = Vec::new();
    let mut i: usize = 0;
    while i < outcomes.len()
        invariant
            i <= outcomes.len(),
            valid.deep_view() == kept(outcomes.deep_view().take(i as int)),
        decreases outcomes.len() - i,
    {
        let ghost all = outcomes.deep_view();
        let ghost before = valid.deep_view();
        assert(all.take(i + 1).drop_last() =~= all.take(i as int));
        assert(all.take(i + 1).last() == outcomes[i as int].deep_view());
        match &outcomes[i] {
            Some(e) => {
                valid.push(e.duplicate());
                assert(valid.deep_view() =~= before.push(e@));
            },
            None => {},
        }
        i = i + 1;
    }
    assert(outcomes.deep_view().take(i as int) =~= outcomes.deep_view());
    valid
}

/// Parses every candidate and keeps the endpoints.
pub fn parse_all(candidates: &Vec<String>) -> (r: Vec<Endpoint>)
    ensures
        r.deep_view() == accepted_endpoints(candidates.deep_view()),
{
    keep_valid(&parse_each(candidates))
}

/// What is kept is what was an endpoint: a text is kept if and only if it is
/// among the outcomes.
pub proof fn lemma_kept_are_the_some(outcomes: Seq<Option<Seq<char>>>, e: Seq<char>)
    ensures
        kept(outcomes).contains(e) <==> outcomes.contains(Some(e)),
    decreases outcomes.len(),
{
    if outcomes.len() > 0 {
        let init = outcomes.drop_last();
        let before = kept(init);
        lemma_kept_are_the_some(init, e);
        if kept(outcomes).contains(e) {
            if before.contains(e) {
                let i = choose|i: int| 0 <= i < init.len() && init[i] == Some(e);
                assert(outcomes[i] == Some(e));
            } else {
                assert(outcomes[outcomes.len() - 1] == Some(e));
            }
        }
        if outcomes.contains(Some(e)) {
            let i = choose|i: int| 0 <= i < outcomes.len() && outcomes[i] == Some(e);
            if i < init.len() {
                assert(init[i] == Some(e));
                let j = choose|j: int| 0 <= j < before.len() && before[j] == e;
                assert(kept(outcomes)[j] == e);
            } else {
                let found = before.push(e);
                assert(found[found.len() - 1] == e);
            }
        }
    }
}

/// Nothing is kept if and only if no outcome is an endpoint.
pub proof fn lemma_none_kept_iff_all_none(outcomes: Seq<Option<Seq<char>>>)
    ensures
        kept(outcomes).len() == 0 <==> forall|i: int|
            0 <= i < outcomes.len() ==> (#[trigger] outcomes[i]) is None,
    decreases outcomes.len(),
{
    if outcomes.len() > 0 {
        let init = outcomes.drop_last();
        lemma_none_kept_iff_all_none(init);
        if kept(outcomes).len() == 0 {
            assert forall|i: int| 0 <= i < outcomes.len() implies (#[trigger] outcomes[i])
                is None by {
                if i < init.len() {
                    assert(init[i] == outcomes[i]);
                }
            }
        } else if outcomes.last() is None {
            let i = choose|i: int| 0 <= i < init.len() && !((#[trigger] init[i]) is None);
            assert(outcomes[i] == init[i]);
        }
    }
}

/// What the filter keeps is exactly what the transport accepts: a text is
/// among the accepted endpoints if and only if it is the canonical form of
/// some candidate.
pub proof fn lemma_accepted_are_the_valid(candidates: Seq<Seq<char>>, e: Seq<char>)
    ensures
        accepted_endpoints(candidates).contains(e) <==> exists|i: int|
            0 <= i < candidates.len() && endpoint_canonical(#[trigger] candidates[i]) == Some(e),
{
    let outcomes = parsed(candidates);
    lemma_kept_are_the_some(outcomes, e);
    if outcomes.contains(Some(e)) {
        let i = choose|i: int| 0 <= i < outcomes.len() && outcomes[i] == Some(e);
        assert(endpoint_canonical(candidates[i]) == Some(e));
    }
    if exists|i: int|
        0 <= i < candidates.len() && endpoint_canonical(#[trigger] candidates[i]) == Some(e) {
        let i = choose|i: int|
            0 <= i < candidates.len() && endpoint_canonical(#[trigger] candidates[i]) == Some(e);
        assert(outcomes[i] == Some(e));
    }
}

/// Nothing is kept if and only if no candidate is an endpoint.
pub proof fn lemma_none_accepted_iff_all_invalid(candidates: Seq<Seq<char>>)
    ensures
        accepted_endpoints(candidates).len() == 0 <==> forall|i: int|
            0 <= i < candidates.len() ==> endpoint_canonical(#[trigger] candidates[i]) is None,
{
    let outcomes = parsed(candidates);
    lemma_none_kept_iff_all_none(outcomes);
    if accepted_endpoints(candidates).len() == 0 {
        assert forall|i: int| 0 <= i < candidates.len() implies endpoint_canonical(
            #[trigger] candidates[i],
        ) is None by {
            assert(outcomes[i] is None);
        }
    } else {
        let i = choose|i: int| 0 <= i < outcomes.len() && !((#[trigger] outcomes[i]) is None);
        assert(!(endpoint_canonical(candidates[i]) is None));
    }
}

} // verus!
