//! The device matcher: finds, among the friendly names of the enumerated
//! capture endpoints, the first one that holds a name fragment, ignoring
//! case.
//!
//! An endpoint whose name could not be read is given as `None`. It never
//! matches and never ends the scan.

use vstd::prelude::*;

verus! {

/// The lowercase form of a text, as `str::to_lowercase` produces it.
pub uninterp spec fn lowercase_of(text: Seq<char>) -> Seq<char>;

/// Whether `needle` stands in `haystack` at position `start`.
pub open spec fn occurs_at(needle: Seq<char>, haystack: Seq<char>, start: int) -> bool {
    &&& 0 <= start
    &&& start + needle.len() <= haystack.len()
    &&& haystack.subrange(start, start + needle.len()) == needle
}

/// Whether `needle` is a contiguous part of `haystack`.
pub open spec fn occurs_in(needle: Seq<char>, haystack: Seq<char>) -> bool {
    exists|start: int| occurs_at(needle, haystack, start)
}

/// Whether a text is present and holds the fragment, case and all.
pub open spec fn holds_fragment(text: Option<Seq<char>>, fragment: Seq<char>) -> bool {
    text matches Some(t) && occurs_in(fragment, t)
}

/// Whether `index` is the position of the first text that holds the
/// fragment.
pub open spec fn is_first_holding(
    texts: Seq<Option<Seq<char>>>,
    fragment: Seq<char>,
    index: int,
) -> bool {
    &&& 0 <= index < texts.len()
    &&& holds_fragment(texts[index], fragment)
    &&& forall|earlier: int| 0 <= earlier < index ==> !holds_fragment(#[trigger] texts[earlier], fragment)
}

/// The position of the first text that holds the fragment, if any does.
pub open spec fn first_holding(texts: Seq<Option<Seq<char>>>, fragment: Seq<char>) -> Option<int> {
    if exists|index: int| is_first_holding(texts, fragment, index) {
        Some(choose|index: int| is_first_holding(texts, fragment, index))
    } else {
        None
    }
}

/// The names with each readable one in lowercase.
pub open spec fn lowered_names(names: Seq<Option<Seq<char>>>) -> Seq<Option<Seq<char>>> {
    Seq::new(
        names.len(),
        |i: int|
            match names[i] {
                Some(name) => Some(lowercase_of(name)),
                None => None,
            },
    )
}

/// Whether an endpoint's name is readable and holds the fragment when both
/// are taken in lowercase.
pub open spec fn matches_fragment(name: Option<Seq<char>>, fragment: Seq<char>) -> bool {
    name matches Some(n) && occurs_in(lowercase_of(fragment), lowercase_of(n))
}

/// Whether `index` is the position of the first endpoint, in the given
/// order, whose name matches the fragment.
pub open spec fn is_first_match(
    names: Seq<Option<Seq<char>>>,
    fragment: Seq<char>,
    index: int,
) -> bool {
    &&& 0 <= index < names.len()
    &&& matches_fragment(names[index], fragment)
    &&& forall|earlier: int| 0 <= earlier < index ==> !matches_fragment(#[trigger] names[earlier], fragment)
}

/// The position of the first endpoint whose name matches the fragment, if
/// any does.
pub open spec fn first_match(names: Seq<Option<Seq<char>>>, fragment: Seq<char>) -> Option<int> {
    first_holding(lowered_names(names), lowercase_of(fragment))
}

/// Only one position can be the first that holds the fragment.
pub proof fn lemma_first_holding_is_unique(
    texts: Seq<Option<Seq<char>>>,
    fragment: Seq<char>,
    a: int,
    b: int,
)
    requires
        is_first_holding(texts, fragment, a),
        is_first_holding(texts, fragment, b),
    ensures
        a == b,
{
    if a < b {
        assert(!holds_fragment(texts[a], fragment));
    } else if b < a {
        assert(!holds_fragment(texts[b], fragment));
    }
}

/// What `first_holding` finds: a position whose text holds the fragment
/// with none before it that does, or nothing where no text holds it.
pub proof fn lemma_first_holding_is_first(texts: Seq<Option<Seq<char>>>, fragment: Seq<char>)
    ensures
        match first_holding(texts, fragment) {
            Some(index) => is_first_holding(texts, fragment, index),
            None => forall|i: int| 0 <= i < texts.len() ==> !holds_fragment(#[trigger] texts[i], fragment),
        },
{
    if first_holding(texts, fragment) is None {
        assert forall|i: int| 0 <= i < texts.len() implies !holds_fragment(
            #[trigger] texts[i],
            fragment,
        ) by {
            if holds_fragment(texts[i], fragment) {
                lemma_some_holder_has_a_first(texts, fragment, i);
            }
        }
    }
}

/// Where some text up to `index` holds the fragment, a first one exists.
proof fn lemma_some_holder_has_a_first(texts: Seq<Option<Seq<char>>>, fragment: Seq<char>, index: int)
    requires
        0 <= index < texts.len(),
        holds_fragment(texts[index], fragment),
    ensures
        exists|first: int| is_first_holding(texts, fragment, first),
    decreases index,
{
    if exists|earlier: int| 0 <= earlier < index && holds_fragment(#[trigger] texts[earlier], fragment) {
        let earlier = choose|earlier: int|
            0 <= earlier < index && holds_fragment(#[trigger] texts[earlier], fragment);
        lemma_some_holder_has_a_first(texts, fragment, earlier);
    } else {
        assert(is_first_holding(texts, fragment, index));
    }
}

/// What `first_match` finds: the first endpoint, in the given order, whose
/// name is readable and holds the fragment when both are in lowercase; or
/// nothing where no endpoint has such a name.
pub proof fn lemma_first_match_is_first(names: Seq<Option<Seq<char>>>, fragment: Seq<char>)
    ensures
        match first_match(names, fragment) {
            Some(index) => is_first_match(names, fragment, index),
            None => forall|i: int| 0 <= i < names.len() ==> !matches_fragment(#[trigger] names[i], fragment),
        },
{
    let lowered = lowered_names(names);
    let needle = lowercase_of(fragment);
    lemma_first_holding_is_first(lowered, needle);
    match first_match(names, fragment) {
        Some(index) => {
            assert(holds_fragment(lowered[index], needle));
            assert forall|earlier: int| 0 <= earlier < index implies !matches_fragment(
                #[trigger] names[earlier],
                fragment,
            ) by {
                assert(!holds_fragment(lowered[earlier], needle));
            }
        },
        None => {
            assert forall|i: int| 0 <= i < names.len() implies !matches_fragment(
                #[trigger] names[i],
                fragment,
            ) by {
                assert(!holds_fragment(lowered[i], needle));
            }
        },
    }
}

/// Calls `str::to_lowercase`. The result is the lowercase form of the
/// text, which depends on the text alone.
#[verifier::external_body]
fn lowercase(text: &str) -> (lowered: String)
    ensures
        lowered@ == lowercase_of(text@),
{
    text.to_lowercase()
}

/// Calls `str::contains` with a string pattern. The result tells whether
/// the needle is a contiguous part of the haystack, character for
/// character; the empty needle is part of every haystack.
#[verifier::external_body]
fn contains(haystack: &str, needle: &str) -> (found: bool)
    ensures
        found == occurs_in(needle@, haystack@),
{
    haystack.contains(needle)
}

/// Finds the first text that is present and holds the fragment exactly as
/// it is written.
pub fn first_containing(texts: &Vec<Option<String>>, fragment: &str) -> (found: Option<usize>)
    ensures
        match found {
            Some(index) => {
                &&& is_first_holding(texts.deep_view(), fragment@, index as int)
                &&& first_holding(texts.deep_view(), fragment@) == Some(index as int)
            },
            None => {
                &&& forall|i: int|
                    0 <= i < texts.len() ==> !holds_fragment(
                        #[trigger] texts.deep_view()[i],
                        fragment@,
                    )
                &&& first_holding(texts.deep_view(), fragment@) is None
            },
        },
{
    let ghost views = texts.deep_view();
    let mut index: usize = 0;
    while index < texts.len()
        invariant
            index <= texts.len(),
            views == texts.deep_view(),
            forall|earlier: int| 0 <= earlier < index ==> !holds_fragment(#[trigger] views[earlier], fragment@),
        decreases texts.len() - index,
    {
        let holds = match &texts[index] {
            Some(text) => contains(text.as_str(), fragment),
            None => false,
        };
        assert(holds == holds_fragment(views[index as int], fragment@));
        if holds {
            proof {
                assert(is_first_holding(views, fragment@, index as int));
                let chosen = choose|i: int| is_first_holding(views, fragment@, i);
                lemma_first_holding_is_unique(views, fragment@, chosen, index as int);
            }
            return Some(index);
        }
        index = index + 1;
    }
    proof {
        lemma_first_holding_is_first(views, fragment@);
        if first_holding(views, fragment@) is Some {
            let at = first_holding(views, fragment@)->0;
            assert(holds_fragment(views[at], fragment@));
        }
    }
    None
}

/// Finds the first endpoint, in enumeration order, whose friendly name
/// holds the fragment, ignoring case. `None` in `names` is an endpoint
/// whose name could not be read.
pub fn find_by_name_fragment(names: &Vec<Option<String>>, fragment: &str) -> (found: Option<usize>)
    ensures
        match found {
            Some(index) => {
                &&& is_first_match(names.deep_view(), fragment@, index as int)
                &&& first_match(names.deep_view(), fragment@) == Some(index as int)
            },
            None => {
                &&& forall|i: int|
                    0 <= i < names.len() ==> !matches_fragment(
                        #[trigger] names.deep_view()[i],
                        fragment@,
                    )
                &&& first_match(names.deep_view(), fragment@) is None
            },
        },
{
    proof {
        lemma_first_match_is_first(names.deep_view(), fragment@);
    }
    let ghost wanted = lowered_names(names.deep_view());
    let mut lowered: Vec<Option<String>> = Vec::new();
    let mut index: usize = 0;
    while index < names.len()
        invariant
            index <= names.len(),
            lowered@.len() == index,
            wanted == lowered_names(names.deep_view()),
            forall|i: int| 0 <= i < index ==> (#[trigger] lowered@[i]).deep_view() == wanted[i],
        decreases names.len() - index,
    {
        let entry = match &names[index] {
            Some(name) => Some(lowercase(name.as_str())),
            None => None,
        };
        assert(entry.deep_view() == wanted[index as int]);
        lowered.push(entry);
        index = index + 1;
    }
    assert(lowered.deep_view() =~= wanted);
    let needle = lowercase(fragment);
    first_containing(&lowered, needle.as_str())
}

/// An additional device that the matcher found: the place of the fragment
/// that asked for it among the configured fragments, and the place of the
/// endpoint that it resolved to among the enumerated ones.
#[derive(Clone, Copy, Debug, PartialEq, Eq, Structural)]
pub struct Candidate {
    pub fragment: usize,
    pub endpoint: usize,
}

/// The candidates that the first `upto` fragments resolve to, in the order
/// of the fragments. A fragment that no name holds gives none.
pub open spec fn resolved_upto(
    names: Seq<Option<Seq<char>>>,
    fragments: Seq<Seq<char>>,
    upto: int,
) -> Seq<Candidate>
    decreases upto,
{
    if upto <= 0 {
        Seq::empty()
    } else {
        let before = resolved_upto(names, fragments, upto - 1);
        match first_match(names, fragments[upto - 1]) {
            Some(endpoint) => before.push(
                Candidate { fragment: (upto - 1) as usize, endpoint: endpoint as usize },
            ),
            None => before,
        }
    }
}

/// The candidates that the fragments resolve to among the names.
pub open spec fn resolved(names: Seq<Option<Seq<char>>>, fragments: Seq<Seq<char>>) -> Seq<
    Candidate,
> {
    resolved_upto(names, fragments, fragments.len() as int)
}

/// Each candidate names one of the first `upto` fragments and the first
/// endpoint that matches it; the candidates stand in the order of their
/// fragments, and a fragment that matches an endpoint has its candidate.
pub proof fn lemma_resolved_upto(
    names: Seq<Option<Seq<char>>>,
    fragments: Seq<Seq<char>>,
    upto: int,
)
    requires
        0 <= upto <= fragments.len() <= usize::MAX,
        names.len() <= usize::MAX,
    ensures
        resolved_upto(names, fragments, upto).len() <= upto,
        forall|i: int|
            0 <= i < resolved_upto(names, fragments, upto).len() ==> {
                let candidate = #[trigger] resolved_upto(names, fragments, upto)[i];
                &&& candidate.fragment < upto
                &&& candidate.endpoint < names.len()
                &&& first_match(names, fragments[candidate.fragment as int]) == Some(
                    candidate.endpoint as int,
                )
            },
        forall|i: int, j: int|
            0 <= i < j < resolved_upto(names, fragments, upto).len() ==> (
            #[trigger] resolved_upto(names, fragments, upto)[i]).fragment < (
            #[trigger] resolved_upto(names, fragments, upto)[j]).fragment,
        forall|fragment: int|
            0 <= fragment < upto && first_match(names, #[trigger] fragments[fragment]) is Some
                ==> exists|i: int|
                0 <= i < resolved_upto(names, fragments, upto).len() && (
                #[trigger] resolved_upto(names, fragments, upto)[i]).fragment == fragment,
    decreases upto,
{
    if upto > 0 {
        let before = resolved_upto(names, fragments, upto - 1);
        let now = resolved_upto(names, fragments, upto);
        lemma_resolved_upto(names, fragments, upto - 1);
        lemma_first_match_is_first(names, fragments[upto - 1]);
        assert forall|fragment: int|
            0 <= fragment < upto && first_match(names, #[trigger] fragments[fragment]) is Some
            implies exists|i: int| 0 <= i < now.len() && (#[trigger] now[i]).fragment == fragment by {
            if fragment < upto - 1 {
                let i = choose|i: int|
                    0 <= i < before.len() && (#[trigger] before[i]).fragment == fragment;
                assert(now[i].fragment == fragment);
            } else {
                assert(now[before.len() as int].fragment == fragment);
            }
        }
    }
}

/// Resolves each fragment, in order, to the first endpoint whose name
/// matches it. A fragment that matches no endpoint is passed over.
pub fn resolve_alternates(names: &Vec<Option<String>>, fragments: &Vec<String>) -> (found: Vec<
    Candidate,
>)
    ensures
        found@ == resolved(names.deep_view(), fragments.deep_view()),
{
    let ghost texts = fragments.deep_view();
    let mut found: Vec<Candidate> = Vec::new();
    let mut index: usize = 0;
    while index < fragments.len()
        invariant
            index <= fragments.len(),
            texts == fragments.deep_view(),
            found@ == resolved_upto(names.deep_view(), texts, index as int),
        decreases fragments.len() - index,
    {
        assert(texts[index as int] == fragments@[index as int]@);
        match find_by_name_fragment(names, fragments[index].as_str()) {
            Some(endpoint) => {
                found.push(Candidate { fragment: index, endpoint });
            },
            None => {},
        }
        index = index + 1;
    }
    found
}

} // verus!
