//! Facts about the first place at which a value stands in a sequence.

use vstd::prelude::*;

verus! {

/// A place that holds `needle`, with no earlier place holding it, is the
/// first one.
pub proof fn lemma_first_index<A>(s: Seq<A>, needle: A, i: int)
    requires
        0 <= i < s.len(),
        s[i] == needle,
        forall|j: int| 0 <= j < i ==> s[j] != needle,
    ensures
        s.index_of_first(needle) == Some(i),
{
    s.index_of_first_ensures(needle);
}

/// A value that stands nowhere has no first place.
pub proof fn lemma_no_index<A>(s: Seq<A>, needle: A)
    requires
        forall|j: int| 0 <= j < s.len() ==> s[j] != needle,
    ensures
        s.index_of_first(needle) is None,
{
    s.index_of_first_ensures(needle);
}

/// What `index_of_first` returns: the first place of `needle`, if any.
pub proof fn lemma_index_of_first<A>(s: Seq<A>, needle: A)
    ensures
        match s.index_of_first(needle) {
            Some(i) => 0 <= i < s.len() && s[i] == needle && forall|j: int|
                0 <= j < i ==> s[j] != needle,
            None => forall|j: int| 0 <= j < s.len() ==> s[j] != needle,
        },
{
    s.index_of_first_ensures(needle);
}

} // verus!
