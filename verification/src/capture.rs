//! Which outer bindings an action function captures.
//!
//! The capture list of an action is made from the identifiers that occur in it and the
//! bindings that enclosing scopes have declared so far: every occurrence that is such a
//! binding, once, in the order of first occurrence.
use crate::ast::{idents_view, lemma_idents_view_push, Ident, IdentV};
use vstd::prelude::*;

verus! {

/// The occurrences in `refs` that are among `candidates`, each binding once, in the
/// order in which they first occur.
pub open spec fn captures(refs: Seq<IdentV>, candidates: Seq<IdentV>) -> Seq<IdentV>
    decreases refs.len(),
{
    if refs.len() == 0 {
        seq![]
    } else {
        let earlier = captures(refs.drop_last(), candidates);
        let x = refs.last();
        if candidates.contains(x) && !earlier.contains(x) {
            earlier.push(x)
        } else {
            earlier
        }
    }
}

/// `k` is the first place at which `x` stands in `s`.
pub open spec fn is_first_index(s: Seq<IdentV>, x: IdentV, k: int) -> bool {
    &&& 0 <= k < s.len()
    &&& s[k] == x
    &&& forall|j: int| 0 <= j < k ==> s[j] != x
}

/// The first place at which `x` stands in `s`, for an `x` that `s` contains.
pub open spec fn first_index(s: Seq<IdentV>, x: IdentV) -> int {
    choose|k: int| is_first_index(s, x, k)
}

/// The first place of `x` in `s` is the one place that `is_first_index` holds of.
pub proof fn lemma_first_index(s: Seq<IdentV>, x: IdentV, k: int)
    requires
        is_first_index(s, x, k),
    ensures
        first_index(s, x) == k,
{
    let c = first_index(s, x);
    assert(is_first_index(s, x, c));
    if c < k {
        assert(s[c] != x);
    }
    if k < c {
        assert(s[k] != x);
    }
}

/// Whatever `s` contains has a first place in it.
pub proof fn lemma_first_index_exists(s: Seq<IdentV>, x: IdentV)
    requires
        s.contains(x),
    ensures
        is_first_index(s, x, first_index(s, x)),
    decreases s.len(),
{
    if s.last() == x && !s.drop_last().contains(x) {
        assert(is_first_index(s, x, s.len() - 1)) by {
            assert forall|j: int| 0 <= j < s.len() - 1 implies s[j] != x by {
                if s[j] == x {
                    assert(s.drop_last()[j] == x);
                }
            }
        }
    } else {
        let w = choose|i: int| 0 <= i < s.len() && s[i] == x;
        if w < s.len() - 1 {
            assert(s.drop_last()[w] == x);
        }
        assert(s.drop_last().contains(x));
        lemma_first_index_exists(s.drop_last(), x);
        let k = first_index(s.drop_last(), x);
        assert(is_first_index(s, x, k)) by {
            assert(s[k] == s.drop_last()[k]);
            assert forall|j: int| 0 <= j < k implies s[j] != x by {
                assert(s[j] == s.drop_last()[j]);
            }
        }
    }
}

/// A capture list holds no binding twice.
pub proof fn lemma_captures_distinct(refs: Seq<IdentV>, candidates: Seq<IdentV>)
    ensures
        captures(refs, candidates).no_duplicates(),
    decreases refs.len(),
{
    if refs.len() > 0 {
        lemma_captures_distinct(refs.drop_last(), candidates);
    }
}

/// A binding is captured exactly when it occurs in the action and is a candidate.
pub proof fn lemma_captures_members(refs: Seq<IdentV>, candidates: Seq<IdentV>, x: IdentV)
    ensures
        captures(refs, candidates).contains(x) <==> refs.contains(x) && candidates.contains(x),
    decreases refs.len(),
{
    if refs.len() > 0 {
        let earlier = captures(refs.drop_last(), candidates);
        lemma_captures_members(refs.drop_last(), candidates, x);
        if refs.contains(x) {
            let w = choose|i: int| 0 <= i < refs.len() && refs[i] == x;
            if w < refs.len() - 1 {
                assert(refs.drop_last()[w] == x);
            }
        }
        if refs.drop_last().contains(x) {
            let w = choose|i: int| 0 <= i < refs.len() - 1 && refs.drop_last()[i] == x;
            assert(refs[w] == x);
        }
        if refs.last() == x {
            assert(refs[refs.len() - 1] == x);
        }
        let all = captures(refs, candidates);
        if earlier.contains(x) {
            let w = choose|i: int| 0 <= i < earlier.len() && earlier[i] == x;
            assert(all[w] == x);
        }
        if all.contains(x) && !earlier.contains(x) {
            let w = choose|i: int| 0 <= i < all.len() && all[i] == x;
            if w < earlier.len() {
                assert(earlier[w] == x);
            }
        }
        if all.len() > earlier.len() {
            assert(all[all.len() - 1] == refs.last());
        }
    }
}

/// Captures stand in the order in which they first occur in the action.
pub proof fn lemma_captures_ordered(refs: Seq<IdentV>, candidates: Seq<IdentV>, i: int, j: int)
    requires
        0 <= i < j < captures(refs, candidates).len(),
    ensures
        first_index(refs, captures(refs, candidates)[i]) < first_index(
            refs,
            captures(refs, candidates)[j],
        ),
    decreases refs.len(),
{
    let all = captures(refs, candidates);
    let earlier = captures(refs.drop_last(), candidates);
    let shorter = refs.drop_last();
    assert(refs.len() > 0);
    // Each earlier capture occurs in the shorter list, at the same first place.
    assert forall|k: int| 0 <= k < earlier.len() implies first_index(refs, #[trigger] earlier[k])
        == first_index(shorter, earlier[k]) && first_index(shorter, earlier[k]) < shorter.len() by {
        let x = earlier[k];
        assert(earlier.contains(x));
        lemma_captures_members(shorter, candidates, x);
        lemma_first_index_exists(shorter, x);
        let f = first_index(shorter, x);
        assert(is_first_index(refs, x, f)) by {
            assert(refs[f] == shorter[f]);
            assert forall|m: int| 0 <= m < f implies refs[m] != x by {
                assert(refs[m] == shorter[m]);
            }
        }
        lemma_first_index(refs, x, f);
    }
    if j < earlier.len() {
        lemma_captures_ordered(shorter, candidates, i, j);
        assert(all[i] == earlier[i]);
        assert(all[j] == earlier[j]);
    } else {
        // The last capture is new: it occurs nowhere in the shorter list.
        let x = refs.last();
        assert(all[j] == x);
        assert(all[i] == earlier[i]);
        lemma_captures_members(shorter, candidates, x);
        assert(!shorter.contains(x));
        assert(is_first_index(refs, x, refs.len() - 1)) by {
            assert forall|m: int| 0 <= m < refs.len() - 1 implies refs[m] != x by {
                if refs[m] == x {
                    assert(shorter[m] == x);
                }
            }
        }
        lemma_first_index(refs, x, refs.len() - 1);
    }
}

/// A binding that is no candidate is not captured, whatever it is spelled like: an
/// identifier that shares its spelling with candidates but its scope with none of them
/// stays out of the capture list.
pub proof fn lemma_other_scope_not_captured(
    refs: Seq<IdentV>,
    candidates: Seq<IdentV>,
    x: IdentV,
)
    requires
        forall|i: int|
            0 <= i < candidates.len() && candidates[i].sym == x.sym ==> candidates[i].scope
                != x.scope,
    ensures
        !captures(refs, candidates).contains(x),
{
    lemma_captures_members(refs, candidates, x);
    if candidates.contains(x) {
        let i = choose|i: int| 0 <= i < candidates.len() && candidates[i] == x;
        assert(candidates[i].scope == x.scope);
    }
}

/// Captures stand in the order of declaration wherever the candidates first occur in
/// the action in the order in which they were declared.
pub proof fn lemma_captures_in_declaration_order(
    refs: Seq<IdentV>,
    candidates: Seq<IdentV>,
    i: int,
    j: int,
)
    requires
        0 <= i < j < captures(refs, candidates).len(),
        forall|x: IdentV, y: IdentV|
            #![trigger first_index(refs, x), first_index(refs, y)]
            refs.contains(x) && refs.contains(y) && candidates.contains(x) && candidates.contains(
                y,
            ) && first_index(refs, x) < first_index(refs, y) ==> first_index(candidates, x)
                < first_index(candidates, y),
    ensures
        first_index(candidates, captures(refs, candidates)[i]) < first_index(
            candidates,
            captures(refs, candidates)[j],
        ),
{
    let all = captures(refs, candidates);
    lemma_captures_ordered(refs, candidates, i, j);
    assert(all.contains(all[i]));
    assert(all.contains(all[j]));
    lemma_captures_members(refs, candidates, all[i]);
    lemma_captures_members(refs, candidates, all[j]);
}

/// The number of captures is the number of distinct bindings that occur in the action
/// and are candidates.
pub proof fn lemma_captures_count(refs: Seq<IdentV>, candidates: Seq<IdentV>)
    ensures
        captures(refs, candidates).len() == refs.to_set().intersect(candidates.to_set()).len(),
{
    let all = captures(refs, candidates);
    lemma_captures_distinct(refs, candidates);
    all.unique_seq_to_set();
    assert forall|x: IdentV|
        all.to_set().contains(x) <==> refs.to_set().intersect(candidates.to_set()).contains(
            x,
        ) by {
        lemma_captures_members(refs, candidates, x);
    }
    assert(all.to_set() =~= refs.to_set().intersect(candidates.to_set()));
}

/// Whether `x` denotes one of the bindings in `ids`.
pub fn contains_binding(ids: &Vec<Ident>, x: &Ident) -> (r: bool)
    ensures
        r == idents_view(ids@).contains(x@),
{
    position(ids, x).is_some()
}

/// The first place at which the binding that `x` denotes stands in `ids`.
pub fn position(ids: &Vec<Ident>, x: &Ident) -> (r: Option<usize>)
    ensures
        match r {
            Some(k) => is_first_index(idents_view(ids@), x@, k as int),
            None => !idents_view(ids@).contains(x@),
        },
{
    let mut i: usize = 0;
    while i < ids.len()
        invariant
            i <= ids.len(),
            forall|j: int| 0 <= j < i ==> idents_view(ids@)[j] != x@,
        decreases ids.len() - i,
    {
        if ids[i].same_binding(x) {
            return Some(i);
        }
        i += 1;
    }
    None
}

/// The capture list of an action whose identifiers are `refs`, in source order, given
/// the bindings declared so far by enclosing scopes.
pub fn capture_list(refs: &Vec<Ident>, candidates: &Vec<Ident>) -> (caps: Vec<Ident>)
    ensures
        idents_view(caps@) == captures(idents_view(refs@), idents_view(candidates@)),
{
    let mut caps: Vec<Ident> = Vec::new();
    let mut i: usize = 0;
    let ghost all = idents_view(refs@);
    assert(idents_view(caps@) =~= Seq::<IdentV>::empty());
    assert(all.take(0) =~= Seq::<IdentV>::empty());
    while i < refs.len()
        invariant
            i <= refs.len(),
            all == idents_view(refs@),
            idents_view(caps@) == captures(all.take(i as int), idents_view(candidates@)),
        decreases refs.len() - i,
    {
        proof {
            let next = all.take(i + 1);
            assert(next.drop_last() =~= all.take(i as int));
            assert(next.last() == refs@[i as int]@);
        }
        if contains_binding(candidates, &refs[i]) && !contains_binding(&caps, &refs[i]) {
            let c = refs[i].copy();
            proof {
                lemma_idents_view_push(caps@, c);
            }
            caps.push(c);
        }
        i += 1;
    }
    assert(all.take(i as int) =~= all);
    caps
}

} // verus!
