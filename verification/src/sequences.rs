//! Facts about sequences that the proofs of the other modules share.

use vstd::prelude::*;

verus! {

/// Where the step yields nothing for any element, nothing comes out.
pub proof fn lemma_filter_map_none<A, B>(s: Seq<A>, f: spec_fn(A) -> Option<B>)
    requires
        forall|i: int| 0 <= i < s.len() ==> f(#[trigger] s[i]) is None,
    ensures
        s.filter_map(f) == Seq::<B>::empty(),
    decreases s.len(),
{
    if s.len() > 0 {
        let rest = s.drop_last();
        assert forall|i: int| 0 <= i < rest.len() implies f(#[trigger] rest[i]) is None by {
            assert(rest[i] == s[i]);
        }
        lemma_filter_map_none(rest, f);
        assert(f(s[s.len() - 1]) is None);
    }
}

/// What the step yields for an element is among what comes out.
pub proof fn lemma_filter_map_has<A, B>(s: Seq<A>, f: spec_fn(A) -> Option<B>, i: int)
    requires
        0 <= i < s.len(),
        f(s[i]) is Some,
    ensures
        s.filter_map(f).contains(f(s[i])->0),
    decreases s.len(),
{
    let rest = s.drop_last();
    let out = s.filter_map(f);
    let wanted = f(s[i])->0;
    if i == s.len() - 1 {
        let before = rest.filter_map(f);
        assert(out == before + seq![wanted]);
        assert(out[before.len() as int] == wanted);
    } else {
        assert(rest[i] == s[i]);
        lemma_filter_map_has(rest, f, i);
        let before = rest.filter_map(f);
        let at = choose|at: int| 0 <= at < before.len() && before[at] == wanted;
        match f(s.last()) {
            Some(b) => {
                assert(out == before + seq![b]);
                assert(out[at] == wanted);
            },
            None => {},
        }
    }
}

/// An element of one of the parts is an element of the whole.
pub proof fn lemma_flatten_has<A>(parts: Seq<Seq<A>>, k: int, i: int)
    requires
        0 <= k < parts.len(),
        0 <= i < parts[k].len(),
    ensures
        parts.flatten().contains(parts[k][i]),
    decreases parts.len(),
{
    let first = parts.first();
    let rest = parts.drop_first();
    let whole = parts.flatten();
    assert(whole == first + rest.flatten());
    if k == 0 {
        assert(whole[i] == parts[k][i]);
    } else {
        assert(rest[k - 1] == parts[k]);
        lemma_flatten_has(rest, k - 1, i);
        let at = choose|at: int| 0 <= at < rest.flatten().len() && rest.flatten()[at] == parts[k][i];
        assert(whole[first.len() + at] == parts[k][i]);
    }
}

/// An element of the whole is an element of one of the parts.
pub proof fn lemma_flatten_from<A>(parts: Seq<Seq<A>>, x: A)
    requires
        parts.flatten().contains(x),
    ensures
        exists|k: int, i: int|
            0 <= k < parts.len() && 0 <= i < parts[k].len() && #[trigger] parts[k][i] == x,
    decreases parts.len(),
{
    let whole = parts.flatten();
    let at = choose|at: int| 0 <= at < whole.len() && whole[at] == x;
    if parts.len() > 0 {
        let first = parts.first();
        let rest = parts.drop_first();
        assert(whole == first + rest.flatten());
        if at < first.len() {
            assert(parts[0][at] == x);
        } else {
            assert(rest.flatten()[at - first.len()] == x);
            lemma_flatten_from(rest, x);
            let (k, i) = choose|k: int, i: int|
                0 <= k < rest.len() && 0 <= i < rest[k].len() && #[trigger] rest[k][i] == x;
            assert(parts[k + 1][i] == x);
        }
    }
}

} // verus!
