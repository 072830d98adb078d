//! Laws of the construction operators, stated over the view.

use vstd::prelude::*;
use crate::chunk::Chunk;
use crate::deferred::{
    admits, exact_clone, has_result, maps, outcome, outcomes, results, singletons, yields,
};

verus! {

/// Appending the elements of a sequence, in order, to the empty chunk gives a
/// chunk that stands for that sequence, and that can be materialized.
pub proof fn lemma_from_seq<A>(s: Seq<A>)
    ensures
        Chunk::from_seq(s)@ == s,
        Chunk::from_seq(s).wf(),
        Chunk::from_seq(s).productive(),
    decreases s.len(),
{
    if s.len() > 0 {
        lemma_from_seq(s.drop_last());
    }
}

/// The empty chunk is the identity of concatenation, on either side: the
/// other operand comes back as it is.
pub proof fn lemma_concat_empty<A>(x: Chunk<A>)
    ensures
        Chunk::<A>::Empty.concat(x) == x,
        x.concat(Chunk::<A>::Empty) == x,
        Chunk::<A>::Empty.concat(x)@ == x@,
        x.concat(Chunk::<A>::Empty)@ == x@,
{
}

/// A concatenation stands for its left operand followed by its right one.
pub proof fn lemma_concat_view<A>(x: Chunk<A>, y: Chunk<A>)
    ensures
        x.concat(y)@ == x@ + y@,
        x.concat(y).wf() == (x.wf() && y.wf()),
        x.concat(y).productive() == (x.productive() && y.productive()),
{
}

/// Concatenation is associative in what it stands for, though the two trees
/// differ in shape.
pub proof fn lemma_concat_assoc<A>(x: Chunk<A>, y: Chunk<A>, z: Chunk<A>)
    ensures
        x.concat(y).concat(z)@ == x.concat(y.concat(z))@,
        x.concat(y).concat(z).wf() == x.concat(y.concat(z)).wf(),
{
    lemma_concat_view(x.concat(y), z);
    lemma_concat_view(x, y.concat(z));
}

/// Appending to a clone leaves the original as it was: where cloning an
/// element gives an equal element, the clone is the original, and the
/// extended chunk stands for the original's sequence followed by `v`.
pub proof fn lemma_append_to_clone<A: Clone>(x: Chunk<A>, y: Chunk<A>, v: A)
    requires
        x.shares_with(y),
        exact_clone::<A>(),
    ensures
        y == x,
        y.append(v)@ == x@.push(v),
        y.append(v)@.drop_last() == x@,
{
}

/// A chunk without transform nodes, in which no concatenation has an empty
/// operand, stands for the empty sequence only if it is `Empty`.
pub proof fn lemma_empty_unique<A>(x: &Chunk<A>)
    requires
        x.wf(),
        x.eager(),
    ensures
        x@.len() == 0 <==> x is Empty,
    decreases x,
{
    // A concatenation holds its right operand, which is not `Empty`.
    if let Chunk::Concat(_, right) = x {
        lemma_empty_unique(right);
    }
}

/// A flat-map in which every element has one replacement is a map.
pub proof fn lemma_flat_map_singletons<A, B>(s: Seq<A>, m: spec_fn(A) -> B)
    ensures
        s.flat_map(singletons(m)) == s.map_values(m),
    decreases s.len(),
{
    if s.len() > 0 {
        let head = s.drop_last();
        lemma_flat_map_singletons(head, m);
        assert(s == head.push(s.last()));
        head.lemma_flat_map_push(singletons(m), s.last());
    }
}

/// Element by element, a productive `transform` holds a value that `f` may
/// return on the element it replaces.
pub proof fn lemma_transform_pointwise<A, F: Fn(A) -> A>(s: Seq<A>, f: F, i: int)
    requires
        0 <= i < s.len(),
        has_result(f, s[i]),
    ensures
        s.map_values(results(f)).len() == s.len(),
        f.ensures((s[i],), s.map_values(results(f))[i]),
{
}

/// What a productive `transform_flatten` puts in the place of an element is
/// what a chunk that `f` may return on it stands for.
pub proof fn lemma_transform_flatten_pointwise<A, F: Fn(A) -> Chunk<A>>(f: F, a: A)
    requires
        yields(f, a),
    ensures
        f.ensures((a,), outcome(f, a)),
        outcomes(f)(a) == outcome(f, a)@,
{
}

/// Where all that `f` may return on `a` is well formed and stands for `s`,
/// `f` can be deferred over `a`; and once `f` has a result on `a`, the
/// replacement of `a` is `s`.
pub proof fn lemma_admits<A, F: Fn(A) -> Chunk<A>>(f: F, a: A, s: Seq<A>)
    requires
        f.requires((a,)),
        forall|c: Chunk<A>| #[trigger] f.ensures((a,), c) ==> c.wf() && c@ == s,
    ensures
        admits(f, a),
        yields(f, a) ==> outcomes(f)(a) == s,
{
}

/// Where `f` may be called on `a` and can return nothing but `v`, `f` is a
/// function at `a`; and once `f` has a result on `a`, that result is `v`.
pub proof fn lemma_maps<A, F: Fn(A) -> A>(f: F, a: A, v: A)
    requires
        f.requires((a,)),
        forall|w: A| #[trigger] f.ensures((a,), w) ==> w == v,
    ensures
        maps(f, a),
        has_result(f, a) ==> results(f)(a) == v,
{
}

} // verus!
