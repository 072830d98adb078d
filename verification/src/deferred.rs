//! Deferred functions: what a transform node keeps, and what is asked of the
//! closures that callers hand in.
//!
//! A closure's postcondition says what it may return, not that it returns.
//! So a chunk's view takes a deferred closure `f` to return `outcome(f, a)`
//! (or `result_of(f, a)`), some value that the postcondition allows, and a
//! materialization, which has run `f`, reports that such values exist: the
//! chunk is then `productive`. From there a caller who knows the closure's
//! postcondition knows the elements.

use vstd::prelude::*;
use crate::chunk::Chunk;

verus! {

/// Cloning an element gives an equal element.
///
/// Materialization clones the elements it writes, so its result is the
/// chunk's view only for element types of which this holds (integers, `bool`,
/// `char`, `String`, and every type whose `clone` promises an equal value).
pub open spec fn exact_clone<A: Clone>() -> bool {
    forall|a: A, b: A| #[trigger] cloned(a, b) ==> a == b
}

/// The stored half of a transform node: a function from one element to the
/// elements that replace it, written straight into an output buffer.
pub trait Expander<A> {
    /// The elements on which the expansion may be asked for.
    spec fn accepts(&self, a: A) -> bool;

    /// The function from an element to the elements that replace it.
    spec fn expansion(&self) -> spec_fn(A) -> Seq<A>;

    /// The underlying function has a result on `a`. Nothing but a run shows
    /// this, so it is a conclusion of `expand_into`, never a premise.
    spec fn productive(&self, a: A) -> bool;

    /// Appends the expansion of `a` to `buf`.
    fn expand_into(&self, a: A, buf: &mut Vec<A>) where A: Clone
        requires
            self.accepts(a),
            exact_clone::<A>(),
        ensures
            final(buf)@ == old(buf)@ + (self.expansion())(a),
            self.productive(a),
    ;
}

/// The chunk that `f` is taken to return on `a`: one of those its
/// postcondition allows.
pub open spec fn outcome<A, F: Fn(A) -> Chunk<A>>(f: F, a: A) -> Chunk<A> {
    choose|c: Chunk<A>| f.ensures((a,), c)
}

/// The function from an element to the sequence that `f`'s chunk for it
/// stands for.
pub open spec fn outcomes<A, F: Fn(A) -> Chunk<A>>(f: F) -> spec_fn(A) -> Seq<A> {
    |a: A| outcome(f, a)@
}

/// `f` can be deferred over `a`: it may be called on `a`, and whatever it
/// gives back is well formed and stands for the same sequence as
/// `outcome(f, a)`.
pub open spec fn admits<A, F: Fn(A) -> Chunk<A>>(f: F, a: A) -> bool {
    &&& f.requires((a,))
    &&& forall|c: Chunk<A>| #[trigger] f.ensures((a,), c) ==> c.wf() && c@ == outcome(f, a)@
}

/// `f` has a result on `a` whose own deferred functions have results too.
pub open spec fn yields<A, F: Fn(A) -> Chunk<A>>(f: F, a: A) -> bool {
    exists|c: Chunk<A>| #[trigger] f.ensures((a,), c) && c.productive()
}

/// The element that `f` is taken to return on `a`: one of those its
/// postcondition allows.
pub open spec fn result_of<A, F: Fn(A) -> A>(f: F, a: A) -> A {
    choose|v: A| f.ensures((a,), v)
}

/// `f` as a function on elements.
pub open spec fn results<A, F: Fn(A) -> A>(f: F) -> spec_fn(A) -> A {
    |a: A| result_of(f, a)
}

/// The function that wraps each value of `m` in a sequence of length one.
pub open spec fn singletons<A, B>(m: spec_fn(A) -> B) -> spec_fn(A) -> Seq<B> {
    |a: A| seq![m(a)]
}

/// `f` is a function at `a`: it may be called on `a`, and it can return
/// nothing but `result_of(f, a)`.
pub open spec fn maps<A, F: Fn(A) -> A>(f: F, a: A) -> bool {
    &&& f.requires((a,))
    &&& forall|v: A| #[trigger] f.ensures((a,), v) ==> v == result_of(f, a)
}

/// `f` has a result on `a`.
pub open spec fn has_result<A, F: Fn(A) -> A>(f: F, a: A) -> bool {
    exists|v: A| #[trigger] f.ensures((a,), v)
}

/// The adapter behind `transform_flatten`: a closure from an element to the
/// chunk that replaces it.
pub struct FlatMapper<F> {
    pub f: F,
}

impl<A, F: Fn(A) -> Chunk<A>> Expander<A> for FlatMapper<F> {
    open spec fn accepts(&self, a: A) -> bool {
        admits(self.f, a)
    }

    open spec fn expansion(&self) -> spec_fn(A) -> Seq<A> {
        outcomes(self.f)
    }

    open spec fn productive(&self, a: A) -> bool {
        yields(self.f, a)
    }

    fn expand_into(&self, a: A, buf: &mut Vec<A>) where A: Clone {
        let c = (self.f)(a);
        c.as_vec_mut(buf);
    }
}

/// The adapter behind `transform`: a closure from an element to the one
/// element that replaces it.
pub struct Mapper<F> {
    pub f: F,
}

impl<A, F: Fn(A) -> A> Expander<A> for Mapper<F> {
    open spec fn accepts(&self, a: A) -> bool {
        maps(self.f, a)
    }

    open spec fn expansion(&self) -> spec_fn(A) -> Seq<A> {
        singletons(results(self.f))
    }

    open spec fn productive(&self, a: A) -> bool {
        has_result(self.f, a)
    }

    fn expand_into(&self, a: A, buf: &mut Vec<A>) where A: Clone {
        let c = Chunk::new().append((self.f)(a));
        c.as_vec_mut(buf);
    }
}

} // verus!
