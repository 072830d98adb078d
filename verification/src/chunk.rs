//! The node type, its construction operators and materialization.

use vstd::prelude::*;
use std::rc::Rc;
use crate::laws::{lemma_flat_map_singletons, lemma_from_seq};
use crate::deferred::{
    admits, exact_clone, has_result, maps, outcomes, results, singletons, yields, Expander,
    FlatMapper, Mapper,
};

verus! {

/// A persistent sequence, kept as the record of how it was built.
#[verifier::reject_recursive_types(A)]
pub enum Chunk<A> {
    /// The sequence without elements.
    Empty,
    /// The second field, followed by the first as its last element.
    Append(A, Rc<Chunk<A>>),
    /// The first field followed by the second.
    Concat(Rc<Chunk<A>>, Rc<Chunk<A>>),
    /// Each element of the first field, in order, replaced by what the
    /// second makes of it. Nothing is applied before materialization.
    TransformFlatten(Rc<Chunk<A>>, Rc<Box<dyn Expander<A>>>),
}

impl<A> Chunk<A> {
    /// The sequence that the chunk stands for.
    pub open spec fn view(&self) -> Seq<A>
        decreases self,
    {
        match self {
            Chunk::Empty => Seq::empty(),
            Chunk::Append(a, rest) => rest.view().push(*a),
            Chunk::Concat(left, right) => left.view() + right.view(),
            Chunk::TransformFlatten(base, t) => base.view().flat_map(t.expansion()),
        }
    }

    /// The chunk can be materialized: no concatenation node has an empty
    /// operand, and every deferred function accepts each element that its
    /// base stands for.
    pub open spec fn wf(&self) -> bool
        decreases self,
    {
        match self {
            Chunk::Empty => true,
            Chunk::Append(_, rest) => rest.wf(),
            Chunk::Concat(left, right) => {
                &&& left.wf()
                &&& right.wf()
                &&& !(**left is Empty)
                &&& !(**right is Empty)
            },
            Chunk::TransformFlatten(base, t) => {
                &&& base.wf()
                &&& forall|i: int| 0 <= i < base@.len() ==> t.accepts(#[trigger] base@[i])
            },
        }
    }

    /// Every deferred function in the chunk has a result on each element
    /// that its base stands for. A completed materialization shows this.
    pub open spec fn productive(&self) -> bool
        decreases self,
    {
        match self {
            Chunk::Empty => true,
            Chunk::Append(_, rest) => rest.productive(),
            Chunk::Concat(left, right) => left.productive() && right.productive(),
            Chunk::TransformFlatten(base, t) => {
                &&& base.productive()
                &&& forall|i: int| 0 <= i < base@.len() ==> t.productive(#[trigger] base@[i])
            },
        }
    }

    /// The empty chunk.
    pub fn new() -> (r: Self)
        ensures
            r == Chunk::<A>::Empty,
            r@ == Seq::<A>::empty(),
            r.wf(),
    {
        Chunk::Empty
    }

    /// Whether the chunk is the `Empty` node. Looks at the root only.
    pub fn is_null(&self) -> (r: bool)
        ensures
            r == (self is Empty),
    {
        matches!(self, Chunk::Empty)
    }

    /// What `append` returns: an `Append` node over the chunk.
    pub open spec fn spec_append(self, a: A) -> Self {
        Chunk::Append(a, Rc::new(self))
    }

    /// The chunk extended by `a` at its end.
    #[verifier::when_used_as_spec(spec_append)]
    pub fn append(self, a: A) -> (r: Self)
        ensures
            r == self.spec_append(a),
            r@ == self@.push(a),
            r.wf() == self.wf(),
            r.productive() == self.productive(),
    {
        Chunk::Append(a, Rc::new(self))
    }

    /// What `concat` returns: the other operand where one is `Empty`, else a
    /// `Concat` node over the two.
    pub open spec fn spec_concat(self, other: Self) -> Self {
        if self is Empty {
            other
        } else if other is Empty {
            self
        } else {
            Chunk::Concat(Rc::new(self), Rc::new(other))
        }
    }

    /// The chunk followed by `other`. An empty operand is dropped, so that no
    /// concatenation node holds one.
    #[verifier::when_used_as_spec(spec_concat)]
    pub fn concat(self, other: Self) -> (r: Self)
        ensures
            r == self.spec_concat(other),
            r@ == self@ + other@,
            r.wf() == (self.wf() && other.wf()),
            r.productive() == (self.productive() && other.productive()),
    {
        if self.is_null() {
            return other;
        }
        if other.is_null() {
            return self;
        }
        Chunk::Concat(Rc::new(self), Rc::new(other))
    }

    /// The chunk built by appending the elements of `s`, in order, to the
    /// empty chunk.
    pub open spec fn from_seq(s: Seq<A>) -> Self
        decreases s.len(),
    {
        if s.len() == 0 {
            Chunk::Empty
        } else {
            Self::from_seq(s.drop_last()).append(s.last())
        }
    }

    /// The chunk built by appending the items, in order, to the empty chunk.
    pub fn from_vec(items: Vec<A>) -> (r: Self)
        ensures
            r == Self::from_seq(items@),
            r@ == items@,
            r.wf(),
            r.productive(),
    {
        let ghost all = items@;
        let mut chunk = Chunk::new();
        for item in it: items.into_iter()
            invariant
                it.seq() == all,
                chunk == Self::from_seq(all.take(it.index())),
        {
            proof {
                let next = all.take(it.index() + 1);
                assert(next.drop_last() == all.take(it.index()));
            }
            chunk = chunk.append(item);
        }
        proof {
            assert(all.take(all.len() as int) == all);
            lemma_from_seq(all);
        }
        chunk
    }

    /// The chunk in which each element is replaced by what `f` makes of it:
    /// a deferred flat-map in which every element has one replacement.
    /// Stores `f`; calls it only at materialization.
    pub fn transform(self, f: impl Fn(A) -> A + 'static) -> (r: Self)
        ensures
            r is TransformFlatten && *r->TransformFlatten_0 == self,
            r@ == self@.map_values(results(f)),
            r@ == self@.flat_map(singletons(results(f))),
            r.wf() == (self.wf() && forall|i: int|
                0 <= i < self@.len() ==> maps(f, #[trigger] self@[i])),
            r.productive() == (self.productive() && forall|i: int|
                0 <= i < self@.len() ==> has_result(f, #[trigger] self@[i])),
    {
        proof {
            lemma_flat_map_singletons(self@, results(f));
        }
        let t: Box<dyn Expander<A>> = Box::new(Mapper { f });
        let shared = Rc::new(t);
        Chunk::TransformFlatten(Rc::new(self), shared)
    }

    /// The chunk in which each element is replaced by the elements of the
    /// chunk that `f` makes of it. Stores `f`; calls it only at
    /// materialization.
    pub fn transform_flatten(self, f: impl Fn(A) -> Chunk<A> + 'static) -> (r: Self)
        ensures
            r is TransformFlatten && *r->TransformFlatten_0 == self,
            r@ == self@.flat_map(outcomes(f)),
            r.wf() == (self.wf() && forall|i: int|
                0 <= i < self@.len() ==> admits(f, #[trigger] self@[i])),
            r.productive() == (self.productive() && forall|i: int|
                0 <= i < self@.len() ==> yields(f, #[trigger] self@[i])),
    {
        let t: Box<dyn Expander<A>> = Box::new(FlatMapper { f });
        let shared = Rc::new(t);
        Chunk::TransformFlatten(Rc::new(self), shared)
    }

    /// Materializes the chunk into a new vector.
    pub fn as_vec(&self) -> (r: Vec<A>) where A: Clone
        requires
            self.wf(),
            exact_clone::<A>(),
        ensures
            r@ == self@,
            self.productive(),
    {
        let mut vec = Vec::new();
        self.as_vec_mut(&mut vec);
        vec
    }

    /// Materializes the chunk at the end of `buf`.
    ///
    /// Chains of `Append` and `Concat` nodes are walked with a work list on
    /// the heap, so that their length does not bound the depth of the call
    /// stack. A transform node materializes its base first, then hands each
    /// element, in order, to the deferred function.
    pub fn as_vec_mut(&self, buf: &mut Vec<A>) where A: Clone
        requires
            self.wf(),
            exact_clone::<A>(),
        ensures
            final(buf)@ == old(buf)@ + self@,
            self.productive(),
        decreases self.size(),
    {
        let mut work: Vec<Task<A>> = Vec::new();
        work.push(Task::Visit(self));
        proof {
            lemma_push(Seq::empty(), Task::Visit(self));
        }
        while work.len() > 0
            invariant
                exact_clone::<A>(),
                buf@ + pending(work@) == old(buf)@ + self@,
                forall|i: int| 0 <= i < work@.len() ==> (#[trigger] work@[i]).ready(self.size()),
                all_productive(work@) ==> self.productive(),
            decreases weight(work@), work@.len(),
        {
            let ghost before = work@;
            let ghost written = buf@;
            let task = work.pop().unwrap();
            let ghost below = work@;
            match task {
                Task::Emit(a) => {
                    let last = a.clone();
                    assert(cloned(*a, last));
                    buf.push(last);
                },
                Task::Visit(chunk) => match chunk {
                    Chunk::Empty => {},
                    Chunk::Append(a, rest) => {
                        work.push(Task::Emit(a));
                        work.push(Task::Visit(rest));
                        proof {
                            let mid = below.push(Task::Emit(a));
                            lemma_push(below, Task::Emit(a));
                            lemma_push(mid, Task::Visit(rest));
                        }
                    },
                    Chunk::Concat(left, right) => {
                        work.push(Task::Visit(right));
                        work.push(Task::Visit(left));
                        proof {
                            let mid = below.push(Task::Visit(right));
                            lemma_push(below, Task::Visit(right));
                            lemma_push(mid, Task::Visit(left));
                            assert(work@[work@.len() - 1].productive() && work@[work@.len()
                                - 2].productive() ==> task.productive());
                        }
                    },
                    Chunk::TransformFlatten(base, t) => {
                        let mut tmp = Vec::new();
                        base.as_vec_mut(&mut tmp);
                        let ghost elems = tmp@;
                        let ghost f = t.expansion();
                        for elem in it: tmp.into_iter()
                            invariant
                                exact_clone::<A>(),
                                it.seq() == elems,
                                f == t.expansion(),
                                forall|j: int|
                                    0 <= j < elems.len() ==> t.accepts(#[trigger] elems[j]),
                                forall|j: int|
                                    0 <= j < it.index() ==> t.productive(#[trigger] elems[j]),
                                buf@ == written + elems.take(it.index()).flat_map(f),
                        {
                            proof {
                                elems.lemma_flat_map_take_append(f, it.index());
                            }
                            t.expand_into(elem, buf);
                        }
                        proof {
                            assert(elems.take(elems.len() as int) == elems);
                        }
                    },
                },
            }
            proof {
                // What is left of the list is productive only if the list
                // was so before this step.
                if all_productive(work@) {
                    assert forall|i: int| 0 <= i < before.len() implies (
                    #[trigger] before[i]).productive() by {
                        if i < below.len() {
                            assert(work@[i].productive());
                        }
                    }
                }
            }
        }
    }

    /// The chunk holds no transform node.
    pub open spec fn eager(&self) -> bool
        decreases self,
    {
        match self {
            Chunk::Empty => true,
            Chunk::Append(_, rest) => rest.eager(),
            Chunk::Concat(left, right) => left.eager() && right.eager(),
            Chunk::TransformFlatten(_, _) => false,
        }
    }

    /// The number of nodes of the chunk.
    pub open spec fn size(&self) -> nat
        decreases self,
    {
        match self {
            Chunk::Empty => 1,
            Chunk::Append(_, rest) => rest.size() + 1,
            Chunk::Concat(left, right) => left.size() + right.size() + 1,
            Chunk::TransformFlatten(base, _) => base.size() + 1,
        }
    }
}

/// One entry of the work list of a materialization.
#[verifier::reject_recursive_types(A)]
enum Task<'a, A> {
    /// A chunk that is still to be written.
    Visit(&'a Chunk<A>),
    /// One element that is still to be written.
    Emit(&'a A),
}

impl<'a, A> Task<'a, A> {
    /// What the task writes.
    spec fn output(self) -> Seq<A> {
        match self {
            Task::Visit(chunk) => chunk@,
            Task::Emit(a) => seq![*a],
        }
    }

    /// The task can be carried out, and its chunk has at most `bound` nodes.
    spec fn ready(self, bound: nat) -> bool {
        match self {
            Task::Visit(chunk) => chunk.wf() && chunk.size() <= bound,
            Task::Emit(_) => true,
        }
    }

    /// The chunk of the task, if it has one, is productive.
    spec fn productive(self) -> bool {
        match self {
            Task::Visit(chunk) => chunk.productive(),
            Task::Emit(_) => true,
        }
    }

    /// The number of nodes that the task has still to visit.
    spec fn nodes(self) -> nat {
        match self {
            Task::Visit(chunk) => chunk.size(),
            Task::Emit(_) => 0,
        }
    }
}

/// What a work list writes: its tasks' outputs, from the last entry to the
/// first.
spec fn pending<A>(work: Seq<Task<A>>) -> Seq<A>
    decreases work.len(),
{
    if work.len() == 0 {
        Seq::empty()
    } else {
        work.last().output() + pending(work.drop_last())
    }
}

/// The number of nodes that a work list has still to visit.
spec fn weight<A>(work: Seq<Task<A>>) -> nat
    decreases work.len(),
{
    if work.len() == 0 {
        0
    } else {
        work.last().nodes() + weight(work.drop_last())
    }
}

/// Pushing a task puts its output in front and adds its nodes.
proof fn lemma_push<A>(work: Seq<Task<A>>, task: Task<A>)
    ensures
        pending(work.push(task)) == task.output() + pending(work),
        weight(work.push(task)) == task.nodes() + weight(work),
{
    assert(work.push(task).drop_last() == work);
}

/// Every chunk on the work list is productive.
spec fn all_productive<A>(work: Seq<Task<A>>) -> bool {
    forall|i: int| 0 <= i < work.len() ==> (#[trigger] work[i]).productive()
}

impl<A> Default for Chunk<A> {
    /// The empty chunk.
    fn default() -> (r: Self)
        ensures
            r == Chunk::<A>::Empty,
            r@ == Seq::<A>::empty(),
            r.wf(),
    {
        Chunk::Empty
    }
}

impl<A: Clone> Clone for Chunk<A> {
    /// A chunk that shares every operand with `self`. Only the element held
    /// by the root, if any, is cloned.
    fn clone(&self) -> (r: Self)
        ensures
            self.shares_with(r),
    {
        match self {
            Chunk::Empty => Chunk::Empty,
            Chunk::Append(a, rest) => Chunk::Append(a.clone(), Rc::clone(rest)),
            Chunk::Concat(left, right) => Chunk::Concat(Rc::clone(left), Rc::clone(right)),
            Chunk::TransformFlatten(base, t) => Chunk::TransformFlatten(Rc::clone(base), Rc::clone(t)),
        }
    }
}

impl<A: Clone> Chunk<A> {
    /// `other` is what cloning `self` may give.
    pub open spec fn shares_with(self, other: Self) -> bool {
        match self {
            Chunk::Append(a, rest) => other matches Chunk::Append(b, kept) && cloned(a, b) && kept == rest,
            _ => other == self,
        }
    }
}

} // verus!
