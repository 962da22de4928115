//! One activation of a routine, linked to the activation that called it.
//!
//! A [`CallFrame`] records which routine runs and where it was invoked, and
//! holds that routine's register file and variable scope. The two are type
//! parameters: the frame stores them and never looks inside. A frame owns the
//! frame of its caller, so the frames of one call stack form a chain that ends
//! at the frame without a caller, and no frame can be its own ancestor.
//!
//! [`CallFrame::ancestry`] is the mathematical view of that chain, and the
//! contracts below are stated over it.

use vstd::prelude::*;

verus! {

/// One activation of a routine: where it was invoked, its own register file
/// and variable scope, and the frame of its caller.
pub struct CallFrame<R, V> {
    /// The name of the routine.
    pub name: String,
    /// The source file that the routine was invoked from.
    pub file: String,
    /// The line in `file`.
    pub line: usize,
    /// The frame of the caller, owned by this frame.
    pub parent: Option<Box<CallFrame<R, V>>>,
    /// The register file of this activation.
    pub register: R,
    /// The variables of this activation.
    pub variables: V,
}

impl<R, V> CallFrame<R, V> {
    /// The call stack as seen from this frame: the frame itself, then its
    /// caller, then the caller's caller, down to the frame that has none.
    pub open spec fn ancestry(&self) -> Seq<CallFrame<R, V>>
        decreases self,
    {
        match self.parent {
            None => seq![*self],
            Some(parent) => seq![*self] + parent.ancestry(),
        }
    }

    /// This frame with `parent` as its caller.
    pub open spec fn with_parent(self, parent: CallFrame<R, V>) -> CallFrame<R, V> {
        CallFrame { parent: Some(Box::new(parent)), ..self }
    }

    /// Whether `self` and `other` are one activation: alike in all but their
    /// callers.
    pub open spec fn same_activation(&self, other: &CallFrame<R, V>) -> bool {
        &&& self.name == other.name
        &&& self.file == other.file
        &&& self.line == other.line
        &&& self.register == other.register
        &&& self.variables == other.variables
    }

    /// Makes `parent` the caller of this frame and takes ownership of it.
    ///
    /// A caller that was attached before is dropped, with all of its own
    /// ancestors.
    pub fn set_parent(&mut self, parent: CallFrame<R, V>)
        ensures
            *final(self) == old(self).with_parent(parent),
    {
        self.parent = Some(Box::new(parent));
    }

    /// Calls `visit` once on this frame and then once on each of its
    /// ancestors, from the most recent caller to the oldest, and returns what
    /// the calls gave, in the order in which they were made.
    pub fn each_frame<T, F>(&self, visit: F) -> (visited: Vec<T>) where
        F: Fn(&CallFrame<R, V>) -> T,

        requires
            forall|depth: int|
                0 <= depth < self.ancestry().len() ==> call_requires(
                    visit,
                    (&#[trigger] self.ancestry()[depth],),
                ),
        ensures
            visited@.len() == self.ancestry().len(),
            forall|depth: int|
                0 <= depth < visited@.len() ==> call_ensures(
                    visit,
                    (&self.ancestry()[depth],),
                    #[trigger] visited@[depth],
                ),
    {
        let mut visited: Vec<T> = Vec::new();
        let mut frame = self;
        proof {
            self.lemma_ancestry_unfold();
        }
        visited.push(visit(frame));
        while frame.parent.is_some()
            invariant
                1 <= visited@.len() <= self.ancestry().len(),
                frame.ancestry() == self.ancestry().skip(visited@.len() - 1),
                forall|depth: int|
                    0 <= depth < self.ancestry().len() ==> call_requires(
                        visit,
                        (&#[trigger] self.ancestry()[depth],),
                    ),
                forall|depth: int|
                    0 <= depth < visited@.len() ==> call_ensures(
                        visit,
                        (&self.ancestry()[depth],),
                        #[trigger] visited@[depth],
                    ),
            decreases frame.ancestry().len(),
        {
            proof {
                frame.lemma_ancestry_unfold();
                frame.parent.unwrap().lemma_ancestry_unfold();
            }
            frame = frame.parent.as_ref().unwrap();
            assert(*frame == self.ancestry()[visited@.len() as int]);
            visited.push(visit(frame));
        }
        visited
    }

    /// A frame heads its own ancestry, and the rest is the ancestry of its
    /// caller.
    pub proof fn lemma_ancestry_unfold(&self)
        ensures
            self.ancestry().len() >= 1,
            self.ancestry()[0] == *self,
            self.parent is None ==> self.ancestry() == seq![*self],
            self.parent matches Some(parent) ==> self.ancestry().skip(1) == parent.ancestry(),
    {
    }

    /// Walking a frame that has no caller visits that frame and nothing else.
    pub proof fn lemma_lone_frame_walks_itself(&self)
        requires
            self.parent is None,
        ensures
            self.ancestry() == seq![*self],
    {
    }

    /// What is walked from the frame at `depth` in an ancestry is the rest of
    /// that ancestry.
    pub proof fn lemma_ancestry_of_ancestor(&self, depth: int)
        requires
            0 <= depth < self.ancestry().len(),
        ensures
            self.ancestry()[depth].ancestry() == self.ancestry().skip(depth),
        decreases depth,
    {
        self.lemma_ancestry_unfold();
        if depth > 0 {
            let parent = *self.parent.unwrap();
            parent.lemma_ancestry_of_ancestor(depth - 1);
            assert(self.ancestry().skip(depth) == parent.ancestry().skip(depth - 1));
        }
    }

    /// No frame stands twice in an ancestry: a frame is never its own
    /// ancestor.
    pub proof fn lemma_no_frame_twice(&self, nearer: int, farther: int)
        requires
            0 <= nearer < farther < self.ancestry().len(),
        ensures
            self.ancestry()[nearer] != self.ancestry()[farther],
    {
        self.lemma_ancestry_of_ancestor(nearer);
        self.lemma_ancestry_of_ancestor(farther);
        assert(self.ancestry()[nearer].ancestry().len() == self.ancestry().len() - nearer);
        assert(self.ancestry()[farther].ancestry().len() == self.ancestry().len() - farther);
    }
}

impl<R: Default, V: Default> CallFrame<R, V> {
    /// A frame for the routine `name`, invoked at `line` of `file`. It has no
    /// caller yet, and its register file and variable scope are new: each is
    /// what `Default::default` makes for its type.
    pub fn new(name: String, file: String, line: usize) -> (frame: Self)
        ensures
            frame.name == name,
            frame.file == file,
            frame.line == line,
            frame.parent is None,
            call_ensures(R::default, (), frame.register),
            call_ensures(V::default, (), frame.variables),
    {
        CallFrame {
            name,
            file,
            line,
            parent: None,
            register: R::default(),
            variables: V::default(),
        }
    }
}

/// The newest frame of the call stack that `frames` make, oldest first, once
/// each frame after the first has been given the stack below it as its
/// parent.
pub open spec fn stacked<R, V>(frames: Seq<CallFrame<R, V>>) -> CallFrame<R, V>
    recommends
        frames.len() > 0,
    decreases frames.len(),
{
    if frames.len() <= 1 {
        frames[0]
    } else {
        frames.last().with_parent(stacked(frames.drop_last()))
    }
}

/// Walking the newest frame of a stack visits every frame of the stack once,
/// from the newest to the oldest: the frame visited at `depth` is the one that
/// was stacked `depth` places before the newest, with all the older frames
/// below it.
pub proof fn lemma_stack_walks_newest_first<R, V>(frames: Seq<CallFrame<R, V>>)
    requires
        frames.len() > 0,
        frames[0].parent is None,
    ensures
        stacked(frames).ancestry().len() == frames.len(),
        forall|depth: int|
            0 <= depth < frames.len() ==> #[trigger] stacked(frames).ancestry()[depth] == stacked(
                frames.take(frames.len() - depth),
            ),
        forall|depth: int|
            0 <= depth < frames.len() ==> (#[trigger] stacked(
                frames,
            ).ancestry()[depth]).same_activation(&frames[frames.len() - 1 - depth]),
    decreases frames.len(),
{
    let newest = stacked(frames);
    newest.lemma_ancestry_unfold();
    assert(frames.take(frames.len() as int) == frames);
    if frames.len() > 1 {
        let below = frames.drop_last();
        lemma_stack_walks_newest_first(below);
        assert forall|depth: int| 0 <= depth < frames.len() implies #[trigger] newest.ancestry()[depth]
            == stacked(frames.take(frames.len() - depth)) && newest.ancestry()[depth].same_activation(
            &frames[frames.len() - 1 - depth],
        ) by {
            if depth > 0 {
                assert(newest.ancestry()[depth] == stacked(below).ancestry()[depth - 1]);
                assert(below.take(below.len() - (depth - 1)) == frames.take(frames.len() - depth));
            }
        }
    }
}

} // verus!
