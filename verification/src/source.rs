//! Where the arguments of a batch come from.
use vstd::prelude::*;
use vstd::std_specs::iter::IteratorSpec;

verus! {

/// The arguments of a batch, as they are drawn one after the other.
pub struct Source<N> {
    rest: N,
    origin: Ghost<N>,
}

/// The arguments of a batch when no more of them are drawn.
pub struct Drawn<N> {
    left: Ghost<N>,
    origin: Ghost<N>,
}

impl<N> Source<N> {
    /// The arguments as they were before any was drawn.
    pub closed spec fn origin(&self) -> N {
        self.origin@
    }

    /// The arguments as they are now.
    pub closed spec fn rest(&self) -> N {
        self.rest
    }

    /// Starts to draw arguments.
    pub(crate) fn new(args: N) -> (source: Self)
        ensures
            source.origin() == args,
            source.rest() == args,
    {
        Source { rest: args, origin: Ghost(args) }
    }

    /// Ends the drawing of arguments. Those that are left are dropped.
    pub(crate) fn close(self) -> (drawn: Drawn<N>)
        ensures
            drawn.origin() == self.origin(),
            drawn.left() == self.rest(),
    {
        Drawn { left: Ghost(self.rest), origin: self.origin }
    }
}

impl<N: Iterator> Source<N> {
    /// Draws an argument.
    pub(crate) fn draw(&mut self) -> (arg: Option<N::Item>)
        requires
            old(self).rest().obeys_prophetic_iter_laws(),
            old(self).rest().decrease() is Some,
        ensures
            final(self).origin() == old(self).origin(),
            final(self).rest().obeys_prophetic_iter_laws(),
            final(self).rest().decrease() is Some,
            arg is Some <==> old(self).rest().remaining().len() > 0,
            arg matches Some(first) ==> {
                &&& first == old(self).rest().remaining()[0]
                &&& final(self).rest().remaining() == old(self).rest().remaining().drop_first()
                &&& decreases_to!(old(self).rest().decrease()->0 => final(self).rest().decrease()->0)
            },
            arg is None ==> final(self).rest().remaining() == old(self).rest().remaining(),
    {
        self.rest.next()
    }
}

impl<N> Drawn<N> {
    /// The arguments as they were before any was drawn.
    pub closed spec fn origin(&self) -> N {
        self.origin@
    }

    /// The arguments were drawn from `args`.
    pub open spec fn from(&self, args: N) -> bool {
        self.origin() == args
    }

    /// The arguments that were never drawn.
    pub closed spec fn left(&self) -> N {
        self.left@
    }
}

} // verus!
