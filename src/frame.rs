//! The slot that holds the frame being drawn.
//!
//! At most one frame is live at a time. A frame goes in with `start_frame`
//! and comes out, for presentation, with `end_frame`; between the two it is
//! lent out by `get_frame` and `get_frame_mut`, under the ordinary borrow
//! rules.
use vstd::prelude::*;

verus! {

/// Misuse of the frame lifecycle.
#[derive(Debug, PartialEq, Eq, Structural, Clone, Copy)]
pub enum FrameError {
    /// A frame was asked for while none is live.
    NoFrame,
}

/// The slot after `start_frame(f)`: a live frame is kept, an empty slot takes `f`.
pub open spec fn after_start<F>(slot: Option<F>, f: F) -> Option<F> {
    match slot {
        Some(g) => Some(g),
        None => Some(f),
    }
}

/// Holds the frame being drawn, if any.
pub struct FrameSlot<F> {
    current: Option<F>,
    started: Ghost<nat>,
    ended: Ghost<nat>,
}

impl<F> View for FrameSlot<F> {
    type V = Option<F>;

    closed spec fn view(&self) -> Option<F> {
        self.current
    }
}

impl<F> FrameSlot<F> {
    /// How many calls of `start_frame` were accepted.
    pub closed spec fn starts(&self) -> nat {
        self.started@
    }

    /// How many frames `end_frame` handed out for presentation.
    pub closed spec fn presents(&self) -> nat {
        self.ended@
    }

    /// The slot's invariant, which `new` establishes and every method keeps:
    /// the number of frames presented equals the number of accepted starts,
    /// less the frame that is live: a second start while a frame is live
    /// does not make a second frame, and an end with no live frame presents
    /// nothing.
    pub open spec fn one_present_per_start(&self) -> bool {
        self.starts() == self.presents() + if self@ is Some { 1nat } else { 0nat }
    }

    /// An empty slot: no frame is live.
    pub fn new() -> (r: FrameSlot<F>)
        ensures
            r@ == None::<F>,
            r.starts() == 0,
            r.presents() == 0,
            r.one_present_per_start(),
    {
        FrameSlot { current: None, started: Ghost(0), ended: Ghost(0) }
    }

    /// Whether a frame is live.
    pub fn is_active(&self) -> (r: bool)
        ensures
            r == self@ is Some,
    {
        self.current.is_some()
    }

    /// Makes `frame` the live frame. If one is live already it stays, and
    /// `frame` is handed back in the error.
    pub fn start_frame(&mut self, frame: F) -> (r: Result<(), F>)
        requires
            old(self).one_present_per_start(),
        ensures
            final(self)@ == after_start(old(self)@, frame),
            r is Ok <==> old(self)@ is None,
            r is Err ==> r->Err_0 == frame,
            final(self).starts() == old(self).starts() + if r is Ok { 1nat } else { 0nat },
            final(self).presents() == old(self).presents(),
            final(self).one_present_per_start(),
    {
        if self.current.is_some() {
            Err(frame)
        } else {
            self.current = Some(frame);
            self.started = Ghost(self.started@ + 1);
            Ok(())
        }
    }

    /// The live frame, to read.
    pub fn get_frame(&self) -> (r: Result<&F, FrameError>)
        ensures
            match self@ {
                Some(f) => r == Ok::<&F, FrameError>(&f),
                None => r == Err::<&F, FrameError>(FrameError::NoFrame),
            },
    {
        match &self.current {
            Some(f) => Ok(f),
            None => Err(FrameError::NoFrame),
        }
    }

    /// The live frame, to draw on.
    pub fn get_frame_mut(&mut self) -> (r: Result<&mut F, FrameError>)
        requires
            old(self).one_present_per_start(),
        ensures
            final(self).one_present_per_start(),
            old(self)@ is None ==> r is Err && r->Err_0 == FrameError::NoFrame && final(self)@ == old(self)@,
            old(self)@ is Some ==> r is Ok && *r->Ok_0 == old(self)@->0 && final(self)@ == Some(*final(r->Ok_0)),
            final(self).starts() == old(self).starts(),
            final(self).presents() == old(self).presents(),
    {
        match self.current.as_mut() {
            Some(f) => Ok(f),
            None => Err(FrameError::NoFrame),
        }
    }

    /// Takes the live frame out of the slot, to be presented.
    pub fn end_frame(&mut self) -> (r: Result<F, FrameError>)
        requires
            old(self).one_present_per_start(),
        ensures
            final(self)@ == None::<F>,
            r is Ok <==> old(self)@ is Some,
            r is Ok ==> r->Ok_0 == old(self)@->0,
            r is Err ==> r->Err_0 == FrameError::NoFrame,
            final(self).starts() == old(self).starts(),
            final(self).presents() == old(self).presents() + if r is Ok { 1nat } else { 0nat },
            final(self).one_present_per_start(),
    {
        match self.current.take() {
            Some(f) => {
                self.ended = Ghost(self.ended@ + 1);
                Ok(f)
            },
            None => Err(FrameError::NoFrame),
        }
    }
}

} // verus!
