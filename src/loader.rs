//! Hand-off of loaded resources from background work to the owning thread.
use vstd::prelude::*;
use std::sync::mpsc::{Receiver, Sender};

verus! {

#[verifier::external_type_specification]
#[verifier::external_body]
#[verifier::reject_recursive_types(V)]
pub struct ExSender<V>(Sender<V>);

#[verifier::external_type_specification]
#[verifier::external_body]
#[verifier::reject_recursive_types(V)]
pub struct ExReceiver<V>(Receiver<V>);

/// Relies on std::sync::mpsc::channel: a connected sender and receiver.
#[verifier::external_body]
fn channel<V>() -> (Sender<V>, Receiver<V>) {
    std::sync::mpsc::channel()
}

/// Relies on Sender::clone: another sender into the same channel.
#[verifier::external_body]
fn clone_sender<V>(tx: &Sender<V>) -> Sender<V> {
    tx.clone()
}

/// Relies on Receiver::try_recv: the next value if one is waiting, without
/// blocking; `None` when the channel is empty or closed.
#[verifier::external_body]
fn try_recv<V>(rx: &Receiver<V>) -> Option<V> {
    match rx.try_recv() {
        Ok(v) => Some(v),
        Err(_) => None,
    }
}

/// Something that can be loaded from a path.
pub trait Resource: Sized {
    /// What a load gives, for example `Result<Image, Error>`.
    type Result: Send + 'static;

    /// Loads the resource at `path`, on the calling thread.
    fn load(path: &str) -> Self::Result;

    /// A loader for this resource.
    fn loader() -> Loader<Self> {
        let (tx, rx) = channel();
        Loader { tx, rx, outstanding: 0 }
    }
}

/// One step of taking in results: `got` is what the channel gave. A value
/// is appended to `loaded` and counted off `outstanding`; the answer says
/// whether to go on, which is while values come and some are still due.
pub fn take_in<V>(loaded: &mut Vec<V>, outstanding: &mut usize, got: Option<V>) -> (more: bool)
    requires
        *old(outstanding) > 0,
    ensures
        match got {
            Some(v) => final(loaded)@ == old(loaded)@.push(v) && *final(outstanding) == *old(outstanding) - 1 && more == (
            *final(outstanding) > 0),
            None => final(loaded)@ == old(loaded)@ && *final(outstanding) == *old(outstanding) && !more,
        },
{
    match got {
        Some(v) => {
            loaded.push(v);
            *outstanding = *outstanding - 1;
            *outstanding > 0
        },
        None => false,
    }
}

/// Collects the results of loads that run elsewhere.
///
/// Each load is registered with `request`, which hands out the sender that
/// its one result goes back on. `get` takes in what has arrived.
pub struct Loader<T: Resource> {
    tx: Sender<(String, T::Result)>,
    rx: Receiver<(String, T::Result)>,
    outstanding: usize,
}

impl<T: Resource> Loader<T> {
    /// The number of registered loads whose result has not been taken in.
    pub closed spec fn outstanding(&self) -> nat {
        self.outstanding as nat
    }

    /// The number of registered loads whose result has not been taken in.
    pub fn pending_loads(&self) -> (r: usize)
        ensures
            r == self.outstanding(),
    {
        self.outstanding
    }

    /// A loader with no loads registered.
    pub fn new() -> (r: Loader<T>)
        ensures
            r.outstanding() == 0,
    {
        let (tx, rx) = channel();
        Loader { tx, rx, outstanding: 0 }
    }

    /// Registers one load, and returns the sender its result is to be sent
    /// on, with its path.
    pub fn request(&mut self) -> (tx: Sender<(String, T::Result)>)
        requires
            old(self).outstanding() < usize::MAX,
        ensures
            final(self).outstanding() == old(self).outstanding() + 1,
    {
        self.outstanding = self.outstanding + 1;
        clone_sender(&self.tx)
    }

    /// Takes in the results that have arrived, without waiting, oldest first:
    /// each value `try_recv` gives goes through `take_in`, until the channel
    /// is empty or no load is due.
    pub fn get(&mut self) -> (r: Vec<(String, T::Result)>)
        ensures
            r@.len() <= old(self).outstanding(),
            final(self).outstanding() == old(self).outstanding() - r@.len(),
    {
        let mut loaded: Vec<(String, T::Result)> = Vec::new();
        let mut more = self.outstanding > 0;
        while more
            invariant
                loaded@.len() + self.outstanding == old(self).outstanding(),
                more ==> self.outstanding > 0,
            decreases self.outstanding + if more { 1nat } else { 0nat },
        {
            let got = try_recv(&self.rx);
            more = take_in(&mut loaded, &mut self.outstanding, got);
        }
        loaded
    }
}

} // verus!
