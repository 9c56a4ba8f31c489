//! Event fan-out to an ordered list of subscribers.
use vstd::prelude::*;

verus! {

/// What a subscriber answers to an event.
pub enum Return<E> {
    /// Keep the subscriber.
    Next,
    /// Drop the subscriber after this call.
    Dead,
    /// Keep the subscriber, and notify this new event after the current one.
    Spawn(Box<E>),
}

/// The subscribers that stay after answering `answers`, in their order.
pub open spec fn survivors<F, E>(subs: Seq<F>, answers: Seq<Return<E>>) -> Seq<F>
    decreases subs.len(),
{
    if subs.len() == 0 || answers.len() == 0 {
        Seq::empty()
    } else {
        let rest = survivors(subs.drop_last(), answers.drop_last());
        if answers.last() is Dead {
            rest
        } else {
            rest.push(subs.last())
        }
    }
}

/// The events spawned by `answers`, in the order of the subscribers.
pub open spec fn spawned<E>(answers: Seq<Return<E>>) -> Seq<E>
    decreases answers.len(),
{
    if answers.len() == 0 {
        Seq::empty()
    } else {
        let rest = spawned(answers.drop_last());
        match answers.last() {
            Return::Spawn(e) => rest.push(*e),
            _ => rest,
        }
    }
}

/// The positions of the subscribers that answered anything but `Dead`, in
/// increasing order.
pub open spec fn kept_positions<E>(answers: Seq<Return<E>>) -> Seq<int>
    decreases answers.len(),
{
    if answers.len() == 0 {
        Seq::empty()
    } else {
        let rest = kept_positions(answers.drop_last());
        if answers.last() is Dead {
            rest
        } else {
            rest.push(answers.len() - 1)
        }
    }
}

/// Sends events to subscribers in the order they registered.
pub struct Notifier<E, F> {
    subscribers: Vec<F>,
    queue: Vec<E>,
}

impl<E, F: Fn(&E) -> Return<E>> Notifier<E, F> {
    /// The subscribers, in registration order.
    pub closed spec fn subscribers(&self) -> Seq<F> {
        self.subscribers@
    }

    /// The spawned events that wait to be notified, oldest first.
    pub closed spec fn queued(&self) -> Seq<E> {
        self.queue@
    }

    /// A notifier with no subscribers.
    pub fn new() -> (r: Notifier<E, F>)
        ensures
            r.subscribers() == Seq::<F>::empty(),
            r.queued() == Seq::<E>::empty(),
    {
        Notifier { subscribers: Vec::new(), queue: Vec::new() }
    }

    /// Adds `callback` after the subscribers already registered.
    pub fn register(&mut self, callback: F)
        ensures
            final(self).subscribers() == old(self).subscribers().push(callback),
            final(self).queued() == old(self).queued(),
    {
        self.subscribers.push(callback);
    }

    /// Calls every subscriber on `event`, in registration order, and drops
    /// those that answer `Dead`. Spawned events are queued behind those
    /// already waiting; none is notified by this call.
    pub fn notify(&mut self, event: E)
        requires
            forall|i: int| 0 <= i < old(self).subscribers().len() ==> old(self).subscribers()[i].requires((&event,)),
        ensures
            exists|answers: Seq<Return<E>>|
                {
                    &&& answers.len() == old(self).subscribers().len()
                    &&& forall|i: int| 0 <= i < answers.len() ==> old(self).subscribers()[i].ensures((&event,), #[trigger] answers[i])
                    &&& final(self).subscribers() == survivors(old(self).subscribers(), answers)
                    &&& final(self).queued() == old(self).queued() + spawned(answers)
                },
    {
        let ghost subs = self.subscribers@;
        let ghost q0 = self.queue@;
        let ghost mut answers: Seq<Return<E>> = Seq::empty();
        let mut kept: Vec<F> = Vec::new();
        let n: usize = self.subscribers.len();
        let mut rest: Vec<F> = Vec::new();
        std::mem::swap(&mut rest, &mut self.subscribers);
        assert forall|j: int| 0 <= j < subs.len() implies subs[j].requires((&event,)) by {
            assert(subs[j] == old(self).subscribers()[j]);
        }
        let mut i: usize = 0;
        while rest.len() > 0
            invariant
                i + rest@.len() == subs.len(),
                subs.len() == n,
                rest@ == subs.skip(i as int),
                answers.len() == i,
                forall|j: int| 0 <= j < i ==> subs[j].ensures((&event,), #[trigger] answers[j]),
                forall|j: int| 0 <= j < subs.len() ==> subs[j].requires((&event,)),
                kept@ == survivors(subs.take(i as int), answers),
                self.queue@ == q0 + spawned(answers),
            decreases rest.len(),
        {
            let f = rest.remove(0);
            assert(f == subs[i as int]);
            let answer = f(&event);
            let ghost before = answers;
            proof {
                answers = answers.push(answer);
                assert(subs.take(i + 1).drop_last() =~= subs.take(i as int));
                assert(answers.drop_last() =~= before);
                assert(subs.take(i + 1).last() == f);
            }
            match answer {
                Return::Dead => {},
                Return::Next => {
                    kept.push(f);
                },
                Return::Spawn(e) => {
                    kept.push(f);
                    self.queue.push(*e);
                },
            }
            i += 1;
            proof {
                assert(rest@ == subs.skip(i as int));
            }
        }
        assert(subs.take(i as int) == subs);
        self.subscribers = kept;
    }

    /// Notifies the oldest queued event, if there is one, and says whether
    /// there was.
    pub fn notify_queued(&mut self) -> (r: bool)
        requires
            old(self).queued().len() > 0 ==> forall|i: int|
                0 <= i < old(self).subscribers().len() ==> old(self).subscribers()[i].requires((&old(self).queued()[0],)),
        ensures
            r == (old(self).queued().len() > 0),
            !r ==> final(self).subscribers() == old(self).subscribers() && final(self).queued() == old(self).queued(),
            r ==> exists|answers: Seq<Return<E>>|
                {
                    &&& answers.len() == old(self).subscribers().len()
                    &&& forall|i: int|
                        0 <= i < answers.len() ==> old(self).subscribers()[i].ensures((&old(self).queued()[0],), #[trigger] answers[i])
                    &&& final(self).subscribers() == survivors(old(self).subscribers(), answers)
                    &&& final(self).queued() == old(self).queued().drop_first() + spawned(answers)
                },
    {
        if self.queue.len() == 0 {
            return false;
        }
        let event = self.queue.remove(0);
        assert(self.subscribers() == old(self).subscribers());
        assert(self.queued() == old(self).queued().drop_first());
        assert forall|i: int| 0 <= i < self.subscribers().len() implies self.subscribers()[i].requires((&event,)) by {
            assert(self.subscribers()[i] == old(self).subscribers()[i]);
        }
        self.notify(event);
        true
    }
}

/// The subscribers kept by one notification are exactly those that did not
/// answer `Dead`, in registration order: a subscriber that answered `Dead` is
/// not called for any later event.
pub proof fn lemma_survivors_in_order<F, E>(subs: Seq<F>, answers: Seq<Return<E>>)
    requires
        subs.len() == answers.len(),
    ensures
        survivors(subs, answers).len() == kept_positions(answers).len(),
        forall|k: int|
            0 <= k < kept_positions(answers).len() ==> {
                let p = #[trigger] kept_positions(answers)[k];
                &&& 0 <= p < subs.len()
                &&& survivors(subs, answers)[k] == subs[p]
                &&& !(answers[p] is Dead)
            },
        forall|k1: int, k2: int|
            0 <= k1 < k2 < kept_positions(answers).len() ==> kept_positions(answers)[k1] < kept_positions(answers)[k2],
        forall|j: int| 0 <= j < subs.len() && !(answers[j] is Dead) ==> kept_positions(answers).contains(j),
    decreases subs.len(),
{
    if subs.len() > 0 {
        let (s0, a0) = (subs.drop_last(), answers.drop_last());
        lemma_survivors_in_order(s0, a0);
        let n = subs.len() - 1;
        assert forall|j: int| 0 <= j < subs.len() && !(answers[j] is Dead) implies kept_positions(answers).contains(j) by {
            if j < n {
                assert(a0[j] == answers[j]);
                assert(kept_positions(a0).contains(j));
                let k = choose|k: int| 0 <= k < kept_positions(a0).len() && kept_positions(a0)[k] == j;
                if !(answers.last() is Dead) {
                    assert(kept_positions(answers) == kept_positions(a0).push(n));
                    assert(kept_positions(answers)[k] == j);
                } else {
                    assert(kept_positions(answers) == kept_positions(a0));
                }
            } else {
                assert(kept_positions(answers).last() == j);
            }
        }
    }
}

} // verus!
