//! Texture bookkeeping: which keys are being loaded, which loaded textures
//! wait to be claimed, and which are in use.
//!
//! Textures sit in an arena and are handed out as `TextureRef` handles, each
//! counted. The table keeps, for a key in use, only the handle: once every
//! reference has been released the texture is dropped and the key has to be
//! loaded again.
use vstd::prelude::*;
use crate::table::{
    distinct_keys, find, lemma_table_absent, lemma_table_at, lemma_table_push, lemma_table_remove, lemma_table_set, table,
};

verus! {

/// Texture rectangle.
#[derive(Debug, PartialEq, Eq, Structural, Clone, Copy)]
pub struct Rect {
    /// Rectangle left-up x-coordinate value.
    pub x: i32,
    /// Rectangle left-up y-coordinate value.
    pub y: i32,
    /// Rectangle width.
    pub w: u32,
    /// Rectangle height.
    pub h: u32,
}

/// Where a key stands.
#[derive(Debug, PartialEq, Eq, Structural, Clone, Copy)]
pub enum KeyState {
    /// Handed to the background loader, not back yet.
    Loading,
    /// Loaded and uploaded; the manager holds its one reference until it is
    /// claimed.
    Pending(usize),
    /// Claimed; the texture lives while some reference to it is held.
    Live(usize),
}

/// Why `claim` hands out no texture.
#[derive(Debug, PartialEq, Eq, Structural, Clone, Copy)]
pub enum ClaimError {
    /// The key is still being loaded.
    NotReady,
    /// The key was never asked for, or its texture has been released.
    Unregistered,
    /// The texture already has `usize::MAX` references.
    Saturated,
}

/// Why `load_sync` hands out no texture.
#[derive(Debug, PartialEq, Eq)]
pub enum SyncError<E> {
    /// The texture already has `usize::MAX` references.
    Saturated,
    /// Loading it here and now failed.
    Load(E),
}

/// A counted reference to a texture of a `TextureManager`. Two references
/// to the same texture are equal.
#[derive(Debug, PartialEq, Eq, Structural)]
pub struct TextureRef {
    handle: usize,
}

impl TextureRef {
    pub closed spec fn spec_handle(&self) -> usize {
        self.handle
    }

    /// The arena slot of the texture.
    #[verifier::when_used_as_spec(spec_handle)]
    pub fn handle(&self) -> (r: usize)
        ensures
            r == self.spec_handle(),
    {
        self.handle
    }
}

/// What a `TextureManager` holds: the state of each key, the arena of
/// textures (a released one is `None`) and the reference count of each slot.
pub struct TextureState<T> {
    pub records: Map<Seq<char>, KeyState>,
    pub arena: Seq<Option<T>>,
    pub counts: Seq<usize>,
}

/// The arena slot that a key in state `s` points to, if any.
pub open spec fn slot_of(s: KeyState) -> Option<usize> {
    match s {
        KeyState::Loading => None,
        KeyState::Pending(h) => Some(h),
        KeyState::Live(h) => Some(h),
    }
}

/// Slot `h` holds a texture with at least one reference.
pub open spec fn held<T>(m: TextureState<T>, h: usize) -> bool {
    h < m.counts.len() && m.counts[h as int] > 0
}

/// The texture of `k` is uploaded and alive: pending, or live and held.
pub open spec fn resident<T>(m: TextureState<T>, k: Seq<char>) -> bool {
    m.records.contains_key(k) && match m.records[k] {
        KeyState::Loading => false,
        KeyState::Pending(_) => true,
        KeyState::Live(h) => held(m, h),
    }
}

/// `k` is with the background loader.
pub open spec fn loading<T>(m: TextureState<T>, k: Seq<char>) -> bool {
    m.records.contains_key(k) && m.records[k] is Loading
}

/// The state is consistent: handles point into the arena, no two keys share
/// a slot, a slot holds a texture exactly while it is referenced, and a
/// pending texture has the manager's reference.
pub open spec fn consistent<T>(m: TextureState<T>) -> bool {
    &&& m.arena.len() == m.counts.len()
    &&& forall|h: int| 0 <= h < m.arena.len() ==> (#[trigger] m.counts[h] == 0 <==> m.arena[h] is None)
    &&& forall|k: Seq<char>| #[trigger] m.records.contains_key(k) ==> match m.records[k] {
        KeyState::Loading => true,
        KeyState::Pending(h) => held(m, h),
        KeyState::Live(h) => h < m.arena.len(),
    }
    &&& forall|k1: Seq<char>, k2: Seq<char>|
        #[trigger] m.records.contains_key(k1) && #[trigger] m.records.contains_key(k2) && k1 != k2
            && slot_of(m.records[k1]) is Some ==> slot_of(m.records[k1]) != slot_of(m.records[k2])
}

/// `m` with slot `t` added, one reference held; the new handle is the old length.
pub open spec fn with_slot<T>(m: TextureState<T>, k: Seq<char>, s: KeyState, t: T) -> TextureState<T> {
    TextureState { records: m.records.insert(k, s), arena: m.arena.push(Some(t)), counts: m.counts.push(1) }
}

/// `enqueue_load(k)`: the new state, and whether a load must be dispatched.
pub open spec fn enqueue_spec<T>(m: TextureState<T>, k: Seq<char>) -> (TextureState<T>, bool) {
    if resident(m, k) || loading(m, k) {
        (m, false)
    } else {
        (TextureState { records: m.records.insert(k, KeyState::Loading), arena: m.arena, counts: m.counts }, true)
    }
}

/// `claim(k)`: the new state and the handle handed out.
pub open spec fn claim_spec<T>(m: TextureState<T>, k: Seq<char>) -> (TextureState<T>, Result<usize, ClaimError>) {
    if !m.records.contains_key(k) {
        (m, Err(ClaimError::Unregistered))
    } else {
        match m.records[k] {
            KeyState::Loading => (m, Err(ClaimError::NotReady)),
            KeyState::Pending(h) => (
                TextureState { records: m.records.insert(k, KeyState::Live(h)), arena: m.arena, counts: m.counts },
                Ok(h),
            ),
            KeyState::Live(h) => if !held(m, h) {
                (m, Err(ClaimError::Unregistered))
            } else if m.counts[h as int] == usize::MAX {
                (m, Err(ClaimError::Saturated))
            } else {
                (
                    TextureState { records: m.records, arena: m.arena, counts: m.counts.update(h as int, (m.counts[h as int] + 1) as usize) },
                    Ok(h),
                )
            },
        }
    }
}

/// One finished background load of `k`: the new state, and the error to
/// report. A result for a key that is not loading is dropped.
pub open spec fn complete_spec<T, E>(m: TextureState<T>, k: Seq<char>, res: Result<T, E>) -> (TextureState<T>, Option<E>) {
    if !loading(m, k) {
        (m, None)
    } else {
        match res {
            Ok(t) => (with_slot(m, k, KeyState::Pending(m.arena.len() as usize), t), None),
            Err(e) => (TextureState { records: m.records.remove(k), arena: m.arena, counts: m.counts }, Some(e)),
        }
    }
}

/// A batch of finished loads, taken in order: the new state and the errors,
/// each with its key.
pub open spec fn drain_spec<T, E>(m: TextureState<T>, done: Seq<(String, Result<T, E>)>) -> (TextureState<T>, Seq<(String, E)>)
    decreases done.len(),
{
    if done.len() == 0 {
        (m, Seq::empty())
    } else {
        let (m1, errors) = drain_spec(m, done.drop_last());
        let (k, res) = done.last();
        let (m2, e) = complete_spec(m1, k@, res);
        (m2, match e {
            Some(e) => errors.push((k, e)),
            None => errors,
        })
    }
}

/// Dropping a reference to slot `h`; the texture goes with the last one.
pub open spec fn release_spec<T>(m: TextureState<T>, h: usize) -> TextureState<T> {
    let c = (m.counts[h as int] - 1) as usize;
    TextureState {
        records: m.records,
        arena: if c == 0 { m.arena.update(h as int, None) } else { m.arena },
        counts: m.counts.update(h as int, c),
    }
}

/// Slot `h` is referenced from outside the manager: it is held, and it is
/// not the slot of a pending texture, whose one reference the manager keeps.
pub open spec fn handed_out<T>(m: TextureState<T>, h: usize) -> bool {
    &&& held(m, h)
    &&& forall|k: Seq<char>| #[trigger] m.records.contains_key(k) ==> m.records[k] != KeyState::Pending(h)
}

/// The handle that `r` carries, or its error.
pub open spec fn handle_of(r: Result<TextureRef, ClaimError>) -> Result<usize, ClaimError> {
    match r {
        Ok(t) => Ok(t.handle()),
        Err(e) => Err(e),
    }
}

/// Loads textures by key, caches them, and counts who holds them.
pub struct TextureManager<T> {
    entries: Vec<(String, KeyState)>,
    slots: Vec<Option<T>>,
    counts: Vec<usize>,
}

impl<T> View for TextureManager<T> {
    type V = TextureState<T>;

    closed spec fn view(&self) -> TextureState<T> {
        TextureState { records: table(self.entries@), arena: self.slots@, counts: self.counts@ }
    }
}

impl<T> TextureManager<T> {
    /// The manager's invariant.
    pub closed spec fn wf(&self) -> bool {
        distinct_keys(self.entries@) && consistent(self@)
    }

    /// A well-formed manager is in a consistent state.
    pub proof fn lemma_wf_consistent(&self)
        requires
            self.wf(),
        ensures
            consistent(self@),
    {
    }

    /// A manager with no keys.
    pub fn new() -> (r: TextureManager<T>)
        ensures
            r.wf(),
            r@.records == Map::<Seq<char>, KeyState>::empty(),
            r@.arena == Seq::<Option<T>>::empty(),
            r@.counts == Seq::<usize>::empty(),
    {
        let r = TextureManager { entries: Vec::new(), slots: Vec::new(), counts: Vec::new() };
        assert(r@.records =~= Map::<Seq<char>, KeyState>::empty());
        r
    }

    /// Whether `key` is with the background loader.
    pub fn is_loading(&self, key: &String) -> (r: bool)
        requires
            self.wf(),
        ensures
            r == loading(self@, key@),
    {
        match find(&self.entries, key) {
            Some(i) => {
                proof {
                    lemma_table_at(self.entries@, i as int);
                }
                self.entries[i].1 == KeyState::Loading
            },
            None => {
                proof {
                    lemma_table_absent(self.entries@, key@);
                }
                false
            },
        }
    }

    /// Whether the entry at `i` has its texture uploaded and alive.
    fn entry_resident(&self, i: usize) -> (r: bool)
        requires
            self.wf(),
            i < self.entries@.len(),
        ensures
            r == resident(self@, self.entries@[i as int].0@),
    {
        proof {
            lemma_table_at(self.entries@, i as int);
        }
        match self.entries[i].1 {
            KeyState::Loading => false,
            KeyState::Pending(_) => true,
            KeyState::Live(h) => self.counts[h] > 0,
        }
    }

    /// Puts `key` in state `s`, adding it if it is not in the table.
    fn put(&mut self, key: String, s: KeyState)
        requires
            distinct_keys(old(self).entries@),
        ensures
            distinct_keys(final(self).entries@),
            final(self)@.records == old(self)@.records.insert(key@, s),
            final(self).slots@ == old(self).slots@,
            final(self).counts@ == old(self).counts@,
    {
        match find(&self.entries, &key) {
            Some(i) => {
                proof {
                    lemma_table_set(self.entries@, i as int, key, s);
                }
                self.entries.set(i, (key, s));
            },
            None => {
                proof {
                    lemma_table_absent(self.entries@, key@);
                    lemma_table_push(self.entries@, key, s);
                }
                self.entries.push((key, s));
            },
        }
    }

    /// Asks for `key` to be loaded. Returns `true` when the caller must hand
    /// `key` to the background loader; `false`, with nothing changed, when
    /// the key is already loading, waiting to be claimed, or in use.
    pub fn enqueue_load(&mut self, key: String) -> (r: bool)
        requires
            old(self).wf(),
        ensures
            final(self).wf(),
            (final(self)@, r) == enqueue_spec(old(self)@, key@),
            forall|h: usize| handed_out(old(self)@, h) ==> handed_out(final(self)@, h),
    {
        match find(&self.entries, &key) {
            Some(i) => {
                proof {
                    lemma_table_at(self.entries@, i as int);
                }
                if self.entries[i].1 == KeyState::Loading || self.entry_resident(i) {
                    return false;
                }
            },
            None => {
                proof {
                    lemma_table_absent(self.entries@, key@);
                }
            },
        }
        self.put(key, KeyState::Loading);
        true
    }

    /// Hands out the texture of `key`. A pending texture becomes live and
    /// its reference goes to the caller; a live one gets one more
    /// reference, to the same texture.
    pub fn claim(&mut self, key: &String) -> (r: Result<TextureRef, ClaimError>)
        requires
            old(self).wf(),
        ensures
            final(self).wf(),
            final(self)@ == claim_spec(old(self)@, key@).0,
            handle_of(r) == claim_spec(old(self)@, key@).1,
            r is Ok ==> handed_out(final(self)@, r->Ok_0.handle()),
            forall|h: usize| handed_out(old(self)@, h) ==> handed_out(final(self)@, h),
    {
        let i = match find(&self.entries, key) {
            Some(i) => i,
            None => {
                proof {
                    lemma_table_absent(self.entries@, key@);
                }
                return Err(ClaimError::Unregistered);
            },
        };
        proof {
            lemma_table_at(self.entries@, i as int);
        }
        match self.entries[i].1 {
            KeyState::Loading => Err(ClaimError::NotReady),
            KeyState::Pending(h) => {
                self.put(key.clone(), KeyState::Live(h));
                Ok(TextureRef { handle: h })
            },
            KeyState::Live(h) => {
                let c = self.counts[h];
                if c == 0 {
                    Err(ClaimError::Unregistered)
                } else if c == usize::MAX {
                    Err(ClaimError::Saturated)
                } else {
                    self.counts.set(h, c + 1);
                    proof {
                        assert(self@.records == old(self)@.records);
                    }
                    Ok(TextureRef { handle: h })
                }
            },
        }
    }

    /// Installs a texture for `key` that the caller loaded itself, and hands
    /// out its first reference. A load of `key` still with the background
    /// loader is then dropped when it comes back.
    pub fn install(&mut self, key: String, texture: T) -> (r: TextureRef)
        requires
            old(self).wf(),
            !resident(old(self)@, key@),
        ensures
            final(self).wf(),
            r.handle() == old(self)@.arena.len(),
            final(self)@ == with_slot(old(self)@, key@, KeyState::Live(r.handle()), texture),
            handed_out(final(self)@, r.handle()),
            forall|h: usize| handed_out(old(self)@, h) ==> handed_out(final(self)@, h),
    {
        let h = self.slots.len();
        self.slots.push(Some(texture));
        self.counts.push(1);
        self.put(key, KeyState::Live(h));
        TextureRef { handle: h }
    }

    /// Hands out the texture of `key` if it is pending or live, as `claim`
    /// does; otherwise runs `load` and installs what it gives. A failed
    /// load changes nothing.
    pub fn load_sync<E, L: FnOnce() -> Result<T, E>>(&mut self, key: String, load: L) -> (r: Result<TextureRef, SyncError<E>>)
        requires
            old(self).wf(),
            claim_spec(old(self)@, key@).1 is Err ==> load.requires(()),
        ensures
            final(self).wf(),
            forall|h: usize| handed_out(old(self)@, h) ==> handed_out(final(self)@, h),
            r is Ok ==> handed_out(final(self)@, r->Ok_0.handle()),
            match claim_spec(old(self)@, key@).1 {
                Ok(h) => r is Ok && r->Ok_0.handle() == h && final(self)@ == claim_spec(old(self)@, key@).0,
                Err(ClaimError::Saturated) => r == Err::<TextureRef, SyncError<E>>(SyncError::Saturated) && final(self)@ == old(self)@,
                Err(_) => {
                    &&& r is Ok ==> r->Ok_0.handle() == old(self)@.arena.len() && exists|t: T|
                        #[trigger] load.ensures((), Ok::<T, E>(t))
                            && final(self)@ == with_slot(old(self)@, key@, KeyState::Live(r->Ok_0.handle()), t)
                    &&& r is Err ==> exists|e: E|
                        #[trigger] load.ensures((), Err::<T, E>(e))
                            && r == Err::<TextureRef, SyncError<E>>(SyncError::Load(e))
                            && final(self)@ == old(self)@
                },
            },
    {
        match self.claim(&key) {
            Ok(r) => Ok(r),
            Err(ClaimError::Saturated) => Err(SyncError::Saturated),
            Err(_) => match load() {
                Ok(t) => Ok(self.install(key, t)),
                Err(e) => Err(SyncError::Load(e)),
            },
        }
    }

    /// Takes in one finished background load of `key`. A texture becomes
    /// pending; a failure takes `key` out of the table, so that it can be
    /// asked for again, and is handed back.
    fn complete<E>(&mut self, key: String, result: Result<T, E>) -> (r: Option<E>)
        requires
            old(self).wf(),
        ensures
            final(self).wf(),
            (final(self)@, r) == complete_spec(old(self)@, key@, result),
            forall|h: usize| handed_out(old(self)@, h) ==> handed_out(final(self)@, h),
    {
        let i = match find(&self.entries, &key) {
            Some(i) => i,
            None => {
                proof {
                    lemma_table_absent(self.entries@, key@);
                }
                return None;
            },
        };
        proof {
            lemma_table_at(self.entries@, i as int);
        }
        if self.entries[i].1 != KeyState::Loading {
            return None;
        }
        match result {
            Ok(texture) => {
                let h = self.slots.len();
                self.slots.push(Some(texture));
                self.counts.push(1);
                self.put(key, KeyState::Pending(h));
                None
            },
            Err(e) => {
                proof {
                    lemma_table_remove(self.entries@, i as int);
                }
                self.entries.remove(i);
                Some(e)
            },
        }
    }

    /// Takes in the finished background loads, in order, and returns the
    /// failures, each with its key.
    pub fn drain_completed<E>(&mut self, done: Vec<(String, Result<T, E>)>) -> (r: Vec<(String, E)>)
        requires
            old(self).wf(),
        ensures
            final(self).wf(),
            (final(self)@, r@) == drain_spec(old(self)@, done@),
            forall|h: usize| handed_out(old(self)@, h) ==> handed_out(final(self)@, h),
    {
        let ghost all = done@;
        let mut done = done;
        let n: usize = done.len();
        let mut errors: Vec<(String, E)> = Vec::new();
        let mut i: usize = 0;
        while done.len() > 0
            invariant
                self.wf(),
                i + done@.len() == all.len(),
                all.len() == n,
                done@ == all.skip(i as int),
                (self@, errors@) == drain_spec(old(self)@, all.take(i as int)),
                forall|h: usize| handed_out(old(self)@, h) ==> handed_out(self@, h),
            decreases done.len(),
        {
            let (key, result) = done.remove(0);
            proof {
                assert(all.take(i + 1).drop_last() =~= all.take(i as int));
                assert(all.take(i + 1).last() == all[i as int]);
            }
            let k = key.clone();
            match self.complete(key, result) {
                Some(e) => errors.push((k, e)),
                None => {},
            }
            i += 1;
            proof {
                assert(done@ =~= all.skip(i as int));
            }
        }
        proof {
            assert(all.take(i as int) =~= all);
        }
        errors
    }

    /// One more reference to the texture of `r`; `None`, with nothing
    /// changed, when it already has `usize::MAX` of them.
    pub fn share(&mut self, r: &TextureRef) -> (s: Option<TextureRef>)
        requires
            old(self).wf(),
            handed_out(old(self)@, r.handle()),
        ensures
            final(self).wf(),
            old(self)@.counts[r.handle() as int] == usize::MAX ==> s is None && final(self)@ == old(self)@,
            old(self)@.counts[r.handle() as int] < usize::MAX ==> {
                &&& s is Some && s->0.handle() == r.handle()
                &&& final(self)@ == TextureState {
                    records: old(self)@.records,
                    arena: old(self)@.arena,
                    counts: old(self)@.counts.update(r.handle() as int, (old(self)@.counts[r.handle() as int] + 1) as usize),
                }
            },
            s is Some ==> handed_out(final(self)@, s->0.handle()),
            forall|h: usize| handed_out(old(self)@, h) ==> handed_out(final(self)@, h),
    {
        let c = self.counts[r.handle];
        if c == usize::MAX {
            return None;
        }
        self.counts.set(r.handle, c + 1);
        Some(TextureRef { handle: r.handle })
    }

    /// Drops the reference `r`. The texture goes with its last reference;
    /// its key then has to be loaded again.
    pub fn release(&mut self, r: TextureRef)
        requires
            old(self).wf(),
            handed_out(old(self)@, r.handle()),
        ensures
            final(self).wf(),
            final(self)@ == release_spec(old(self)@, r.handle()),
            forall|h: usize| h != r.handle() && handed_out(old(self)@, h) ==> handed_out(final(self)@, h),
    {
        let h = r.handle;
        let c = self.counts[h] - 1;
        self.counts.set(h, c);
        if c == 0 {
            self.slots.set(h, None);
        }
        proof {
            assert forall|k: Seq<char>| #[trigger] self@.records.contains_key(k) implies match self@.records[k] {
                KeyState::Loading => true,
                KeyState::Pending(p) => held(self@, p),
                KeyState::Live(p) => p < self@.arena.len(),
            } by {
                assert(old(self)@.records.contains_key(k));
            }
        }
    }

    /// Whether `r` may be shared, released or read: its texture is alive and
    /// is not one that waits to be claimed.
    pub fn is_handed_out(&self, r: &TextureRef) -> (b: bool)
        requires
            self.wf(),
        ensures
            b == handed_out(self@, r.handle()),
    {
        let h = r.handle;
        if h >= self.counts.len() || self.counts[h] == 0 {
            return false;
        }
        let mut i: usize = 0;
        while i < self.entries.len()
            invariant
                self.wf(),
                h == r.handle(),
                held(self@, h),
                0 <= i <= self.entries@.len(),
                forall|j: int| 0 <= j < i ==> self.entries@[j].1 != KeyState::Pending(h),
            decreases self.entries@.len() - i,
        {
            if self.entries[i].1 == KeyState::Pending(h) {
                proof {
                    lemma_table_at(self.entries@, i as int);
                    let k = self.entries@[i as int].0@;
                    assert(self@.records.contains_key(k) && self@.records[k] == KeyState::Pending(h));
                }
                return false;
            }
            i += 1;
        }
        proof {
            assert forall|k: Seq<char>| #[trigger] self@.records.contains_key(k) implies self@.records[k] != KeyState::Pending(h) by {
                let j = choose|j: int| 0 <= j < self.entries@.len() && self.entries@[j].0@ == k;
                lemma_table_at(self.entries@, j);
            }
        }
        true
    }

    /// The texture that `r` refers to.
    pub fn texture(&self, r: &TextureRef) -> (t: &T)
        requires
            self.wf(),
            held(self@, r.handle()),
        ensures
            self@.arena[r.handle() as int] == Some(*t),
    {
        self.slots[r.handle].as_ref().unwrap()
    }
}

/// Asking twice for a key before its load is back dispatches one load.
pub proof fn lemma_one_load_per_key<T>(m: TextureState<T>, k: Seq<char>)
    ensures
        !enqueue_spec(enqueue_spec(m, k).0, k).1,
{
}

/// Once a finished load of `k` has been taken in and claimed, claiming `k`
/// again hands out the same texture, not a new one; so does `load_sync`,
/// which claims before it loads.
pub proof fn lemma_claimed_texture_shared<T, E>(m: TextureState<T>, k: Seq<char>, t: T)
    requires
        consistent(m),
        loading(m, k),
        m.arena.len() < usize::MAX,
    ensures
        ({
            let m1 = complete_spec(m, k, Ok::<T, E>(t)).0;
            let (m2, r2) = claim_spec(m1, k);
            let (m3, r3) = claim_spec(m2, k);
            &&& r2 == Ok::<usize, ClaimError>(m.arena.len() as usize)
            &&& r3 == r2
            &&& m3.arena[m.arena.len() as int] == Some(t)
            &&& m3.counts[m.arena.len() as int] == 2
        }),
{
}

/// Claiming a key that was never asked for is refused as unregistered.
pub proof fn lemma_claim_needs_request<T>(m: TextureState<T>, k: Seq<char>)
    requires
        !m.records.contains_key(k),
    ensures
        claim_spec(m, k) == (m, Err::<usize, ClaimError>(ClaimError::Unregistered)),
{
}

/// When the last reference to a live texture is released the texture is
/// dropped: the key is no longer resident, a claim is refused, and loading
/// it again makes a new texture in a new slot.
pub proof fn lemma_released_texture_reloads<T>(m: TextureState<T>, k: Seq<char>, h: usize, t: T)
    requires
        consistent(m),
        m.records.contains_key(k),
        m.records[k] == KeyState::Live(h),
        m.counts[h as int] == 1,
    ensures
        ({
            let m1 = release_spec(m, h);
            &&& m1.arena[h as int] is None
            &&& !resident(m1, k)
            &&& claim_spec(m1, k).1 == Err::<usize, ClaimError>(ClaimError::Unregistered)
            &&& enqueue_spec(m1, k).1
            &&& with_slot(m1, k, KeyState::Live(m1.arena.len() as usize), t).arena[m1.arena.len() as int] == Some(t)
            &&& m1.arena.len() != h
        }),
{
}

} // verus!
