//! A single-slot memoised value.
use vstd::prelude::*;

verus! {

/// What a `get` with `builder` may leave behind: starting from `before`, the
/// value `r` is handed out and the cache then holds `after`.
///
/// A full cache hands out what it holds and stays as it is; an empty one is
/// filled with a value that `builder` produced.
pub open spec fn get_post<T, B: FnOnce() -> T>(before: Option<T>, builder: B, r: T, after: Option<T>) -> bool {
    &&& after == Some(r)
    &&& match before {
        Some(v) => r == v,
        None => builder.ensures((), r),
    }
}

/// A value that is built on first use and kept until it is marked dirty.
pub struct Cache<T> {
    data: Option<T>,
}

impl<T> View for Cache<T> {
    type V = Option<T>;

    closed spec fn view(&self) -> Option<T> {
        self.data
    }
}

impl<T> Cache<T> {
    /// Creates an empty cache.
    pub fn new() -> (r: Cache<T>)
        ensures
            r@ == None::<T>,
    {
        Cache { data: None }
    }

    /// Drops the cached value: the next `get` builds it again.
    pub fn dirty(&mut self)
        ensures
            final(self)@ == None::<T>,
    {
        self.data = None;
    }

    /// Returns the cached value, building it with `builder` first if the
    /// cache is empty. A full cache never runs `builder`.
    pub fn get<B: FnOnce() -> T>(&mut self, builder: B) -> (r: &T)
        requires
            old(self)@ is None ==> builder.requires(()),
        ensures
            get_post(old(self)@, builder, *r, final(self)@),
    {
        if self.data.is_none() {
            self.data = Some(builder());
        }
        self.data.as_ref().unwrap()
    }

    /// Returns the cached value if there is one.
    pub fn try_get(&self) -> (r: Option<&T>)
        ensures
            r == match self@ {
                Some(v) => Some(&v),
                None => None::<&T>,
            },
    {
        self.data.as_ref()
    }

    /// Consumes the cache and returns what it held.
    pub fn unwrap(self) -> (r: Option<T>)
        ensures
            r == self@,
    {
        self.data
    }
}

/// Between two calls of `dirty` the first builder's value is the one handed
/// out, whatever builders the later calls pass; after `dirty` the next
/// builder's value is used.
pub proof fn lemma_first_build_kept<T, B1: FnOnce() -> T, B2: FnOnce() -> T>(
    b1: B1,
    b2: B2,
    r1: T,
    c1: Option<T>,
    r2: T,
    c2: Option<T>,
    r3: T,
    c3: Option<T>,
)
    requires
        get_post(None, b1, r1, c1),
        get_post(c1, b2, r2, c2),
        get_post(None, b2, r3, c3),
    ensures
        b1.ensures((), r1),
        r2 == r1,
        c2 == c1,
        b2.ensures((), r3),
        c3 == Some(r3),
{
}

} // verus!
