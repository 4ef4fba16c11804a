use vstd::prelude::*;

verus! {

/// The three flags, as observers see them.
pub struct Flags {
    pub connectivity_ok: bool,
    pub fetching: bool,
    pub installing: bool,
}

/// Process-wide coordination flags. Each flag changes only through the
/// operation it stands for, so at most one fetch and one install run at a time.
/// One value is shared by all operations (behind a lock in a concurrent host):
/// fetches are serialised system-wide, not per channel.
#[derive(Debug)]
pub struct CoordinationState {
    connectivity_ok: bool,
    fetching: bool,
    installing: bool,
}

impl View for CoordinationState {
    type V = Flags;

    closed spec fn view(&self) -> Flags {
        Flags { connectivity_ok: self.connectivity_ok, fetching: self.fetching, installing: self.installing }
    }
}

/// A fetch may begin when neither a fetch nor an install is running.
pub open spec fn begin_fetch_ok(f: Flags) -> bool {
    !f.fetching && !f.installing
}

/// The flags after a call of `try_begin_fetch`.
pub open spec fn fetch_begun(f: Flags) -> Flags {
    Flags { fetching: f.fetching || begin_fetch_ok(f), ..f }
}

/// The flags after a call of `end_fetch`.
pub open spec fn fetch_ended(f: Flags) -> Flags {
    Flags { fetching: false, ..f }
}

impl CoordinationState {
    /// Starts idle, with connectivity presumed good until a request fails.
    pub fn new() -> (r: CoordinationState)
        ensures
            r@ == (Flags { connectivity_ok: true, fetching: false, installing: false }),
    {
        CoordinationState { connectivity_ok: true, fetching: false, installing: false }
    }

    /// Starts a fetch unless a fetch or an install is running; says whether it did.
    pub fn try_begin_fetch(&mut self) -> (r: bool)
        ensures
            r == begin_fetch_ok(old(self)@),
            final(self)@ == fetch_begun(old(self)@),
    {
        if self.fetching {
            false
        } else if self.installing {
            false
        } else {
            self.fetching = true;
            true
        }
    }

    /// Marks the running fetch as finished.
    pub fn end_fetch(&mut self)
        ensures
            final(self)@ == fetch_ended(old(self)@),
    {
        self.fetching = false;
    }

    /// Starts an install unless one is running; says whether it did.
    pub fn try_begin_install(&mut self) -> (r: bool)
        ensures
            r == !old(self)@.installing,
            final(self)@ == (Flags { installing: true, ..old(self)@ }),
    {
        if self.installing {
            false
        } else {
            self.installing = true;
            true
        }
    }

    /// Marks the running install as finished.
    pub fn end_install(&mut self)
        ensures
            final(self)@ == (Flags { installing: false, ..old(self)@ }),
    {
        self.installing = false;
    }

    /// Records whether the build index was last reachable.
    pub fn set_connectivity(&mut self, ok: bool)
        ensures
            final(self)@ == (Flags { connectivity_ok: ok, ..old(self)@ }),
    {
        self.connectivity_ok = ok;
    }

    pub fn is_connectivity_ok(&self) -> (r: bool)
        ensures
            r == self@.connectivity_ok,
    {
        self.connectivity_ok
    }

    pub fn is_fetching(&self) -> (r: bool)
        ensures
            r == self@.fetching,
    {
        self.fetching
    }

    pub fn is_installing(&self) -> (r: bool)
        ensures
            r == self@.installing,
    {
        self.installing
    }

    /// Whether an action that starts a fetch is offered: the index is
    /// reachable and neither a fetch nor an install is running.
    pub fn can_start_fetch(&self) -> (r: bool)
        ensures
            r == (self@.connectivity_ok && !self@.fetching && !self@.installing),
    {
        self.connectivity_ok && !self.fetching && !self.installing
    }
}

/// A fetch that has begun blocks every later begin until it ends; once it has
/// ended, the next begin succeeds unless an install runs.
pub proof fn lemma_begin_fetch_once(s: Flags)
    ensures
        !begin_fetch_ok(fetch_begun(s)),
        begin_fetch_ok(s) ==> fetch_begun(s).fetching,
        !s.installing ==> begin_fetch_ok(fetch_ended(s)),
        !s.installing ==> begin_fetch_ok(fetch_ended(fetch_begun(s))),
{
}

} // verus!
