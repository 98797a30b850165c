//! An in-memory cache of fetched records, keyed by entity identifier, that
//! lets concurrent lookups of one missing identifier share a single fetch.
use vstd::prelude::*;

verus! {

/// Why a fetch from the key server did not produce a record.
#[derive(Clone, Copy, Debug, PartialEq, Eq, Structural)]
pub enum FetchFailure {
    /// The server reports that the identifier does not exist.
    NotFound,
    /// The transport or the decoding of the answer failed.
    Transport,
}

/// The state of one cached identifier.
pub enum EntryState<T> {
    Fetching,
    Ready(T),
    Failed(FetchFailure),
}

/// What a lookup tells its caller to do.
#[derive(Clone, Copy, Debug, PartialEq, Eq, Structural)]
pub enum Lookup {
    /// The record is cached: read it with `get`.
    Ready,
    /// This caller owns the one fetch for the identifier and must `complete` it.
    Fetch,
    /// Another caller is fetching: wait, then `poll`.
    Wait,
}

/// What a waiting caller observes for an identifier.
#[derive(Clone, Copy, Debug, PartialEq, Eq, Structural)]
pub enum Poll {
    Ready,
    Pending,
    Failed(FetchFailure),
    Absent,
}

pub struct CacheEntry<T> {
    pub id: String,
    pub state: EntryState<T>,
}

pub struct KeyCache<T> {
    entries: Vec<CacheEntry<T>>,
    contents: Ghost<Map<Seq<char>, EntryState<T>>>,
}

/// The state after a lookup of `id`, and what the caller is told.
pub open spec fn lookup_spec<T>(m: Map<Seq<char>, EntryState<T>>, id: Seq<char>) -> (Map<
    Seq<char>,
    EntryState<T>,
>, Lookup) {
    if m.contains_key(id) && m[id] is Ready {
        (m, Lookup::Ready)
    } else if m.contains_key(id) && m[id] is Fetching {
        (m, Lookup::Wait)
    } else {
        (m.insert(id, EntryState::Fetching), Lookup::Fetch)
    }
}

/// What `poll` reports of `id` in the state `m`.
pub open spec fn poll_spec<T>(m: Map<Seq<char>, EntryState<T>>, id: Seq<char>) -> Poll {
    if !m.contains_key(id) {
        Poll::Absent
    } else {
        match m[id] {
            EntryState::Fetching => Poll::Pending,
            EntryState::Ready(_) => Poll::Ready,
            EntryState::Failed(e) => Poll::Failed(e),
        }
    }
}

/// The state after the fetch of `id` ended with `outcome`.
pub open spec fn complete_spec<T>(
    m: Map<Seq<char>, EntryState<T>>,
    id: Seq<char>,
    outcome: Result<T, FetchFailure>,
) -> Map<Seq<char>, EntryState<T>> {
    if m.contains_key(id) && m[id] is Fetching {
        match outcome {
            Ok(v) => m.insert(id, EntryState::Ready(v)),
            Err(e) => m.insert(id, EntryState::Failed(e)),
        }
    } else {
        m
    }
}

/// How many of `n` lookups of `id`, one after the other from the state `m`
/// with no fetch completed in between, are told to fetch.
pub open spec fn fetches_started<T>(m: Map<Seq<char>, EntryState<T>>, id: Seq<char>, n: nat) -> nat
    decreases n,
{
    if n == 0 {
        0
    } else {
        let (m2, r) = lookup_spec(m, id);
        (if r == Lookup::Fetch {
            1nat
        } else {
            0nat
        }) + fetches_started(m2, id, (n - 1) as nat)
    }
}

/// Single flight: however many lookups of one identifier run before its fetch
/// completes, at most one of them fetches, and none does while a fetch is in
/// flight or the record is cached.
pub proof fn lemma_single_flight<T>(m: Map<Seq<char>, EntryState<T>>, id: Seq<char>, n: nat)
    ensures
        fetches_started(m, id, n) <= 1,
        m.contains_key(id) && !(m[id] is Failed) ==> fetches_started(m, id, n) == 0,
    decreases n,
{
    if n > 0 {
        let (m2, r) = lookup_spec(m, id);
        lemma_single_flight(m2, id, (n - 1) as nat);
        assert(m2.contains_key(id) && !(m2[id] is Failed));
    }
}

/// All waiters see one outcome: once the fetch of `id` completes, every poll
/// reports that outcome, and every lookup either reads the record or, after a
/// failure, is the one caller allowed to retry.
pub proof fn lemma_waiters_share_outcome<T>(
    m: Map<Seq<char>, EntryState<T>>,
    id: Seq<char>,
    outcome: Result<T, FetchFailure>,
)
    requires
        m.contains_key(id),
        m[id] is Fetching,
    ensures
        poll_spec(complete_spec(m, id, outcome), id) == (match outcome {
            Ok(_) => Poll::Ready,
            Err(e) => Poll::Failed(e),
        }),
        outcome is Ok ==> complete_spec(m, id, outcome)[id] == EntryState::Ready(
            outcome->Ok_0,
        ),
        outcome is Ok ==> lookup_spec(complete_spec(m, id, outcome), id).1 == Lookup::Ready,
        outcome is Err ==> fetches_started(complete_spec(m, id, outcome), id, 2) == 1,
{
    let m2 = complete_spec(m, id, outcome);
    if outcome is Err {
        let (m3, _) = lookup_spec(m2, id);
        assert(fetches_started(m3, id, 1) == 0) by {
            lemma_single_flight(m3, id, 1);
        }
        assert(fetches_started(lookup_spec(m3, id).0, id, 0) == 0);
    }
}

impl<T> KeyCache<T> {
    /// What the cache holds for each identifier.
    pub closed spec fn view(&self) -> Map<Seq<char>, EntryState<T>> {
        self.contents@
    }

    pub closed spec fn wf(&self) -> bool {
        &&& forall|i: int|
            0 <= i < self.entries@.len() ==> #[trigger] self.contents@.contains_key(
                self.entries@[i].id@,
            ) && self.contents@[self.entries@[i].id@] == self.entries@[i].state
        &&& forall|k: Seq<char>|
            #[trigger] self.contents@.contains_key(k) ==> exists|i: int|
                0 <= i < self.entries@.len() && #[trigger] self.entries@[i].id@ == k
        &&& forall|i: int, j: int|
            0 <= i < j < self.entries@.len() ==> self.entries@[i].id@ != self.entries@[j].id@
    }

    /// An empty cache.
    pub fn new() -> (r: Self)
        ensures
            r.wf(),
            r@ == Map::<Seq<char>, EntryState<T>>::empty(),
    {
        KeyCache { entries: Vec::new(), contents: Ghost(Map::empty()) }
    }

    /// The position of `id` among the entries, if it is cached.
    fn position(&self, id: &String) -> (r: Option<usize>)
        requires
            self.wf(),
        ensures
            r is None <==> !self@.contains_key(id@),
            r matches Some(i) ==> i < self.entries@.len() && self.entries@[i as int].id@ == id@,
    {
        let mut i: usize = 0;
        while i < self.entries.len()
            invariant
                self.wf(),
                i <= self.entries@.len(),
                forall|j: int| 0 <= j < i ==> self.entries@[j].id@ != id@,
            decreases self.entries@.len() - i,
        {
            if self.entries[i].id == *id {
                return Some(i);
            }
            i = i + 1;
        }
        proof {
            if self@.contains_key(id@) {
                let k = id@;
                assert(exists|j: int| 0 <= j < self.entries@.len() && #[trigger] self.entries@[j].id@ == k);
            }
        }
        None
    }

    /// Looks `id` up, starting its fetch only when none is in flight and the
    /// record is not cached; a failed fetch may be retried.
    pub fn lookup(&mut self, id: &str) -> (r: Lookup)
        requires
            old(self).wf(),
        ensures
            final(self).wf(),
            (final(self)@, r) == lookup_spec(old(self)@, id@),
    {
        let key = id.to_owned();
        match self.position(&key) {
            Some(i) => {
                match self.entries[i].state {
                    EntryState::Ready(_) => Lookup::Ready,
                    EntryState::Fetching => Lookup::Wait,
                    EntryState::Failed(_) => {
                        self.set_state(i, EntryState::Fetching);
                        Lookup::Fetch
                    },
                }
            },
            None => {
                proof {
                    assert forall|j: int| 0 <= j < old(self).entries@.len() implies old(self).entries@[j].id@ != id@ by {
                        assert(old(self).contents@.contains_key(old(self).entries@[j].id@));
                    }
                }
                self.entries.push(CacheEntry { id: key, state: EntryState::Fetching });
                self.contents = Ghost(self.contents@.insert(id@, EntryState::Fetching));
                assert forall|j: int| 0 <= j < self.entries@.len() implies #[trigger] self.contents@.contains_key(
                    self.entries@[j].id@) && self.contents@[self.entries@[j].id@] == self.entries@[j].state by {
                    if j < old(self).entries@.len() {
                        assert(old(self).contents@.contains_key(old(self).entries@[j].id@));
                    }
                }
                assert forall|k: Seq<char>| #[trigger] self.contents@.contains_key(k) implies exists|j: int|
                    0 <= j < self.entries@.len() && #[trigger] self.entries@[j].id@ == k by {
                    if k == id@ {
                        assert(self.entries@[self.entries@.len() - 1].id@ == k);
                    } else {
                        assert(old(self).contents@.contains_key(k));
                        let j = choose|j: int| 0 <= j < old(self).entries@.len() && #[trigger] old(self).entries@[j].id@ == k;
                        assert(self.entries@[j].id@ == k);
                    }
                }
                Lookup::Fetch
            },
        }
    }

    /// Replaces the state of the entry at position `i`.
    fn set_state(&mut self, i: usize, state: EntryState<T>)
        requires
            old(self).wf(),
            i < old(self).entries@.len(),
        ensures
            final(self).wf(),
            final(self)@ == old(self)@.insert(old(self).entries@[i as int].id@, state),
            final(self).entries@.len() == old(self).entries@.len(),
    {
        let ghost id = self.entries@[i as int].id@;
        let key = self.entries[i].id.clone();
        self.entries.set(i, CacheEntry { id: key, state });
        self.contents = Ghost(self.contents@.insert(id, state));
        assert forall|j: int| 0 <= j < self.entries@.len() implies #[trigger] self.contents@.contains_key(
            self.entries@[j].id@) && self.contents@[self.entries@[j].id@] == self.entries@[j].state by {
            if j != i {
                assert(old(self).contents@.contains_key(old(self).entries@[j].id@));
            }
        }
        assert forall|k: Seq<char>| #[trigger] self.contents@.contains_key(k) implies exists|j: int|
            0 <= j < self.entries@.len() && #[trigger] self.entries@[j].id@ == k by {
            if k == id {
                assert(self.entries@[i as int].id@ == k);
            } else {
                let j = choose|j: int| 0 <= j < old(self).entries@.len() && #[trigger] old(self).entries@[j].id@ == k;
                assert(self.entries@[j].id@ == k);
            }
        }
    }

    /// What a caller waiting on `id` observes; it never starts a fetch.
    pub fn poll(&self, id: &str) -> (r: Poll)
        requires
            self.wf(),
        ensures
            r == poll_spec(self@, id@),
    {
        let key = id.to_owned();
        match self.position(&key) {
            None => Poll::Absent,
            Some(i) => match self.entries[i].state {
                EntryState::Fetching => Poll::Pending,
                EntryState::Ready(_) => Poll::Ready,
                EntryState::Failed(e) => Poll::Failed(e),
            },
        }
    }

    /// The cached record of `id`, if its fetch has succeeded.
    pub fn get(&self, id: &str) -> (r: Option<&T>)
        requires
            self.wf(),
        ensures
            r is Some <==> self@.contains_key(id@) && self@[id@] is Ready,
            r matches Some(v) ==> self@[id@] == EntryState::Ready(*v),
    {
        let key = id.to_owned();
        match self.position(&key) {
            None => None,
            Some(i) => match &self.entries[i].state {
                EntryState::Ready(v) => Some(v),
                _ => None,
            },
        }
    }

    /// Ends the fetch of `id` with its outcome, which every waiter then
    /// observes. Returns false, and changes nothing, when no fetch of `id` is
    /// in flight.
    pub fn complete(&mut self, id: &str, outcome: Result<T, FetchFailure>) -> (r: bool)
        requires
            old(self).wf(),
        ensures
            final(self).wf(),
            final(self)@ == complete_spec(old(self)@, id@, outcome),
            r == (old(self)@.contains_key(id@) && old(self)@[id@] is Fetching),
    {
        let key = id.to_owned();
        match self.position(&key) {
            None => false,
            Some(i) => {
                if let EntryState::Fetching = self.entries[i].state {
                    match outcome {
                        Ok(v) => self.set_state(i, EntryState::Ready(v)),
                        Err(e) => self.set_state(i, EntryState::Failed(e)),
                    }
                    true
                } else {
                    false
                }
            },
        }
    }
}

} // verus!
