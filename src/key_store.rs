//! Versioned keys of one owner (a group's symmetric keys, a user's sign keys),
//! each tagged by its key id. Rotation appends: no resolved version is ever
//! dropped, so data encrypted under an old version stays decryptable.
use vstd::prelude::*;
use crate::cache::FetchFailure;
use crate::error::SentcError;

verus! {

/// One key version and its id.
pub struct VersionedKey<K> {
    pub id: String,
    pub material: K,
}

/// What a key store holds: the material of each known key id, and the id of
/// the newest version.
pub struct KeyStoreView<K> {
    pub keys: Map<Seq<char>, K>,
    pub newest: Option<Seq<char>>,
}

/// The store after `id` was rotated in: it becomes the newest version, and its
/// material is recorded unless that id is known already.
pub open spec fn rotate_spec<K>(v: KeyStoreView<K>, id: Seq<char>, material: K) -> KeyStoreView<K> {
    KeyStoreView {
        keys: if v.keys.contains_key(id) {
            v.keys
        } else {
            v.keys.insert(id, material)
        },
        newest: Some(id),
    }
}

/// The store after a historical version `id` was fetched: recorded unless
/// known, with the newest version unchanged.
pub open spec fn add_fetched_spec<K>(v: KeyStoreView<K>, id: Seq<char>, material: K) -> KeyStoreView<
    K,
> {
    KeyStoreView {
        keys: if v.keys.contains_key(id) {
            v.keys
        } else {
            v.keys.insert(id, material)
        },
        newest: v.newest,
    }
}

/// Key rotation keeps history: after encrypting under `old_id` and rotating to
/// `new_id`, `new_id` is the newest version and `old_id` still resolves to the
/// same material, whether it was loaded before or is fetched afterwards.
pub proof fn lemma_rotation_keeps_old_keys<K>(
    v: KeyStoreView<K>,
    old_id: Seq<char>,
    new_id: Seq<char>,
    new_material: K,
    fetched: K,
)
    requires
        old_id != new_id,
    ensures
        rotate_spec(v, new_id, new_material).newest == Some(new_id),
        v.keys.contains_key(old_id) ==> rotate_spec(v, new_id, new_material).keys.contains_key(old_id)
            && rotate_spec(v, new_id, new_material).keys[old_id] == v.keys[old_id],
        !v.keys.contains_key(old_id) ==> add_fetched_spec(
            rotate_spec(v, new_id, new_material),
            old_id,
            fetched,
        ).keys[old_id] == fetched,
        add_fetched_spec(rotate_spec(v, new_id, new_material), old_id, fetched).newest == Some(
            new_id,
        ),
        v.keys.submap_of(rotate_spec(v, new_id, new_material).keys),
{
}

/// The error for a key that could not be fetched: `KeyNotFound` when the
/// server does not know it, `FetchFailed` when the fetch itself failed.
pub fn key_fetch_error(e: FetchFailure) -> (r: SentcError)
    ensures
        e == FetchFailure::NotFound ==> r matches SentcError::KeyNotFound,
        e == FetchFailure::Transport ==> r matches SentcError::FetchFailed,
{
    match e {
        FetchFailure::NotFound => SentcError::KeyNotFound,
        FetchFailure::Transport => SentcError::FetchFailed,
    }
}

pub struct KeyStore<K> {
    keys: Vec<VersionedKey<K>>,
    newest: Option<usize>,
    contents: Ghost<Map<Seq<char>, K>>,
}

impl<K> KeyStore<K> {
    pub closed spec fn view(&self) -> KeyStoreView<K> {
        KeyStoreView {
            keys: self.contents@,
            newest: match self.newest {
                Some(i) => Some(self.keys@[i as int].id@),
                None => None,
            },
        }
    }

    pub closed spec fn wf(&self) -> bool {
        &&& forall|i: int|
            0 <= i < self.keys@.len() ==> #[trigger] self.contents@.contains_key(self.keys@[i].id@)
                && self.contents@[self.keys@[i].id@] == self.keys@[i].material
        &&& forall|k: Seq<char>|
            #[trigger] self.contents@.contains_key(k) ==> exists|i: int|
                0 <= i < self.keys@.len() && #[trigger] self.keys@[i].id@ == k
        &&& forall|i: int, j: int|
            0 <= i < j < self.keys@.len() ==> self.keys@[i].id@ != self.keys@[j].id@
        &&& self.newest matches Some(i) ==> i < self.keys@.len()
    }

    /// A store with no key loaded.
    pub fn new() -> (r: Self)
        ensures
            r.wf(),
            r@.keys == Map::<Seq<char>, K>::empty(),
            r@.newest is None,
    {
        KeyStore { keys: Vec::new(), newest: None, contents: Ghost(Map::empty()) }
    }

    fn position(&self, id: &String) -> (r: Option<usize>)
        requires
            self.wf(),
        ensures
            r is None <==> !self@.keys.contains_key(id@),
            r matches Some(i) ==> i < self.keys@.len() && self.keys@[i as int].id@ == id@,
    {
        let mut i: usize = 0;
        while i < self.keys.len()
            invariant
                self.wf(),
                i <= self.keys@.len(),
                forall|j: int| 0 <= j < i ==> self.keys@[j].id@ != id@,
            decreases self.keys@.len() - i,
        {
            if self.keys[i].id == *id {
                return Some(i);
            }
            i = i + 1;
        }
        proof {
            if self@.keys.contains_key(id@) {
                let k = id@;
                assert(exists|j: int| 0 <= j < self.keys@.len() && #[trigger] self.keys@[j].id@ == k);
            }
        }
        None
    }

    /// Records `key` unless its id is known; returns its position.
    fn insert(&mut self, key: VersionedKey<K>) -> (r: usize)
        requires
            old(self).wf(),
        ensures
            final(self).wf(),
            final(self).newest == old(self).newest,
            final(self)@.keys == (if old(self)@.keys.contains_key(key.id@) {
                old(self)@.keys
            } else {
                old(self)@.keys.insert(key.id@, key.material)
            }),
            r < final(self).keys@.len(),
            final(self).keys@[r as int].id@ == key.id@,
            forall|j: int| 0 <= j < old(self).keys@.len() ==> final(self).keys@[j] == old(self).keys@[j],
    {
        match self.position(&key.id) {
            Some(i) => i,
            None => {
                let ghost id = key.id@;
                let ghost m = key.material;
                proof {
                    assert forall|j: int| 0 <= j < old(self).keys@.len() implies old(self).keys@[j].id@ != id by {
                        assert(old(self).contents@.contains_key(old(self).keys@[j].id@));
                    }
                }
                self.keys.push(key);
                self.contents = Ghost(self.contents@.insert(id, m));
                assert forall|j: int| 0 <= j < self.keys@.len() implies #[trigger] self.contents@.contains_key(
                    self.keys@[j].id@) && self.contents@[self.keys@[j].id@] == self.keys@[j].material by {
                    if j < old(self).keys@.len() {
                        assert(old(self).contents@.contains_key(old(self).keys@[j].id@));
                    }
                }
                assert forall|k: Seq<char>| #[trigger] self.contents@.contains_key(k) implies exists|j: int|
                    0 <= j < self.keys@.len() && #[trigger] self.keys@[j].id@ == k by {
                    if k == id {
                        assert(self.keys@[self.keys@.len() - 1].id@ == k);
                    } else {
                        let j = choose|j: int| 0 <= j < old(self).keys@.len() && #[trigger] old(self).keys@[j].id@ == k;
                        assert(self.keys@[j].id@ == k);
                    }
                }
                assert forall|a: int, b: int| 0 <= a < b < self.keys@.len() implies self.keys@[a].id@
                    != self.keys@[b].id@ by {
                    if b < old(self).keys@.len() {
                        assert(old(self).keys@[a] == self.keys@[a]);
                        assert(old(self).keys@[b] == self.keys@[b]);
                    }
                }
                self.keys.len() - 1
            },
        }
    }

    /// Makes `key` the newest version. Earlier versions stay.
    pub fn rotate(&mut self, key: VersionedKey<K>)
        requires
            old(self).wf(),
        ensures
            final(self).wf(),
            final(self)@ == rotate_spec(old(self)@, key.id@, key.material),
    {
        let i = self.insert(key);
        self.newest = Some(i);
    }

    /// Records a historical version fetched for decryption; the newest version
    /// does not change.
    pub fn add_fetched(&mut self, key: VersionedKey<K>)
        requires
            old(self).wf(),
        ensures
            final(self).wf(),
            final(self)@ == add_fetched_spec(old(self)@, key.id@, key.material),
    {
        self.insert(key);
    }

    /// The newest version, which every encryption uses.
    pub fn get_newest_key(&self) -> (r: Option<&VersionedKey<K>>)
        requires
            self.wf(),
        ensures
            r is Some <==> self@.newest is Some,
            r matches Some(k) ==> Some(k.id@) == self@.newest && self@.keys.contains_key(k.id@)
                && self@.keys[k.id@] == k.material,
    {
        match self.newest {
            Some(i) => {
                assert(self.contents@.contains_key(self.keys@[i as int].id@));
                Some(&self.keys[i])
            },
            None => None,
        }
    }

    /// The version with id `id`, if it is loaded.
    pub fn get_key(&self, id: &str) -> (r: Option<&VersionedKey<K>>)
        requires
            self.wf(),
        ensures
            r is Some <==> self@.keys.contains_key(id@),
            r matches Some(k) ==> k.id@ == id@ && self@.keys[id@] == k.material,
    {
        let key = id.to_owned();
        match self.position(&key) {
            Some(i) => {
                assert(self.contents@.contains_key(self.keys@[i as int].id@));
                Some(&self.keys[i])
            },
            None => None,
        }
    }

    /// Takes the outcome of fetching version `id` from the key server. A
    /// fetched key is recorded; a key the server does not know gives
    /// `KeyNotFound`, any other failure `FetchFailed`, and then the store is
    /// left as it was.
    pub fn finish_fetch(&mut self, id: &str, outcome: Result<K, FetchFailure>) -> (r: Result<(), SentcError>)
        requires
            old(self).wf(),
        ensures
            final(self).wf(),
            r is Ok <==> outcome is Ok,
            outcome matches Ok(m) ==> final(self)@ == add_fetched_spec(old(self)@, id@, m),
            outcome is Err ==> final(self)@ == old(self)@,
            outcome == Err::<K, FetchFailure>(FetchFailure::NotFound) ==> r matches Err(SentcError::KeyNotFound),
            outcome == Err::<K, FetchFailure>(FetchFailure::Transport) ==> r matches Err(SentcError::FetchFailed),
    {
        match outcome {
            Ok(material) => {
                self.add_fetched(VersionedKey { id: id.to_owned(), material });
                Ok(())
            },
            Err(e) => Err(key_fetch_error(e)),
        }
    }
}

} // verus!
