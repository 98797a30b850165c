//! A group's side of encryption: which key version encrypts, which one a
//! ciphertext's head asks for, and how a version fetched for decryption joins
//! the group's keys.
use vstd::prelude::*;
use crate::cache::FetchFailure;
use crate::envelope::EnvelopeHead;
use crate::error::SentcError;
use crate::key_store::{add_fetched_spec, rotate_spec, KeyStore, KeyStoreView, VersionedKey};

verus! {

/// A change to a key store: a rotation (`true`) or a fetched historical
/// version (`false`), with the key id and its material.
pub type KeyEvent<K> = (bool, Seq<char>, K);

/// The key store after `events`, in order.
pub open spec fn apply_events<K>(v: KeyStoreView<K>, events: Seq<KeyEvent<K>>) -> KeyStoreView<K>
    decreases events.len(),
{
    if events.len() == 0 {
        v
    } else {
        let (rotation, id, material) = events.last();
        let before = apply_events(v, events.drop_last());
        if rotation {
            rotate_spec(before, id, material)
        } else {
            add_fetched_spec(before, id, material)
        }
    }
}

/// What encryption uses stays resolvable: the key version that was newest when
/// data was encrypted is still held, with the same material, after any later
/// rotations and fetched versions, so decryption by the head's key id finds it.
pub proof fn lemma_encryption_key_stays_resolvable<K>(v: KeyStoreView<K>, events: Seq<KeyEvent<K>>)
    requires
        v.newest matches Some(n) ==> v.keys.contains_key(n),
    ensures
        v.keys.submap_of(apply_events(v, events).keys),
        v.newest matches Some(n) ==> apply_events(v, events).keys.contains_key(n)
            && apply_events(v, events).keys[n] == v.keys[n],
    decreases events.len(),
{
    if events.len() > 0 {
        lemma_encryption_key_stays_resolvable(v, events.drop_last());
        let before = apply_events(v, events.drop_last());
        let after = apply_events(v, events);
        assert(before.keys.submap_of(after.keys));
        assert forall|k: Seq<char>| #[trigger] v.keys.contains_key(k) implies after.keys.contains_key(k)
            && after.keys[k] == v.keys[k] by {
            assert(before.keys.contains_key(k));
        }
    }
}

/// A group member's view of a group: its id, the acting user, and the key
/// versions loaded so far.
pub struct Group<K> {
    group_id: String,
    used_user_id: String,
    keys: KeyStore<K>,
}

impl<K> Group<K> {
    pub closed spec fn wf(&self) -> bool {
        self.keys.wf()
    }

    /// The group's id and the acting user's id.
    pub closed spec fn ids(&self) -> (Seq<char>, Seq<char>) {
        (self.group_id@, self.used_user_id@)
    }

    /// The group's key versions.
    pub closed spec fn keys_view(&self) -> KeyStoreView<K> {
        self.keys@
    }

    /// A group with no key loaded yet.
    pub fn new(group_id: String, used_user_id: String) -> (r: Self)
        ensures
            r.wf(),
            r.ids() == (group_id@, used_user_id@),
            r.keys_view().keys == Map::<Seq<char>, K>::empty(),
            r.keys_view().newest is None,
    {
        Group { group_id, used_user_id, keys: KeyStore::new() }
    }

    /// Loads a key rotation: `key` becomes the newest version, and earlier
    /// versions stay for the data they encrypted.
    pub fn set_newest_key(&mut self, key: VersionedKey<K>)
        requires
            old(self).wf(),
        ensures
            final(self).wf(),
            final(self).ids() == old(self).ids(),
            final(self).keys_view() == rotate_spec(old(self).keys_view(), key.id@, key.material),
    {
        self.keys.rotate(key);
    }

    /// The group's id.
    pub fn group_id(&self) -> (r: &str)
        ensures
            r@ == self.ids().0,
    {
        self.group_id.as_str()
    }

    /// The id of the user who acts in the group.
    pub fn used_user_id(&self) -> (r: &str)
        ensures
            r@ == self.ids().1,
    {
        self.used_user_id.as_str()
    }

    /// The newest key version.
    pub fn get_newest_key(&self) -> (r: Option<&VersionedKey<K>>)
        requires
            self.wf(),
        ensures
            r is Some <==> self.keys_view().newest is Some,
            r matches Some(k) ==> Some(k.id@) == self.keys_view().newest
                && self.keys_view().keys.contains_key(k.id@) && self.keys_view().keys[k.id@]
                == k.material,
    {
        self.keys.get_newest_key()
    }

    /// The loaded key version with id `key_id`.
    pub fn get_group_key(&self, key_id: &str) -> (r: Option<&VersionedKey<K>>)
        requires
            self.wf(),
        ensures
            r is Some <==> self.keys_view().keys.contains_key(key_id@),
            r matches Some(k) ==> k.id@ == key_id@ && self.keys_view().keys[key_id@] == k.material,
    {
        self.keys.get_key(key_id)
    }

    /// The keys for encrypting. With `sign`, the acting user's resolved sign
    /// keys must be given (else `UserNotFound`) and hold a newest version (else
    /// `KeyNotFound`); then the group's newest key is used (else
    /// `KeyNotFound`).
    pub fn encrypt_keys<'a, S>(&'a self, sign: bool, user_sign_keys: Option<&'a KeyStore<S>>) -> (r:
        Result<(&'a VersionedKey<K>, Option<&'a VersionedKey<S>>), SentcError>)
        requires
            self.wf(),
            user_sign_keys matches Some(u) ==> u.wf(),
        ensures
            sign && user_sign_keys is None ==> r matches Err(SentcError::UserNotFound),
            sign && user_sign_keys is Some && user_sign_keys->Some_0@.newest is None ==> r matches Err(
                SentcError::KeyNotFound,
            ),
            (!sign || (user_sign_keys is Some && user_sign_keys->Some_0@.newest is Some))
                && self.keys_view().newest is None ==> r matches Err(SentcError::KeyNotFound),
            r is Ok <==> (!sign || (user_sign_keys is Some && user_sign_keys->Some_0@.newest is Some))
                && self.keys_view().newest is Some,
            r matches Ok((k, s)) ==> Some(k.id@) == self.keys_view().newest
                && self.keys_view().keys[k.id@] == k.material
                && (s is Some <==> sign),
            r matches Ok((k, Some(s))) ==> Some(s.id@) == user_sign_keys->Some_0@.newest
                && user_sign_keys->Some_0@.keys[s.id@] == s.material,
    {
        let sign_key = if sign {
            match user_sign_keys {
                None => {
                    return Err(SentcError::UserNotFound);
                },
                Some(u) => match u.get_newest_key() {
                    None => {
                        return Err(SentcError::KeyNotFound);
                    },
                    Some(s) => Some(s),
                },
            }
        } else {
            None
        };
        match self.keys.get_newest_key() {
            None => Err(SentcError::KeyNotFound),
            Some(k) => Ok((k, sign_key)),
        }
    }

    /// The loaded key that decrypts data with head `head`; `None` means the
    /// version has to be fetched by its id and handed to `key_fetched`.
    pub fn decrypt_key(&self, head: &EnvelopeHead) -> (r: Option<&VersionedKey<K>>)
        requires
            self.wf(),
        ensures
            r is Some <==> self.keys_view().keys.contains_key(head.key_id@),
            r matches Some(k) ==> k.id@ == head.key_id@ && self.keys_view().keys[k.id@] == k.material,
    {
        self.keys.get_key(head.key_id.as_str())
    }

    /// Takes the outcome of fetching the version `key_id`: a fetched key joins
    /// the group's keys without becoming the newest; a version the server does
    /// not know gives `KeyNotFound` and changes nothing.
    pub fn key_fetched(&mut self, key_id: &str, outcome: Result<K, FetchFailure>) -> (r: Result<(), SentcError>)
        requires
            old(self).wf(),
        ensures
            final(self).wf(),
            final(self).ids() == old(self).ids(),
            r is Ok <==> outcome is Ok,
            outcome matches Ok(m) ==> final(self).keys_view() == add_fetched_spec(old(self).keys_view(), key_id@, m),
            outcome is Err ==> final(self).keys_view() == old(self).keys_view(),
            outcome == Err::<K, FetchFailure>(FetchFailure::NotFound) ==> r matches Err(SentcError::KeyNotFound),
            outcome == Err::<K, FetchFailure>(FetchFailure::Transport) ==> r matches Err(SentcError::FetchFailed),
    {
        self.keys.finish_fetch(key_id, outcome)
    }
}

} // verus!
