//! The encrypted label-to-secret store of one session.
//!
//! The store maps the identifier of each label (its hash) to a blob that seals the
//! secret under a key derived from the user name and the password. A reserved entry
//! seals the format version: it is written when the store is first used, must
//! decrypt for a later session to open the store, and is never replaced or removed.
use std::collections::BTreeMap;
use vstd::prelude::*;
use vstd::string::StringSliceAdditionalSpecFns;
use crate::cipher::{
    KDF_ROUNDS, KEY_LEN, MAX_KDF_INPUT, NONCE_LEN, blob_of, decrypt, derive_key, derived_key,
    hash_label, label_id, lemma_blob_opens, opens_to, random_nonce, seal_with_nonce,
};
use crate::input::{
    CmdError, MAX_SECRET_LEN, base32_decoding, is_base32_symbol, is_reserved, is_reserved_spec, parse_secret,
    secret_outcome, sentinel, sentinel_label,
};
use crate::otp::{totp_code, totp_spec};

verus! {

broadcast use vstd::laws_cmp::group_laws_cmp, vstd::std_specs::btree::group_btree_axioms;

/// The contents of a map of blobs as read from or written to disk.
pub open spec fn blob_view(m: Map<u128, Vec<u8>>) -> Map<u128, Seq<u8>> {
    Map::new(|k: u128| m.contains_key(k), |k: u128| m[k]@)
}

/// Whether `entries` holds, at identifier `id`, a blob that decrypts to `plain` under `key`.
pub open spec fn holds_secret(entries: Map<u128, Seq<u8>>, key: Seq<u8>, id: u128, plain: Seq<u8>) -> bool {
    entries.contains_key(id) && opens_to(key, entries[id], plain)
}

/// The key of a session opened by `user` with `password`.
pub open spec fn session_key(user: Seq<u8>, password: Seq<u8>) -> Seq<u8> {
    derived_key(KDF_ROUNDS, user, password)
}

/// The version string sealed in the reserved entry.
pub open spec fn version_marker() -> Seq<u8> {
    seq![48u8, 46, 49, 46, 48]
}

/// The version string sealed in the reserved entry (`0.1.0`).
pub fn version() -> (r: Vec<u8>)
    ensures
        r@ == version_marker(),
{
    let r = vec![48u8, 46, 49, 46, 48];
    assert(r@ == version_marker());
    r
}

/// The identifier of the reserved entry.
pub open spec fn sentinel_id() -> u128 {
    label_id(sentinel_label())
}

/// Whether a session opened with `key` accepts the blobs `data`: the reserved entry
/// is there and decrypts under `key`.
pub open spec fn accepts(data: Map<u128, Seq<u8>>, key: Seq<u8>) -> bool {
    exists|p: Seq<u8>| holds_secret(data, key, sentinel_id(), p)
}

/// Whether a user name and a password can derive a key: neither is empty or overlong.
pub open spec fn credentials_ok(user: Seq<u8>, password: Seq<u8>) -> bool {
    0 < user.len() <= MAX_KDF_INPUT && 0 < password.len() <= MAX_KDF_INPUT
}

/// Whether `app` is a fresh session under `key` whose only entry is the reserved one,
/// sealing the version marker with `nonce`, and which must be written back.
pub open spec fn bootstrapped(app: App, key: Seq<u8>, nonce: Seq<u8>) -> bool {
    &&& app.entries() == Map::<u128, Seq<u8>>::empty().insert(
        sentinel_id(),
        blob_of(key, nonce, version_marker()),
    )
    &&& holds_secret(app.entries(), app.key(), sentinel_id(), version_marker())
    &&& app.changed()
}

/// What sealing `secret` with `nonce` under identifier `id` does to a session: it is
/// refused (`InvalidLabel`) at the reserved identifier, refused (`NoFreshNonce`) where
/// the blob would repeat the one it replaces, and otherwise files the blob there.
pub open spec fn insert_outcome(
    before: App,
    after: App,
    id: u128,
    secret: Seq<u8>,
    nonce: Seq<u8>,
    r: Result<(), CmdError>,
) -> bool {
    let blob = blob_of(before.key(), nonce, secret);
    &&& (r is Ok <==> id != sentinel_id() && !(before.entries().contains_key(id)
        && before.entries()[id] == blob))
    &&& r is Ok ==> {
        &&& after.entries() == before.entries().insert(id, blob)
        &&& after.key() == before.key()
        &&& after.changed()
        &&& holds_secret(after.entries(), after.key(), id, secret)
        &&& before.entries().contains_key(id) ==> after.entries()[id] != before.entries()[id]
    }
    &&& r is Err ==> after.same_as(&before) && (r == Err::<(), CmdError>(CmdError::InvalidLabel)
        <==> id == sentinel_id()) && (id != sentinel_id() ==> r == Err::<(), CmdError>(
        CmdError::NoFreshNonce,
    ))
}

/// The first refusal that the label argument of a command gets, if any.
pub open spec fn label_error(args: Seq<&str>) -> Option<CmdError> {
    if args.len() == 0 {
        Some(CmdError::MissingLabel)
    } else if is_reserved_spec(args[0].spec_bytes()) {
        Some(CmdError::InvalidLabel)
    } else {
        None
    }
}

/// One session over the store: the blobs, the session key, and whether the blobs
/// changed since the session was opened.
pub struct App {
    entries: BTreeMap<u128, Vec<u8>>,
    key: Vec<u8>,
    sentinel: u128,
    is_changed: bool,
}

impl App {
    /// The blobs of the store, by identifier.
    pub closed spec fn entries(&self) -> Map<u128, Seq<u8>> {
        blob_view(self.entries@)
    }

    /// The session's cipher key.
    pub closed spec fn key(&self) -> Seq<u8> {
        self.key@
    }

    /// Whether the store must be written back when the session ends.
    pub closed spec fn changed(&self) -> bool {
        self.is_changed
    }

    /// A session holds a key of the cipher's size and the reserved entry, which
    /// decrypts under that key.
    pub closed spec fn wf(&self) -> bool {
        &&& self.key@.len() == KEY_LEN
        &&& self.sentinel == sentinel_id()
        &&& accepts(self.entries(), self.key())
    }

    /// Whether two sessions hold the same store in the same state.
    pub open spec fn same_as(&self, other: &App) -> bool {
        &&& self.entries() == other.entries()
        &&& self.key() == other.key()
        &&& self.changed() == other.changed()
    }

    /// Opens a session on the blobs `data` read from disk, with the key derived from
    /// `user` and `password`, sealing the reserved entry of an empty store with `nonce`.
    ///
    /// With no blobs, the reserved entry is sealed and the session is marked changed.
    /// Otherwise the session opens exactly where the reserved entry decrypts under the
    /// derived key, i.e. the password is the one the store was written with.
    pub fn new_with_nonce(data: BTreeMap<u128, Vec<u8>>, user: &[u8], password: &[u8], nonce: &[u8]) -> (r:
        Option<App>)
        requires
            nonce@.len() == NONCE_LEN,
        ensures
            !credentials_ok(user@, password@) ==> r is None,
            r is Some ==> r->0.wf() && r->0.key() == session_key(user@, password@),
            credentials_ok(user@, password@) && data@.is_empty() ==> r is Some && bootstrapped(
                r->0,
                session_key(user@, password@),
                nonce@,
            ),
            credentials_ok(user@, password@) && !data@.is_empty() ==> (r is Some <==> accepts(
                blob_view(data@),
                session_key(user@, password@),
            )),
            !data@.is_empty() && r is Some ==> r->0.entries() == blob_view(data@) && !r->0.changed(),
    {
        if user.len() == 0 || password.len() == 0 || user.len() > MAX_KDF_INPUT
            || password.len() > MAX_KDF_INPUT {
            return None;
        }
        let key = derive_key(KDF_ROUNDS, user, password);
        let s = sentinel();
        let sid = hash_label(s.as_slice());
        if data.is_empty() {
            let v = version();
            let blob = seal_with_nonce(key.as_slice(), nonce, v.as_slice());
            let mut entries = data;
            entries.insert(sid, blob);
            let app = App { entries, key, sentinel: sid, is_changed: true };
            assert(app.entries() =~= Map::<u128, Seq<u8>>::empty().insert(
                sentinel_id(),
                blob_of(session_key(user@, password@), nonce@, version_marker()),
            ));
            assert(holds_secret(app.entries(), app.key(), sentinel_id(), version_marker()));
            Some(app)
        } else {
            let ok = match data.get(&sid) {
                None => false,
                Some(b) => match decrypt(key.as_slice(), b.as_slice()) {
                    Some(v) => {
                        assert(holds_secret(blob_view(data@), key@, sentinel_id(), v@));
                        true
                    },
                    None => false,
                },
            };
            if ok {
                let app = App { entries: data, key, sentinel: sid, is_changed: false };
                assert(app.entries() == blob_view(data@));
                Some(app)
            } else {
                None
            }
        }
    }

    /// Opens a session on the blobs `data` read from disk, with the key derived from
    /// `user` and `password`; see `new_with_nonce`. An empty store gets its reserved
    /// entry sealed with a freshly drawn nonce, and the session does not open where
    /// the system gives no random bytes.
    pub fn new(data: BTreeMap<u128, Vec<u8>>, user: &[u8], password: &[u8]) -> (r: Option<App>)
        ensures
            !credentials_ok(user@, password@) ==> r is None,
            r is Some ==> r->0.wf() && r->0.key() == session_key(user@, password@),
            data@.is_empty() && r is Some ==> exists|n: Seq<u8>|
                n.len() == NONCE_LEN && bootstrapped(r->0, session_key(user@, password@), n),
            credentials_ok(user@, password@) && !data@.is_empty() ==> (r is Some <==> accepts(
                blob_view(data@),
                session_key(user@, password@),
            )),
            !data@.is_empty() && r is Some ==> r->0.entries() == blob_view(data@) && !r->0.changed(),
    {
        if data.is_empty() {
            match random_nonce() {
                None => None,
                Some(n) => App::new_with_nonce(data, user, password, n.as_slice()),
            }
        } else {
            let unused = vec![0u8, 0, 0, 0, 0, 0, 0, 0, 0, 0, 0, 0];
            App::new_with_nonce(data, user, password, unused.as_slice())
        }
    }

    /// The number of entries, the reserved one included.
    pub fn len(&self) -> (r: usize)
        ensures
            r as nat == self.entries().len(),
    {
        assert(self.entries().dom() =~= self.entries@.dom());
        self.entries.len()
    }

    /// Whether the store changed since the session was opened.
    pub fn is_changed(&self) -> (r: bool)
        ensures
            r == self.changed(),
    {
        self.is_changed
    }

    /// The blobs to write to disk when the session ends.
    pub fn blobs(&self) -> (r: &BTreeMap<u128, Vec<u8>>)
        ensures
            blob_view(r@) == self.entries(),
    {
        &self.entries
    }

    /// Seals `secret` with `nonce` under the label's identifier, replacing any entry
    /// there (also that of another label with the same hash); see `insert_outcome`.
    pub fn insert_sealed(&mut self, label: &[u8], secret: &[u8], nonce: &[u8]) -> (r: Result<(), CmdError>)
        requires
            old(self).wf(),
            0 < secret@.len() <= MAX_SECRET_LEN,
            nonce@.len() == NONCE_LEN,
        ensures
            final(self).wf(),
            insert_outcome(*old(self), *final(self), label_id(label@), secret@, nonce@, r),
    {
        let id = hash_label(label);
        if id == self.sentinel {
            return Err(CmdError::InvalidLabel);
        }
        let blob = seal_with_nonce(self.key.as_slice(), nonce, secret);
        let same = match self.entries.get(&id) {
            Some(prev) => slices_equal(prev.as_slice(), blob.as_slice()),
            None => false,
        };
        if same {
            return Err(CmdError::NoFreshNonce);
        }
        let ghost before = self.entries();
        let ghost w = choose|p: Seq<u8>| holds_secret(before, self.key(), sentinel_id(), p);
        self.entries.insert(id, blob);
        self.is_changed = true;
        assert(self.entries() =~= before.insert(id, blob@));
        assert(self.entries()[sentinel_id()] == before[sentinel_id()]);
        assert(holds_secret(self.entries(), self.key(), sentinel_id(), w));
        Ok(())
    }

    /// Seals `secret` with a freshly drawn nonce under the label's identifier; see
    /// `insert_sealed`. Where the system gives no random bytes, `NoFreshNonce` comes
    /// and nothing changes.
    pub fn insert(&mut self, label: &[u8], secret: &[u8]) -> (r: Result<(), CmdError>)
        requires
            old(self).wf(),
            0 < secret@.len() <= MAX_SECRET_LEN,
        ensures
            final(self).wf(),
            label_id(label@) == sentinel_id() ==> r == Err::<(), CmdError>(CmdError::InvalidLabel)
                && final(self).same_as(old(self)),
            (r == Err::<(), CmdError>(CmdError::NoFreshNonce) && final(self).same_as(old(self)))
                || exists|n: Seq<u8>| n.len() == NONCE_LEN
                    && insert_outcome(*old(self), *final(self), label_id(label@), secret@, n, r),
    {
        let id = hash_label(label);
        if id == self.sentinel {
            let ghost n = Seq::<u8>::new(NONCE_LEN as nat, |i: int| 0u8);
            assert(n.len() == NONCE_LEN);
            assert(insert_outcome(*old(self), *self, label_id(label@), secret@, n, Err::<(), CmdError>(CmdError::InvalidLabel)));
            return Err(CmdError::InvalidLabel);
        }
        match random_nonce() {
            None => Err(CmdError::NoFreshNonce),
            Some(n) => self.insert_sealed(label, secret, n.as_slice()),
        }
    }

    /// The secret filed under `label`: `UnknownLabel` where there is no entry,
    /// `Unreadable` where the entry does not decrypt under this session's key.
    pub fn get(&self, label: &[u8]) -> (r: Result<Vec<u8>, CmdError>)
        requires
            self.wf(),
        ensures
            match r {
                Ok(v) => holds_secret(self.entries(), self.key(), label_id(label@), v@),
                Err(CmdError::UnknownLabel) => !self.entries().contains_key(label_id(label@)),
                Err(CmdError::Unreadable) => self.entries().contains_key(label_id(label@))
                    && forall|p: Seq<u8>| !holds_secret(self.entries(), self.key(), label_id(label@), p),
                Err(_) => false,
            },
            forall|p: Seq<u8>| holds_secret(self.entries(), self.key(), label_id(label@), p)
                ==> r is Ok && r->Ok_0@ == p,
    {
        let id = hash_label(label);
        match self.entries.get(&id) {
            None => Err(CmdError::UnknownLabel),
            Some(b) => match decrypt(self.key.as_slice(), b.as_slice()) {
                Some(v) => Ok(v),
                None => Err(CmdError::Unreadable),
            },
        }
    }

    /// Drops the entry under the label's identifier. The reserved identifier is
    /// refused; an absent one is `UnknownLabel`. The session is marked changed only
    /// where an entry was dropped.
    pub fn remove(&mut self, label: &[u8]) -> (r: Result<(), CmdError>)
        requires
            old(self).wf(),
        ensures
            final(self).wf(),
            final(self).key() == old(self).key(),
            label_id(label@) == sentinel_id() ==> r == Err::<(), CmdError>(CmdError::InvalidLabel)
                && final(self).same_as(old(self)),
            label_id(label@) != sentinel_id() ==> {
                let id = label_id(label@);
                &&& (r is Ok <==> old(self).entries().contains_key(id))
                &&& r is Err ==> r == Err::<(), CmdError>(CmdError::UnknownLabel)
                &&& final(self).entries() == old(self).entries().remove(id)
                &&& final(self).changed() == (old(self).changed() || r is Ok)
            },
    {
        let id = hash_label(label);
        if id == self.sentinel {
            return Err(CmdError::InvalidLabel);
        }
        let ghost before = self.entries();
        let ghost w = choose|p: Seq<u8>| holds_secret(before, self.key(), sentinel_id(), p);
        let removed = self.entries.remove(&id);
        assert(self.entries() =~= before.remove(id));
        assert(self.entries()[sentinel_id()] == before[sentinel_id()]);
        assert(holds_secret(self.entries(), self.key(), sentinel_id(), w));
        match removed {
            Some(_) => {
                self.is_changed = true;
                Ok(())
            },
            None => Err(CmdError::UnknownLabel),
        }
    }

    /// `add <label> <data>`: stores the base32 seed `data` under `label`.
    pub fn cmd_add(&mut self, args: &[&str]) -> (r: Result<(), CmdError>)
        requires
            old(self).wf(),
        ensures
            final(self).wf(),
            label_error(args@) is Some ==> r == Err::<(), CmdError>(label_error(args@)->0)
                && final(self).same_as(old(self)),
            label_error(args@) is None && args@.len() < 2 ==> r == Err::<(), CmdError>(CmdError::MissingData)
                && final(self).same_as(old(self)),
            label_error(args@) is None && args@.len() >= 2 ==> match secret_outcome(
                base32_decoding(args@[1].spec_bytes()),
            ) {
                Err(e) => r == Err::<(), CmdError>(e) && final(self).same_as(old(self)),
                Ok(s) => (r == Err::<(), CmdError>(CmdError::NoFreshNonce) && final(self).same_as(old(self)))
                    || exists|n: Seq<u8>| n.len() == NONCE_LEN && insert_outcome(
                        *old(self),
                        *final(self),
                        label_id(args@[0].spec_bytes()),
                        s,
                        n,
                        r,
                    ),
            },
            label_error(args@) is None && args@.len() >= 2 && (exists|i: int|
                0 <= i < args@[1].spec_bytes().len() && !is_base32_symbol(
                    #[trigger] args@[1].spec_bytes()[i],
                )) ==> r == Err::<(), CmdError>(CmdError::NotBase32) && final(self).same_as(old(self)),
    {
        if let Some(e) = Self::check_label(args) {
            return Err(e);
        }
        if args.len() < 2 {
            return Err(CmdError::MissingData);
        }
        match parse_secret(args[1]) {
            Err(e) => Err(e),
            Ok(secret) => self.insert(args[0].as_bytes(), secret.as_slice()),
        }
    }

    /// `show <label>`: the six-digit code of the seed under `label` at Unix time `now`.
    /// An entry that decrypts to no bytes counts as unknown.
    pub fn cmd_show(&self, args: &[&str], now: u64) -> (r: Result<Vec<u8>, CmdError>)
        requires
            self.wf(),
        ensures
            label_error(args@) is Some ==> r == Err::<Vec<u8>, CmdError>(label_error(args@)->0),
            label_error(args@) is None ==> {
                let id = label_id(args@[0].spec_bytes());
                &&& match r {
                    Ok(c) => exists|p: Seq<u8>|
                        holds_secret(self.entries(), self.key(), id, p) && p.len() > 0
                            && c@ == totp_spec(p, now),
                    Err(CmdError::UnknownLabel) => !self.entries().contains_key(id)
                        || holds_secret(self.entries(), self.key(), id, Seq::empty()),
                    Err(CmdError::Unreadable) => self.entries().contains_key(id)
                        && forall|p: Seq<u8>| !holds_secret(self.entries(), self.key(), id, p),
                    Err(_) => false,
                }
                &&& forall|p: Seq<u8>| holds_secret(self.entries(), self.key(), id, p) && p.len() > 0
                    ==> r is Ok && r->Ok_0@ == totp_spec(p, now)
            },
    {
        if let Some(e) = Self::check_label(args) {
            return Err(e);
        }
        let secret = self.get(args[0].as_bytes())?;
        if secret.len() == 0 {
            assert(secret@ =~= Seq::<u8>::empty());
            return Err(CmdError::UnknownLabel);
        }
        let code = totp_code(secret.as_slice(), now);
        Ok(code)
    }

    /// `remove <label>`: drops the entry under `label`.
    pub fn cmd_remove(&mut self, args: &[&str]) -> (r: Result<(), CmdError>)
        requires
            old(self).wf(),
        ensures
            final(self).wf(),
            label_error(args@) is Some ==> r == Err::<(), CmdError>(label_error(args@)->0)
                && final(self).same_as(old(self)),
            label_error(args@) is None && label_id(args@[0].spec_bytes()) == sentinel_id()
                ==> r == Err::<(), CmdError>(CmdError::InvalidLabel) && final(self).same_as(old(self)),
            label_error(args@) is None && label_id(args@[0].spec_bytes()) != sentinel_id() ==> {
                let id = label_id(args@[0].spec_bytes());
                &&& (r is Ok <==> old(self).entries().contains_key(id))
                &&& r is Err ==> r == Err::<(), CmdError>(CmdError::UnknownLabel)
                &&& final(self).entries() == old(self).entries().remove(id)
                &&& final(self).key() == old(self).key()
                &&& final(self).changed() == (old(self).changed() || r is Ok)
            },
    {
        if let Some(e) = Self::check_label(args) {
            return Err(e);
        }
        self.remove(args[0].as_bytes())
    }

    /// Checks the label argument of a command.
    fn check_label(args: &[&str]) -> (r: Option<CmdError>)
        ensures
            r == label_error(args@),
    {
        if args.len() == 0 {
            Some(CmdError::MissingLabel)
        } else if is_reserved(args[0].as_bytes()) {
            Some(CmdError::InvalidLabel)
        } else {
            None
        }
    }
}

/// Whether two byte strings are equal.
fn slices_equal(a: &[u8], b: &[u8]) -> (r: bool)
    ensures
        r == (a@ == b@),
{
    if a.len() != b.len() {
        return false;
    }
    let mut i: usize = 0;
    while i < a.len()
        invariant
            a@.len() == b@.len(),
            i <= a@.len(),
            forall|j: int| 0 <= j < i ==> a@[j] == b@[j],
        decreases a@.len() - i,
    {
        if a[i] != b[i] {
            return false;
        }
        i += 1;
    }
    assert(a@ =~= b@);
    true
}

/// A secret inserted under a label is the one held there afterwards, so `get` on
/// that label returns it exactly: `insert` leaves a blob that decrypts to the secret,
/// and `get` returns whatever the blob decrypts to.
pub proof fn lemma_insert_then_get(
    before: Map<u128, Seq<u8>>,
    after: Map<u128, Seq<u8>>,
    key: Seq<u8>,
    label: Seq<u8>,
    secret: Seq<u8>,
    blob: Seq<u8>,
)
    requires
        after == before.insert(label_id(label), blob),
        opens_to(key, blob, secret),
    ensures
        holds_secret(after, key, label_id(label), secret),
{
}

/// A session that holds a secret can be reopened from its blobs with the same user
/// name and password: the blobs are not empty, a session with the key derived again
/// accepts them, and the secret is held there under that key.
pub proof fn lemma_reopen(app: App, user: Seq<u8>, password: Seq<u8>, label: Seq<u8>, secret: Seq<u8>)
    requires
        app.wf(),
        app.key() == session_key(user, password),
        holds_secret(app.entries(), app.key(), label_id(label), secret),
    ensures
        app.entries().dom().len() > 0,
        accepts(app.entries(), session_key(user, password)),
        holds_secret(app.entries(), session_key(user, password), label_id(label), secret),
{
    let w = choose|p: Seq<u8>| holds_secret(app.entries(), app.key(), sentinel_id(), p);
    assert(app.entries().dom().contains(sentinel_id()));
    assert(app.entries().dom().finite()) by {
        assert(app.entries().dom() =~= app.entries@.dom());
    }
    vstd::set::axiom_set_remove_len(app.entries().dom(), sentinel_id());
}

/// Removing an absent identifier leaves the entries, and so their number, as they
/// were; after a removal the identifier is absent, so `get` reports it unknown.
pub proof fn lemma_remove_then_get(before: Map<u128, Seq<u8>>, label: Seq<u8>)
    ensures
        !before.contains_key(label_id(label)) ==> before.remove(label_id(label)) == before,
        !before.remove(label_id(label)).contains_key(label_id(label)),
{
    if !before.contains_key(label_id(label)) {
        assert(before.remove(label_id(label)) =~= before);
    }
}

/// A well-formed session always holds the reserved entry, and finitely many entries.
pub proof fn lemma_wf_facts(app: App)
    requires
        app.wf(),
    ensures
        app.entries().contains_key(sentinel_id()),
        app.entries().dom().finite(),
        app.entries().len() >= 1,
{
    assert(app.entries().dom() =~= app.entries@.dom());
    assert(app.entries().dom().contains(sentinel_id()));
    vstd::set::axiom_set_remove_len(app.entries().dom(), sentinel_id());
}

} // verus!
