//! The credential store: the one mutable value the pipeline shares. It
//! holds the current session credential, empty until the first successful
//! login; redemption tasks read snapshots of it and the authenticator
//! replaces it. Callers share one store behind their own synchronization
//! and rely on the snapshot contract here: a copy handed out by `get` is
//! owned by the caller and no later `set` reaches it.

use vstd::prelude::*;

verus! {

/// The store's view after `set(token)`: the new token, whatever was stored
/// before.
pub open spec fn stored_after_set(stored: Seq<char>, token: Seq<char>) -> Seq<char> {
    token
}

/// Holds the current authorization credential.
pub struct CredentialStore {
    token: String,
}

impl View for CredentialStore {
    type V = Seq<char>;

    closed spec fn view(&self) -> Seq<char> {
        self.token@
    }
}

impl CredentialStore {
    /// A fresh store: unauthenticated, the empty credential.
    pub fn new() -> (store: Self)
        ensures
            store@ == Seq::<char>::empty(),
    {
        CredentialStore { token: String::new() }
    }

    /// Replaces the stored credential with `token`.
    pub fn set(&mut self, token: String)
        ensures
            final(self)@ == stored_after_set(old(self)@, token@),
    {
        self.token = token;
    }

    /// A snapshot: an owned copy of the current credential. Later updates of
    /// the store replace the store's view only; the copy keeps its value.
    pub fn get(&self) -> (snapshot: String)
        ensures
            snapshot@ == self@,
    {
        self.token.clone()
    }
}

/// Law: authorization snapshots are isolated from updates. A snapshot equal
/// to the stored credential keeps that value across `set`: the update yields
/// a store that reads as the new token, while the snapshot — and so any call
/// already built from it — still carries the old one; only a snapshot taken
/// after the update reads the new token.
pub proof fn lemma_snapshot_isolation(snapshot: Seq<char>, stored: Seq<char>, token: Seq<char>)
    requires
        snapshot == stored,
    ensures
        stored_after_set(stored, token) == token,
        snapshot == stored,
{
}

} // verus!
