//! The process-wide credential cache consulted by the authorization
//! pipeline.
//!
//! One cache value holds the gateway's own broker session and, per client
//! identity, the client's confidant session and fetched policy document.
//! A confidant session is served only while fresh; a policy document lives
//! until the process restarts; the gateway's own session lives until the
//! broker invalidates it and it is cleared here. Only successful results
//! are ever stored, so a failed call is retried on the next request rather
//! than suppressed. The caller guards the cache with a reader/writer
//! discipline and replaces values whole; this module holds the cache's
//! content and its expiry decisions.
use vstd::prelude::*;

verus! {

/// How long a cached confidant session is served, in milliseconds.
pub const CONFIDANT_TOKEN_TTL_MILLIS: u64 = 600000;

/// A broker session token together with the time it was stored.
pub struct CachedToken {
    pub token: String,
    pub stored_at_millis: u64,
}

/// What the cache holds for one client identity.
pub struct ClientCredentials {
    pub username: String,
    pub confidant_token: Option<CachedToken>,
    pub client_policy: Option<String>,
}

/// A stored confidant session is fresh while less than the TTL has passed;
/// a timestamp from the future counts as stale.
pub open spec fn token_fresh(stored_at_millis: u64, now_millis: u64) -> bool {
    stored_at_millis <= now_millis && now_millis - stored_at_millis < CONFIDANT_TOKEN_TTL_MILLIS
}

/// The process-wide credential cache.
pub struct CredentialCache {
    pub api_token: Option<String>,
    pub clients: Vec<ClientCredentials>,
}

impl CredentialCache {
    /// At most one slot per client identity.
    pub open spec fn wf(&self) -> bool {
        forall|i: int, j: int|
            0 <= i < j < self.clients@.len() ==> (#[trigger] self.clients@[i]).username@ != (
            #[trigger] self.clients@[j]).username@
    }

    /// Whether the cache holds a slot for this identity.
    pub open spec fn spec_has_client(&self, u: Seq<char>) -> bool {
        exists|i: int| 0 <= i < self.clients@.len() && (#[trigger] self.clients@[i]).username@ == u
    }

    /// The slot held for this identity (meaningful when one exists).
    pub open spec fn spec_client(&self, u: Seq<char>) -> ClientCredentials {
        self.clients@[choose|i: int|
            0 <= i < self.clients@.len() && (#[trigger] self.clients@[i]).username@ == u]
    }

    /// An empty cache.
    pub fn new() -> (r: Self)
        ensures
            r.wf(),
            r.api_token is None,
            forall|u: Seq<char>| !r.spec_has_client(u),
    {
        CredentialCache { api_token: None, clients: Vec::new() }
    }

    fn find_client(&self, username: &str) -> (r: Option<usize>)
        requires
            self.wf(),
        ensures
            r matches Some(i) ==> i < self.clients@.len() && self.clients@[i as int].username@
                == username@ && self.spec_has_client(username@),
            r is None ==> !self.spec_has_client(username@),
    {
        let mut i: usize = 0;
        while i < self.clients.len()
            invariant
                i <= self.clients@.len(),
                forall|k: int| 0 <= k < i ==> (#[trigger] self.clients@[k]).username@ != username@,
            decreases self.clients.len() - i,
        {
            if crate::records::str_eq(self.clients[i].username.as_str(), username) {
                return Some(i);
            }
            i += 1;
        }
        None
    }

    /// Serves the cached confidant session for an identity, but only while
    /// it is fresh; an absent, or expired, session yields nothing.
    pub fn get_confidant_token(&self, username: &str, now_millis: u64) -> (r: Option<String>)
        requires
            self.wf(),
        ensures
            ({
                let u = username@;
                if self.spec_has_client(u) {
                    match self.spec_client(u).confidant_token {
                        Some(ct) => {
                            if token_fresh(ct.stored_at_millis, now_millis) {
                                r matches Some(t) && t@ == ct.token@
                            } else {
                                r is None
                            }
                        },
                        None => r is None,
                    }
                } else {
                    r is None
                }
            }),
    {
        let i = match self.find_client(username) {
            Some(i) => i,
            None => {
                return None;
            },
        };
        proof {
            let j = choose|j: int|
                0 <= j < self.clients@.len() && (#[trigger] self.clients@[j]).username@
                    == username@;
            assert(j == i);
        }
        match &self.clients[i].confidant_token {
            Some(ct) => {
                if ct.stored_at_millis <= now_millis && now_millis - ct.stored_at_millis
                    < CONFIDANT_TOKEN_TTL_MILLIS {
                    Some(ct.token.clone())
                } else {
                    None
                }
            },
            None => None,
        }
    }

    /// Serves the cached policy document for an identity, if one is held.
    pub fn get_client_policy(&self, username: &str) -> (r: Option<String>)
        requires
            self.wf(),
        ensures
            ({
                let u = username@;
                if self.spec_has_client(u) {
                    match self.spec_client(u).client_policy {
                        Some(p) => r matches Some(q) && q@ == p@,
                        None => r is None,
                    }
                } else {
                    r is None
                }
            }),
    {
        let i = match self.find_client(username) {
            Some(i) => i,
            None => {
                return None;
            },
        };
        proof {
            let j = choose|j: int|
                0 <= j < self.clients@.len() && (#[trigger] self.clients@[j]).username@
                    == username@;
            assert(j == i);
        }
        match &self.clients[i].client_policy {
            Some(p) => Some(p.clone()),
            None => None,
        }
    }

    fn slot_mut(&mut self, username: &str) -> (r: usize)
        requires
            old(self).wf(),
        ensures
            final(self).wf(),
            r < final(self).clients@.len(),
            final(self).clients@[r as int].username@ == username@,
            final(self).api_token == old(self).api_token,
            old(self).spec_has_client(username@) ==> final(self).clients@ == old(self).clients@
                && final(self).clients@[r as int] == old(self).spec_client(username@),
            !old(self).spec_has_client(username@) ==> final(self).clients@ == old(self).clients@.push(
                ClientCredentials {
                    username: final(self).clients@[r as int].username,
                    confidant_token: None,
                    client_policy: None,
                },
            ) && final(self).clients@[r as int].confidant_token is None && final(self).clients@[r as int].client_policy is None,
    {
        match self.find_client(username) {
            Some(i) => {
                proof {
                    let j = choose|j: int|
                        0 <= j < self.clients@.len() && (#[trigger] self.clients@[j]).username@
                            == username@;
                    assert(j == i);
                }
                i
            },
            None => {
                let i = self.clients.len();
                self.clients.push(
                    ClientCredentials {
                        username: username.to_owned(),
                        confidant_token: None,
                        client_policy: None,
                    },
                );
                proof {
                    assert forall|a: int, b: int|
                        0 <= a < b < self.clients@.len() implies (#[trigger] self.clients@[a]).username@
                        != (#[trigger] self.clients@[b]).username@ by {
                        if b < self.clients@.len() - 1 {
                            assert(old(self).clients@[a].username@ != old(self).clients@[b].username@);
                        } else {
                            assert(old(self).clients@[a].username@ != username@);
                        }
                    }
                }
                i
            },
        }
    }

    /// Stores a freshly issued confidant session for an identity, stamped
    /// with the time it was obtained. Only a successful login reaches this
    /// point: failures are never cached. Every other identity's slot, the
    /// identity's own policy document, and the gateway session are kept.
    pub fn put_confidant_token(&mut self, username: &str, token: String, now_millis: u64)
        requires
            old(self).wf(),
        ensures
            final(self).wf(),
            final(self).spec_has_client(username@),
            final(self).spec_client(username@).confidant_token matches Some(ct) && ct.token@
                == token@ && ct.stored_at_millis == now_millis,
            final(self).spec_client(username@).client_policy == if old(self).spec_has_client(
                username@,
            ) {
                old(self).spec_client(username@).client_policy
            } else {
                Option::<String>::None
            },
            final(self).api_token == old(self).api_token,
            forall|v: Seq<char>|
                v != username@ ==> (#[trigger] final(self).spec_has_client(v)) == old(self).spec_has_client(v),
            forall|v: Seq<char>|
                v != username@ && old(self).spec_has_client(v) ==> (#[trigger] final(self).spec_client(v)) == old(self).spec_client(v),
    {
        let i = self.slot_mut(username);
        let ghost mid = *self;
        self.clients[i].confidant_token = Some(CachedToken { token, stored_at_millis: now_millis });
        proof {
            assert(self.clients@[i as int].username@ == username@);
            assert forall|a: int, b: int|
                0 <= a < b < self.clients@.len() implies (#[trigger] self.clients@[a]).username@
                != (#[trigger] self.clients@[b]).username@ by {
                assert(self.clients@[a].username == mid.clients@[a].username);
                assert(self.clients@[b].username == mid.clients@[b].username);
            }
            self.lemma_slot_update(*old(self), i as int, username@);
        }
    }

    /// Stores a fetched policy document for an identity. Only a successful
    /// fetch reaches this point: failures are never cached. Every other
    /// identity's slot, the identity's own confidant session, and the
    /// gateway session are kept.
    pub fn put_client_policy(&mut self, username: &str, policy: String)
        requires
            old(self).wf(),
        ensures
            final(self).wf(),
            final(self).spec_has_client(username@),
            final(self).spec_client(username@).client_policy matches Some(p) && p@ == policy@,
            final(self).spec_client(username@).confidant_token == if old(self).spec_has_client(
                username@,
            ) {
                old(self).spec_client(username@).confidant_token
            } else {
                Option::<CachedToken>::None
            },
            final(self).api_token == old(self).api_token,
            forall|v: Seq<char>|
                v != username@ ==> (#[trigger] final(self).spec_has_client(v)) == old(self).spec_has_client(v),
            forall|v: Seq<char>|
                v != username@ && old(self).spec_has_client(v) ==> (#[trigger] final(self).spec_client(v)) == old(self).spec_client(v),
    {
        let i = self.slot_mut(username);
        let ghost mid = *self;
        self.clients[i].client_policy = Some(policy);
        proof {
            assert(self.clients@[i as int].username@ == username@);
            assert forall|a: int, b: int|
                0 <= a < b < self.clients@.len() implies (#[trigger] self.clients@[a]).username@
                != (#[trigger] self.clients@[b]).username@ by {
                assert(self.clients@[a].username == mid.clients@[a].username);
                assert(self.clients@[b].username == mid.clients@[b].username);
            }
            self.lemma_slot_update(*old(self), i as int, username@);
        }
    }

    /// After updating the slot at `i`, which holds `u`, lookups for `u`
    /// find that slot and lookups for any other identity are unchanged.
    proof fn lemma_slot_update(&self, prev: Self, i: int, u: Seq<char>)
        requires
            self.wf(),
            0 <= i < self.clients@.len(),
            self.clients@[i].username@ == u,
            prev.clients@.len() == self.clients@.len() || (prev.clients@.len() + 1
                == self.clients@.len() && i == prev.clients@.len()),
            i < prev.clients@.len() ==> prev.clients@[i].username@ == u,
            forall|k: int|
                0 <= k < prev.clients@.len() && k != i ==> #[trigger] self.clients@[k]
                    == prev.clients@[k],
        ensures
            self.spec_has_client(u),
            self.spec_client(u) == self.clients@[i],
            forall|v: Seq<char>|
                v != u ==> (#[trigger] self.spec_has_client(v)) == prev.spec_has_client(v),
            forall|v: Seq<char>|
                v != u && prev.spec_has_client(v) ==> (#[trigger] self.spec_client(v))
                    == prev.spec_client(v),
    {
        assert(self.spec_has_client(u));
        let j = choose|j: int|
            0 <= j < self.clients@.len() && (#[trigger] self.clients@[j]).username@ == u;
        assert(j == i) by {
            if j != i {
                assert(self.clients@[j].username@ != self.clients@[i].username@);
            }
        };
        assert forall|v: Seq<char>| v != u implies (#[trigger] self.spec_has_client(v))
            == prev.spec_has_client(v) by {
            if self.spec_has_client(v) {
                let k = choose|k: int|
                    0 <= k < self.clients@.len() && (#[trigger] self.clients@[k]).username@ == v;
                assert(k != i);
                assert(k < prev.clients@.len());
                assert(prev.clients@[k].username@ == v);
                assert(prev.spec_has_client(v));
            }
            if prev.spec_has_client(v) {
                let k = choose|k: int|
                    0 <= k < prev.clients@.len() && (#[trigger] prev.clients@[k]).username@ == v;
                assert(k != i) by {
                    if k == i {
                        assert(prev.clients@[i].username@ == u);
                    }
                };
                assert(self.clients@[k].username@ == v);
                assert(self.spec_has_client(v));
            }
        }
        assert forall|v: Seq<char>| v != u && prev.spec_has_client(v) implies (
        #[trigger] self.spec_client(v)) == prev.spec_client(v) by {
            let k = choose|k: int|
                0 <= k < prev.clients@.len() && (#[trigger] prev.clients@[k]).username@ == v;
            assert(k != i) by {
                if k == i {
                    assert(prev.clients@[i].username@ == u);
                }
            };
            assert(self.clients@[k] == prev.clients@[k]);
            assert(self.clients@[k].username@ == v);
            let k1 = choose|k1: int|
                0 <= k1 < self.clients@.len() && (#[trigger] self.clients@[k1]).username@ == v;
            assert(k1 == k) by {
                if k1 < k {
                    assert(self.clients@[k1].username@ != self.clients@[k].username@);
                } else if k < k1 {
                    assert(self.clients@[k].username@ != self.clients@[k1].username@);
                }
            };
            let k2 = choose|k2: int|
                0 <= k2 < prev.clients@.len() && (#[trigger] prev.clients@[k2]).username@ == v;
            assert(k2 == k) by {
                if k2 != k {
                    assert(k2 != i);
                    assert(self.clients@[k2] == prev.clients@[k2]);
                    if k2 < k {
                        assert(self.clients@[k2].username@ != self.clients@[k].username@);
                    } else {
                        assert(self.clients@[k].username@ != self.clients@[k2].username@);
                    }
                }
            };
            assert(self.spec_client(v) == self.clients@[k1]);
            assert(prev.spec_client(v) == prev.clients@[k2]);
        }
    }

    /// Serves the gateway's own broker session, if one is held.
    pub fn get_api_token(&self) -> (r: Option<String>)
        ensures
            match self.api_token {
                Some(t) => r matches Some(q) && q@ == t@,
                None => r is None,
            },
    {
        match &self.api_token {
            Some(t) => Some(t.clone()),
            None => None,
        }
    }

    /// Stores the gateway's own broker session. Only a successful login
    /// reaches this point. Client slots are kept.
    pub fn put_api_token(&mut self, token: String)
        ensures
            final(self).api_token == Some(token),
            final(self).clients == old(self).clients,
    {
        self.api_token = Some(token);
    }

    /// Drops the gateway's own broker session once the broker has
    /// invalidated it, forcing a fresh login on the next request. Client
    /// slots are kept.
    pub fn clear_api_token(&mut self)
        ensures
            final(self).api_token is None,
            final(self).clients == old(self).clients,
    {
        self.api_token = None;
    }
}

} // verus!
