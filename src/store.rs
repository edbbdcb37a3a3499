//! The session store: passphrase to session, with insert-if-absent, a
//! receiver slot that is filled at most once, counterpart lookup and removal.
use dashmap::DashMap;
use vstd::prelude::*;

verus! {

/// One pairing: the connection that published an offer, the offer itself,
/// and the connection that joined it, once one has.
#[derive(Debug)]
pub struct Session {
    pub sender: u64,
    pub receiver: Option<u64>,
    pub offer: String,
    pub passphrase_length: u8,
    pub created_at: u64,
}

/// What a session holds, as plain values.
pub struct SessionView {
    pub sender: u64,
    pub receiver: Option<u64>,
    pub offer: Seq<char>,
    pub passphrase_length: u8,
    pub created_at: u64,
}

impl Session {
    /// A copy of this session.
    pub fn duplicate(&self) -> (r: Session)
        ensures
            r@ == self@,
    {
        Session {
            sender: self.sender,
            receiver: self.receiver,
            offer: self.offer.clone(),
            passphrase_length: self.passphrase_length,
            created_at: self.created_at,
        }
    }
}

impl View for Session {
    type V = SessionView;

    open spec fn view(&self) -> SessionView {
        SessionView {
            sender: self.sender,
            receiver: self.receiver,
            offer: self.offer@,
            passphrase_length: self.passphrase_length,
            created_at: self.created_at,
        }
    }
}

/// Why a store operation did not take place.
#[derive(Debug, Clone, Copy, PartialEq, Eq, Structural)]
pub enum StoreError {
    /// A session already stands under that passphrase.
    Conflict,
    /// No session stands under that passphrase, or the counterpart has not joined.
    NotFound,
    /// The session already has its receiver.
    AlreadyPaired,
}

#[verifier::external_type_specification]
#[verifier::external_body]
#[verifier::reject_recursive_types(K)]
#[verifier::reject_recursive_types(V)]
#[verifier::reject_recursive_types(S)]
pub struct ExDashMap<K, V, S>(DashMap<K, V, S>);

/// The map that backs a session store.
pub type SessionMap = DashMap<String, Session>;

/// The sessions that a map holds, by the characters of their passphrase.
pub uninterp spec fn sessions_of(m: SessionMap) -> Map<Seq<char>, SessionView>;

/// Relies on `DashMap::new`: a map with no entry.
#[verifier::external_body]
fn map_new() -> (r: SessionMap)
    ensures
        sessions_of(r).dom() == Set::<Seq<char>>::empty(),
{
    DashMap::new()
}

/// A session's fields, in declaration order, as a view.
pub open spec fn fields_view(f: (u64, Option<u64>, String, u8, u64)) -> SessionView {
    let (sender, receiver, offer, passphrase_length, created_at) = f;
    SessionView { sender, receiver, offer: offer@, passphrase_length, created_at }
}

/// Relies on `DashMap::get`: the fields of the entry under `k`, if there is
/// one, copied out.
#[verifier::external_body]
fn map_get(m: &SessionMap, k: &String) -> (r: Option<(u64, Option<u64>, String, u8, u64)>)
    ensures
        r is Some <==> sessions_of(*m).contains_key(k@),
        r is Some ==> fields_view(r->0) == sessions_of(*m)[k@],
{
    m.get(k).map(|e| (e.sender, e.receiver, e.offer.clone(), e.passphrase_length, e.created_at))
}

/// Relies on `DashMap::insert`: the entry under `k` becomes `v`, whether or
/// not one stood there; no other entry changes.
#[verifier::external_body]
fn map_insert(m: &mut SessionMap, k: String, v: Session)
    ensures
        sessions_of(*final(m)) == sessions_of(*old(m)).insert(k@, v@),
{
    m.insert(k, v);
}

/// Relies on `DashMap::remove`: the entry under `k`, if any, is gone; no other
/// entry changes.
#[verifier::external_body]
fn map_remove(m: &mut SessionMap, k: &String)
    ensures
        sessions_of(*final(m)) == sessions_of(*old(m)).remove(k@),
{
    m.remove(k);
}

/// The live sessions, keyed by passphrase, and the passphrases of sessions
/// that may still await a receiver, oldest first.
pub struct SessionStore {
    map: SessionMap,
    pending: Vec<String>,
}

/// The views of a list of passphrases.
pub open spec fn codes_view(v: Seq<String>) -> Seq<Seq<char>> {
    v.map_values(|s: String| s@)
}

/// A session that nobody joined within `ttl` of its creation, as of `now`.
pub open spec fn expired(s: SessionView, now: u64, ttl: u64) -> bool {
    s.receiver is None && s.created_at as int + ttl as int <= now as int
}

/// The connection on the other side of `s` from `conn`, if it has joined.
pub open spec fn counterpart(s: SessionView, conn: u64) -> Option<u64> {
    if s.sender == conn {
        s.receiver
    } else if s.receiver == Some(conn) {
        Some(s.sender)
    } else {
        None
    }
}

impl View for SessionStore {
    type V = Map<Seq<char>, SessionView>;

    closed spec fn view(&self) -> Map<Seq<char>, SessionView> {
        sessions_of(self.map)
    }
}

impl SessionStore {
    /// Every session still awaiting a receiver is listed as pending.
    pub closed spec fn wf(&self) -> bool {
        forall|k: Seq<char>|
            #[trigger] sessions_of(self.map).contains_key(k) && sessions_of(self.map)[k].receiver is None
                ==> codes_view(self.pending@).contains(k)
    }
}

impl SessionStore {
    /// A store with no session.
    pub fn new() -> (r: SessionStore)
        ensures
            r@.dom() == Set::<Seq<char>>::empty(),
            r.wf(),
    {
        SessionStore { map: map_new(), pending: Vec::new() }
    }

    /// Whether a session stands under `code`.
    pub fn contains(&self, code: &String) -> (r: bool)
        ensures
            r == self@.contains_key(code@),
    {
        self.get(code).is_some()
    }

    /// The session under `code`, if any.
    pub fn get(&self, code: &String) -> (r: Option<Session>)
        ensures
            r is Some <==> self@.contains_key(code@),
            r is Some ==> r->0@ == self@[code@],
    {
        match map_get(&self.map, code) {
            None => None,
            Some((sender, receiver, offer, passphrase_length, created_at)) => Some(
                Session { sender, receiver, offer, passphrase_length, created_at },
            ),
        }
    }

    /// Opens a session under `code` for `sender` with its `offer`, unless one
    /// already stands there.
    pub fn create(
        &mut self,
        code: String,
        sender: u64,
        offer: String,
        passphrase_length: u8,
        created_at: u64,
    ) -> (r: Result<(), StoreError>)
        requires
            old(self).wf(),
        ensures
            final(self).wf(),
            old(self)@.contains_key(code@) ==> r == Err::<(), StoreError>(StoreError::Conflict)
                && final(self)@ == old(self)@,
            !old(self)@.contains_key(code@) ==> r is Ok && final(self)@ == old(self)@.insert(
                code@,
                SessionView {
                    sender,
                    receiver: None,
                    offer: offer@,
                    passphrase_length,
                    created_at,
                },
            ),
    {
        if self.contains(&code) {
            return Err(StoreError::Conflict);
        }
        let session = Session { sender, receiver: None, offer, passphrase_length, created_at };
        let ghost before = self.pending@;
        let ghost c = code@;
        self.pending.push(code.clone());
        proof {
            assert(codes_view(self.pending@) =~= codes_view(before).push(c));
        }
        map_insert(&mut self.map, code, session);
        proof {
            broadcast use vstd::seq_lib::lemma_seq_contains_after_push;
        }
        Ok(())
    }

    /// Fills the receiver slot of the session under `code`, only if it is
    /// still empty, and hands back the session as it now stands.
    pub fn attach_receiver(&mut self, code: &String, receiver: u64) -> (r: Result<
        Session,
        StoreError,
    >)
        requires
            old(self).wf(),
        ensures
            final(self).wf(),
            !old(self)@.contains_key(code@) ==> r == Err::<Session, StoreError>(
                StoreError::NotFound,
            ) && final(self)@ == old(self)@,
            old(self)@.contains_key(code@) && old(self)@[code@].receiver is Some ==> r == Err::<
                Session,
                StoreError,
            >(StoreError::AlreadyPaired) && final(self)@ == old(self)@,
            old(self)@.contains_key(code@) && old(self)@[code@].receiver is None ==> r is Ok
                && r->Ok_0@ == (SessionView { receiver: Some(receiver), ..old(self)@[code@] })
                && final(self)@ == old(self)@.insert(code@, r->Ok_0@),
    {
        match self.get(code) {
            None => Err(StoreError::NotFound),
            Some(s) => {
                if s.receiver.is_some() {
                    Err(StoreError::AlreadyPaired)
                } else {
                    let paired = Session {
                        sender: s.sender,
                        receiver: Some(receiver),
                        offer: s.offer,
                        passphrase_length: s.passphrase_length,
                        created_at: s.created_at,
                    };
                    map_insert(&mut self.map, code.clone(), paired.duplicate());
                    Ok(paired)
                }
            },
        }
    }

    /// The connection on the other side from `conn` of the session under
    /// `code`.
    pub fn lookup_peer(&self, code: &String, conn: u64) -> (r: Result<u64, StoreError>)
        ensures
            self@.contains_key(code@) && counterpart(self@[code@], conn) is Some ==> r == Ok::<
                u64,
                StoreError,
            >(counterpart(self@[code@], conn)->0),
            !(self@.contains_key(code@) && counterpart(self@[code@], conn) is Some) ==> r == Err::<
                u64,
                StoreError,
            >(StoreError::NotFound),
    {
        match self.get(code) {
            None => Err(StoreError::NotFound),
            Some(s) => {
                if s.sender == conn {
                    match s.receiver {
                        Some(peer) => Ok(peer),
                        None => Err(StoreError::NotFound),
                    }
                } else if s.receiver == Some(conn) {
                    Ok(s.sender)
                } else {
                    Err(StoreError::NotFound)
                }
            },
        }
    }

    /// Removes the session under `code`, whatever its state; nothing happens
    /// if there is none.
    pub fn remove(&mut self, code: &String)
        requires
            old(self).wf(),
        ensures
            final(self).wf(),
            final(self)@ == old(self)@.remove(code@),
    {
        map_remove(&mut self.map, code);
    }

    /// Removes every session that nobody joined within `ttl` of its creation,
    /// as of `now`; the others stay as they are.
    pub fn sweep(&mut self, now: u64, ttl: u64)
        requires
            old(self).wf(),
        ensures
            final(self).wf(),
            forall|k: Seq<char>|
                #[trigger] final(self)@.contains_key(k) <==> old(self)@.contains_key(k) && !expired(
                    old(self)@[k],
                    now,
                    ttl,
                ),
            forall|k: Seq<char>| #[trigger] final(self)@.contains_key(k) ==> final(self)@[k] == old(self)@[k],
    {
        let ghost s0 = self@;
        let ghost codes0 = codes_view(self.pending@);
        let mut kept: Vec<String> = Vec::new();
        let mut i: usize = 0;
        proof {
            assert(codes0.subrange(0, codes0.len() as int) =~= codes0);
        }
        while i < self.pending.len()
            invariant
                codes0 == codes_view(self.pending@),
                i <= self.pending@.len(),
                forall|k: Seq<char>| s0.contains_key(k) && s0[k].receiver is None ==> #[trigger] codes0.contains(k),
                forall|k: Seq<char>|
                    #[trigger] self@.contains_key(k) <==> s0.contains_key(k) && !(expired(s0[k], now, ttl)
                        && codes0.subrange(0, i as int).contains(k)),
                forall|k: Seq<char>| #[trigger] self@.contains_key(k) ==> self@[k] == s0[k],
                forall|k: Seq<char>|
                    #[trigger] self@.contains_key(k) && self@[k].receiver is None ==> codes_view(kept@).contains(k)
                        || codes0.subrange(i as int, codes0.len() as int).contains(k),
            decreases self.pending@.len() - i,
        {
            let code = self.pending[i].clone();
            let ghost kept0 = kept@;
            let ghost prev = self@;
            proof {
                broadcast use vstd::seq_lib::lemma_seq_contains_after_push;

                assert(codes0[i as int] == code@);
                assert(codes0.subrange(0, i as int + 1) =~= codes0.subrange(0, i as int).push(code@));
                assert(codes0.subrange(i as int, codes0.len() as int) =~= seq![code@] + codes0.subrange(
                    i as int + 1,
                    codes0.len() as int,
                ));
            }
            match self.get(&code) {
                Some(s) => {
                    if s.receiver.is_none() {
                        if now >= s.created_at && now - s.created_at >= ttl {
                            map_remove(&mut self.map, &code);
                        } else {
                            kept.push(code);
                            proof {
                                assert(codes_view(kept@) =~= codes_view(kept0).push(code@));
                            }
                        }
                    }
                },
                None => {},
            }
            proof {
                broadcast use vstd::seq_lib::lemma_seq_contains_after_push;

                assert(codes0.subrange(0, i as int + 1) == codes0.subrange(0, i as int).push(code@));
                assert forall|k: Seq<char>| #[trigger] self@.contains_key(k) implies self@[k] == s0[k] by {
                    assert(prev.contains_key(k));
                }
                assert forall|k: Seq<char>|
                    #[trigger] self@.contains_key(k) <==> s0.contains_key(k) && !(expired(s0[k], now, ttl)
                        && codes0.subrange(0, i as int + 1).contains(k)) by {
                    if k == code@ && prev.contains_key(k) {
                        assert(prev[k] == s0[k]);
                    }
                }
                assert forall|k: Seq<char>|
                    #[trigger] self@.contains_key(k) && self@[k].receiver is None implies codes_view(kept@).contains(k)
                        || codes0.subrange(i as int + 1, codes0.len() as int).contains(k) by {
                    if k != code@ {
                        let rest = codes0.subrange(i as int, codes0.len() as int);
                        if rest.contains(k) {
                            let j = choose|j: int| 0 <= j < rest.len() && rest[j] == k;
                            assert(j > 0);
                            assert(codes0.subrange(i as int + 1, codes0.len() as int)[j - 1] == k);
                        } else {
                            let j = choose|j: int| 0 <= j < codes_view(kept0).len() && codes_view(kept0)[j] == k;
                            assert(codes_view(kept@)[j] == k);
                        }
                    } else {
                        assert(codes_view(kept@).last() == k);
                    }
                }
            }
            i = i + 1;
        }
        proof {
            assert(codes0.subrange(0, codes0.len() as int) =~= codes0);
            let tail = codes0.subrange(codes0.len() as int, codes0.len() as int);
            assert(tail =~= Seq::<Seq<char>>::empty());
            assert forall|k: Seq<char>|
                #[trigger] self@.contains_key(k) <==> s0.contains_key(k) && !expired(s0[k], now, ttl) by {
                if s0.contains_key(k) && expired(s0[k], now, ttl) {
                    assert(codes0.contains(k));
                }
            }
            assert forall|k: Seq<char>|
                #[trigger] self@.contains_key(k) && self@[k].receiver is None implies codes_view(
                    kept@,
                ).contains(k) by {
                assert(!tail.contains(k));
            }
        }
        self.pending = kept;
    }
}

} // verus!
