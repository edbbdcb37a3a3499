//! The per-connection state machine: what each inbound event does to the
//! connection, to the session store, and which frame goes out to whom.
use crate::message::{wire, SignalingMessage};
use crate::passphrase::{generate_code, is_drawn_from, valid_length, words_view, PassphraseError};
use crate::store::{counterpart, SessionStore, SessionView, StoreError};
use vstd::prelude::*;

verus! {

/// How often a drawn passphrase that is already taken is drawn again.
pub const MAX_ATTEMPTS: u32 = 16;

/// Where one connection stands.
#[derive(Debug)]
pub enum Phase {
    /// Neither an offer nor a join yet.
    Unbound,
    /// Published an offer under `code`; nobody may have joined yet.
    WaitingForPeer { code: String },
    /// Part of the pairing under `code`.
    Bound { code: String },
    /// Gone; no further event applies.
    Closed,
}

/// A phase as plain values.
pub enum PhaseView {
    Unbound,
    WaitingForPeer(Seq<char>),
    Bound(Seq<char>),
    Closed,
}

impl View for Phase {
    type V = PhaseView;

    open spec fn view(&self) -> PhaseView {
        match self {
            Phase::Unbound => PhaseView::Unbound,
            Phase::WaitingForPeer { code } => PhaseView::WaitingForPeer(code@),
            Phase::Bound { code } => PhaseView::Bound(code@),
            Phase::Closed => PhaseView::Closed,
        }
    }
}

/// One live connection: its identity, which delivery goes by, and its phase.
#[derive(Debug)]
pub struct Connection {
    pub id: u64,
    pub phase: Phase,
}

impl Connection {
    /// A connection that has just arrived.
    pub fn new(id: u64) -> (r: Connection)
        ensures
            r.id == id,
            r.phase@ == PhaseView::Unbound,
    {
        Connection { id, phase: Phase::Unbound }
    }
}

/// A frame to deliver: the connection it goes to and its text.
#[derive(Debug)]
pub struct Outbound {
    pub to: u64,
    pub text: String,
}

/// What one connection's transport hands the broker.
#[derive(Debug)]
pub enum Inbound {
    /// A text frame that decoded to a message.
    Message(SignalingMessage),
    /// A text frame that is not JSON or names no known message type.
    Malformed,
    /// The connection closed, gracefully or not.
    Close,
    /// A frame relayed on behalf of this connection could not be delivered.
    DeliveryFailed,
}

/// What a connection is told when its message could not be acted upon.
#[derive(Debug, Clone, Copy, PartialEq, Eq, Structural)]
pub enum BrokerError {
    /// The frame was not a message.
    Protocol,
    /// The passphrase length lies outside the allowed range.
    InvalidLength,
    /// No word list to draw a passphrase from.
    NoWords,
    /// No session under the passphrase asked for.
    NotFound,
    /// The session already has both parties.
    AlreadyPaired,
    /// Every drawn passphrase was taken.
    Exhausted,
    /// The other party has not joined.
    PeerMissing,
    /// The other party could not be reached; the session is gone.
    PeerUnreachable,
    /// The other party has left; the session is gone.
    PeerGone,
    /// The message does not fit the connection's phase.
    Unexpected,
}

/// The text that reports an error.
pub open spec fn error_text(e: BrokerError) -> Seq<char> {
    match e {
        BrokerError::Protocol => "invalid message"@,
        BrokerError::InvalidLength => "invalid passphrase length"@,
        BrokerError::NoWords => "no words to draw from"@,
        BrokerError::NotFound => "passphrase not found"@,
        BrokerError::AlreadyPaired => "passphrase already paired"@,
        BrokerError::Exhausted => "no passphrase available"@,
        BrokerError::PeerMissing => "peer not connected"@,
        BrokerError::PeerUnreachable => "peer unreachable"@,
        BrokerError::PeerGone => "peer disconnected"@,
        BrokerError::Unexpected => "unexpected message"@,
    }
}

impl BrokerError {
    /// The text that reports this error.
    pub fn text(&self) -> (r: String)
        ensures
            r@ == error_text(*self),
    {
        match self {
            BrokerError::Protocol => String::from_str("invalid message"),
            BrokerError::InvalidLength => String::from_str("invalid passphrase length"),
            BrokerError::NoWords => String::from_str("no words to draw from"),
            BrokerError::NotFound => String::from_str("passphrase not found"),
            BrokerError::AlreadyPaired => String::from_str("passphrase already paired"),
            BrokerError::Exhausted => String::from_str("no passphrase available"),
            BrokerError::PeerMissing => String::from_str("peer not connected"),
            BrokerError::PeerUnreachable => String::from_str("peer unreachable"),
            BrokerError::PeerGone => String::from_str("peer disconnected"),
            BrokerError::Unexpected => String::from_str("unexpected message"),
        }
    }
}

/// `out` reports `e` to connection `id`.
pub open spec fn is_error_reply(out: Outbound, id: u64, e: BrokerError) -> bool {
    out.to == id && out.text@ == error_text(e)
}

/// Only a frame that was not a message is answered with the protocol
/// error's text: every other reply and every relayed frame reads otherwise.
proof fn lemma_protocol_text_distinct()
    ensures
        forall|e: BrokerError| e != BrokerError::Protocol ==> #[trigger] error_text(e) != error_text(BrokerError::Protocol),
        forall|c: Seq<char>| #[trigger] passphrase_wire(c) != error_text(BrokerError::Protocol),
        forall|n: u8, c: Seq<char>| #[trigger] offer_wire(n, c) != error_text(BrokerError::Protocol),
        forall|m: &SignalingMessage| #[trigger] wire(m) != error_text(BrokerError::Protocol),
{
    reveal_strlit("invalid message");
    reveal_strlit("invalid passphrase length");
    reveal_strlit("no words to draw from");
    reveal_strlit("passphrase not found");
    reveal_strlit("passphrase already paired");
    reveal_strlit("no passphrase available");
    reveal_strlit("peer not connected");
    reveal_strlit("peer unreachable");
    reveal_strlit("peer disconnected");
    reveal_strlit("unexpected message");
    reveal_strlit("{\"type\":\"offer\",\"passphraseLength\":");
    reveal_strlit("{\"type\":\"passphrase\",\"passphrase\":");
    reveal_strlit("{\"type\":\"answer\",\"sdp\":");
    reveal_strlit("{\"type\":\"ice-candidate\",\"candidate\":");
    reveal_strlit("{\"type\":\"ice-candidate\",\"candidate\":null}");
    reveal_strlit("{\"type\":\"connection-request\",\"passphrase\":");
    let p = error_text(BrokerError::Protocol);
    assert(p[0] == 'i');
    assert forall|e: BrokerError| e != BrokerError::Protocol implies #[trigger] error_text(e) != p by {
        if e == BrokerError::InvalidLength {
            assert(error_text(e).len() != p.len());
        } else {
            assert(error_text(e)[0] != p[0]);
        }
    }
    assert forall|c: Seq<char>| #[trigger] passphrase_wire(c) != p by {
        assert(passphrase_wire(c)[0] == '{');
    }
    assert forall|n: u8, c: Seq<char>| #[trigger] offer_wire(n, c) != p by {
        assert(offer_wire(n, c)[0] == '{');
    }
    assert forall|m: &SignalingMessage| #[trigger] wire(m) != p by {
        assert(wire(m)[0] == '{');
    }
}

/// The passphrase a phase is tied to, if any.
pub open spec fn phase_code(p: PhaseView) -> Option<Seq<char>> {
    match p {
        PhaseView::WaitingForPeer(code) => Some(code),
        PhaseView::Bound(code) => Some(code),
        _ => None,
    }
}

/// The JSON text of a `Passphrase` message.
pub open spec fn passphrase_wire(code: Seq<char>) -> Seq<char> {
    "{\"type\":\"passphrase\",\"passphrase\":"@ + crate::message::json_string(code) + "}"@
}

/// The JSON text of an `Offer` message.
pub open spec fn offer_wire(length: u8, sdp: Seq<char>) -> Seq<char> {
    "{\"type\":\"offer\",\"passphraseLength\":"@ + crate::message::decimal(length as nat)
        + ",\"sdp\":"@ + crate::message::json_string(sdp) + "}"@
}

/// The sessions after connection `id` in phase `p` leaves: the session its
/// phase names is removed if `id` is a party to it.
pub open spec fn torn_down(s: Map<Seq<char>, SessionView>, id: u64, p: PhaseView) -> Map<
    Seq<char>,
    SessionView,
> {
    match phase_code(p) {
        Some(code) => if s.contains_key(code) && (s[code].sender == id || s[code].receiver == Some(
            id,
        )) {
            s.remove(code)
        } else {
            s
        },
        None => s,
    }
}

/// The other party of the session that connection `id` in phase `p` leaves,
/// if it had joined.
pub open spec fn left_behind(s: Map<Seq<char>, SessionView>, id: u64, p: PhaseView) -> Option<u64> {
    match phase_code(p) {
        Some(code) => if s.contains_key(code) && (s[code].sender == id || s[code].receiver == Some(
            id,
        )) {
            counterpart(s[code], id)
        } else {
            None
        },
        None => None,
    }
}

/// `out` is the notice, if any, that connection `id` in phase `p` owes the
/// party it leaves behind.
pub open spec fn leave_notice(
    s: Map<Seq<char>, SessionView>,
    id: u64,
    p: PhaseView,
    out: Option<Outbound>,
) -> bool {
    match left_behind(s, id, p) {
        Some(peer) => out is Some && is_error_reply(out->0, peer, BrokerError::PeerGone),
        None => out is None,
    }
}

/// A valid offer from `id`, made at time `now`, that was stored under the fresh passphrase `code`.
pub open spec fn offer_stored(
    s0: Map<Seq<char>, SessionView>,
    s1: Map<Seq<char>, SessionView>,
    id: u64,
    code: Seq<char>,
    length: u8,
    sdp: Seq<char>,
    now: u64,
) -> bool {
    &&& !s0.contains_key(code)
    &&& s1 == s0.insert(
        code,
        SessionView {
            sender: id,
            receiver: None,
            offer: sdp,
            passphrase_length: length,
            created_at: now,
        },
    )
}

/// Some passphrase of `length` words from `words` is already in use, so a
/// draw may hit it.
pub open spec fn some_drawable_taken(
    s: Map<Seq<char>, SessionView>,
    words: Seq<Seq<char>>,
    length: u8,
) -> bool {
    exists|taken: Seq<char>| #[trigger] is_drawn_from(taken, words, length as nat) && s.contains_key(taken)
}

/// The outcome of an offer of `sdp` with `length` words from connection `id`.
pub open spec fn offer_post(
    s0: Map<Seq<char>, SessionView>,
    s1: Map<Seq<char>, SessionView>,
    words: Seq<Seq<char>>,
    id: u64,
    ph0: PhaseView,
    ph1: PhaseView,
    length: u8,
    sdp: Seq<char>,
    now: u64,
    out: Outbound,
) -> bool {
    if !valid_length(length) {
        is_error_reply(out, id, BrokerError::InvalidLength) && s1 == s0 && ph1 == ph0
    } else if words.len() == 0 {
        is_error_reply(out, id, BrokerError::NoWords) && s1 == s0 && ph1 == ph0
    } else {
        (exists|code: Seq<char>|
            #[trigger] is_drawn_from(code, words, length as nat)
                && offer_stored(s0, s1, id, code, length, sdp, now)
                && ph1 == PhaseView::WaitingForPeer(code)
                && out.to == id
                && out.text@ == passphrase_wire(code))
            || (some_drawable_taken(s0, words, length) && is_error_reply(
            out,
            id,
            BrokerError::Exhausted,
        ) && s1 == s0 && ph1 == ph0)
    }
}

/// The outcome of a request from connection `id` to join the session under `code`.
pub open spec fn join_post(
    s0: Map<Seq<char>, SessionView>,
    s1: Map<Seq<char>, SessionView>,
    id: u64,
    ph0: PhaseView,
    ph1: PhaseView,
    code: Seq<char>,
    out: Outbound,
) -> bool {
    if !s0.contains_key(code) {
        is_error_reply(out, id, BrokerError::NotFound) && s1 == s0 && ph1 == ph0
    } else if s0[code].receiver is Some {
        is_error_reply(out, id, BrokerError::AlreadyPaired) && s1 == s0 && ph1 == ph0
    } else {
        &&& s1 == s0.insert(code, SessionView { receiver: Some(id), ..s0[code] })
        &&& ph1 == PhaseView::Bound(code)
        &&& out.to == id
        &&& out.text@ == offer_wire(s0[code].passphrase_length, s0[code].offer)
    }
}

/// The outcome of connection `id` sending `msg` on to the other party.
pub open spec fn relay_post(
    s0: Map<Seq<char>, SessionView>,
    id: u64,
    ph0: PhaseView,
    ph1: PhaseView,
    msg: &SignalingMessage,
    out: Outbound,
) -> bool {
    match phase_code(ph0) {
        None => is_error_reply(out, id, BrokerError::Unexpected) && ph1 == ph0,
        Some(code) => if s0.contains_key(code) && counterpart(s0[code], id) is Some {
            &&& out.to == counterpart(s0[code], id)->0
            &&& out.text@ == wire(msg)
            &&& ph1 == PhaseView::Bound(code)
        } else {
            is_error_reply(out, id, BrokerError::PeerMissing) && ph1 == ph0
        },
    }
}

/// The whole session store and the word list that passphrases come from.
pub struct Broker {
    pub store: SessionStore,
    pub words: Vec<String>,
}

impl Broker {
    /// A broker with no session that draws from `words`.
    pub fn new(words: Vec<String>) -> (r: Broker)
        ensures
            r.store@.dom() == Set::<Seq<char>>::empty(),
            r.words@ == words@,
            r.store.wf(),
    {
        Broker { store: SessionStore::new(), words }
    }

    /// Removes the session that connection `conn` in phase `p` is a party
    /// to, and gives the other party of it, if one had joined.
    fn release(&mut self, id: u64, p: &Phase) -> (r: Option<u64>)
        requires
            old(self).store.wf(),
        ensures
            final(self).store.wf(),
            final(self).store@ == torn_down(old(self).store@, id, p@),
            final(self).words@ == old(self).words@,
            r == left_behind(old(self).store@, id, p@),
    {
        match p {
            Phase::WaitingForPeer { code } | Phase::Bound { code } => {
                match self.store.get(code) {
                    Some(s) => {
                        if s.sender == id {
                            self.store.remove(code);
                            s.receiver
                        } else if s.receiver == Some(id) {
                            self.store.remove(code);
                            Some(s.sender)
                        } else {
                            None
                        }
                    },
                    None => None,
                }
            },
            _ => None,
        }
    }

    /// The connection has closed: the session it is a party to is removed,
    /// and the other party of it, if one had joined, is told so.
    pub fn disconnect(&mut self, conn: &mut Connection) -> (r: Option<Outbound>)
        requires
            old(self).store.wf(),
        ensures
            final(self).store.wf(),
            final(self).store@ == torn_down(old(self).store@, old(conn).id, old(conn).phase@),
            final(self).words@ == old(self).words@,
            final(conn).id == old(conn).id,
            final(conn).phase@ == PhaseView::Closed,
            leave_notice(old(self).store@, old(conn).id, old(conn).phase@, r),
    {
        let peer = self.release(conn.id, &conn.phase);
        conn.phase = Phase::Closed;
        match peer {
            Some(to) => Some(Outbound { to, text: BrokerError::PeerGone.text() }),
            None => None,
        }
    }

    /// A frame relayed for `conn` could not be delivered: its session is torn
    /// down, it starts over unbound, and it is told so.
    pub fn delivery_failed(&mut self, conn: &mut Connection) -> (r: Outbound)
        requires
            old(self).store.wf(),
        ensures
            final(self).store.wf(),
            final(self).store@ == torn_down(old(self).store@, old(conn).id, old(conn).phase@),
            final(self).words@ == old(self).words@,
            final(conn).id == old(conn).id,
            final(conn).phase@ == PhaseView::Unbound,
            is_error_reply(r, old(conn).id, BrokerError::PeerUnreachable),
    {
        let _ = self.release(conn.id, &conn.phase);
        conn.phase = Phase::Unbound;
        Outbound { to: conn.id, text: BrokerError::PeerUnreachable.text() }
    }

    /// Stores the offer `sdp` of `conn` under the passphrase `code`, unless
    /// that passphrase is taken, and answers with the passphrase.
    pub fn offer_with_code(
        &mut self,
        conn: &mut Connection,
        code: String,
        length: u8,
        sdp: &String,
        now: u64,
    ) -> (r: Result<Outbound, StoreError>)
        requires
            old(self).store.wf(),
        ensures
            final(self).store.wf(),
            final(self).words@ == old(self).words@,
            final(conn).id == old(conn).id,
            old(self).store@.contains_key(code@) ==> r == Err::<Outbound, StoreError>(
                StoreError::Conflict,
            ) && final(self).store@ == old(self).store@ && final(conn).phase@ == old(conn).phase@,
            !old(self).store@.contains_key(code@) ==> r is Ok && offer_stored(
                old(self).store@,
                final(self).store@,
                old(conn).id,
                code@,
                length,
                sdp@,
                now,
            ) && final(conn).phase@ == PhaseView::WaitingForPeer(code@) && r->Ok_0.to == old(conn).id
                && r->Ok_0.text@ == passphrase_wire(code@),
    {
        match self.store.create(code.clone(), conn.id, sdp.clone(), length, now) {
            Err(e) => Err(e),
            Ok(()) => {
                let reply = SignalingMessage::Passphrase { passphrase: code.clone() };
                let text = reply.encode();
                conn.phase = Phase::WaitingForPeer { code };
                Ok(Outbound { to: conn.id, text })
            },
        }
    }

    /// An unbound connection offers `sdp`: a fresh passphrase of `length`
    /// words is drawn, the offer is stored under it, and the passphrase goes
    /// back. A passphrase that is taken is drawn again, a bounded number of times.
    pub fn offer(&mut self, conn: &mut Connection, length: u8, sdp: String, now: u64) -> (r:
        Outbound)
        requires
            old(self).store.wf(),
        ensures
            final(self).store.wf(),
            final(self).words@ == old(self).words@,
            final(conn).id == old(conn).id,
            offer_post(
                old(self).store@,
                final(self).store@,
                words_view(old(self).words@),
                old(conn).id,
                old(conn).phase@,
                final(conn).phase@,
                length,
                sdp@,
                now,
                r,
            ),
    {
        if length < crate::passphrase::MIN_WORDS || length > crate::passphrase::MAX_WORDS {
            return Outbound { to: conn.id, text: BrokerError::InvalidLength.text() };
        }
        if self.words.len() == 0 {
            return Outbound { to: conn.id, text: BrokerError::NoWords.text() };
        }
        let mut attempt: u32 = 0;
        while attempt < MAX_ATTEMPTS
            invariant
                valid_length(length),
                self.words@.len() > 0,
                self.store@ == old(self).store@,
                self.words@ == old(self).words@,
                self.store.wf(),
                conn.id == old(conn).id,
                conn.phase@ == old(conn).phase@,
                attempt > 0 ==> some_drawable_taken(old(self).store@, words_view(old(self).words@), length),
            decreases MAX_ATTEMPTS - attempt,
        {
            match generate_code(length, &self.words) {
                Err(PassphraseError::InvalidLength) => {
                    return Outbound { to: conn.id, text: BrokerError::InvalidLength.text() };
                },
                Err(PassphraseError::EmptyWordList) => {
                    return Outbound { to: conn.id, text: BrokerError::NoWords.text() };
                },
                Ok(code) => {
                    let ghost c = code@;
                    match self.offer_with_code(conn, code, length, &sdp, now) {
                        Ok(out) => {
                            assert(is_drawn_from(c, words_view(old(self).words@), length as nat));
                            return out;
                        },
                        Err(_) => {
                            assert(is_drawn_from(c, words_view(old(self).words@), length as nat)
                                && old(self).store@.contains_key(c));
                        },
                    }
                },
            }
            attempt = attempt + 1;
        }
        Outbound { to: conn.id, text: BrokerError::Exhausted.text() }
    }

    /// An unbound connection asks to join the session under `code`: it
    /// becomes its receiver and is handed the stored offer.
    pub fn connection_request(&mut self, conn: &mut Connection, code: String) -> (r: Outbound)
        requires
            old(self).store.wf(),
        ensures
            final(self).store.wf(),
            final(self).words@ == old(self).words@,
            final(conn).id == old(conn).id,
            join_post(
                old(self).store@,
                final(self).store@,
                old(conn).id,
                old(conn).phase@,
                final(conn).phase@,
                code@,
                r,
            ),
    {
        match self.store.attach_receiver(&code, conn.id) {
            Err(StoreError::NotFound) => Outbound { to: conn.id, text: BrokerError::NotFound.text() },
            Err(_) => Outbound { to: conn.id, text: BrokerError::AlreadyPaired.text() },
            Ok(s) => {
                let relay = SignalingMessage::Offer {
                    passphrase_length: s.passphrase_length,
                    sdp: s.offer,
                };
                let text = relay.encode();
                conn.phase = Phase::Bound { code };
                Outbound { to: conn.id, text }
            },
        }
    }

    /// A connection tied to a session sends `msg` on to the other party,
    /// unchanged.
    pub fn relay(&mut self, conn: &mut Connection, msg: &SignalingMessage) -> (r: Outbound)
        requires
            old(self).store.wf(),
        ensures
            final(self).store.wf(),
            final(self).words@ == old(self).words@,
            final(self).store@ == old(self).store@,
            final(conn).id == old(conn).id,
            relay_post(old(self).store@, old(conn).id, old(conn).phase@, final(conn).phase@, msg, r),
    {
        let code = match &conn.phase {
            Phase::WaitingForPeer { code } => code.clone(),
            Phase::Bound { code } => code.clone(),
            _ => {
                return Outbound { to: conn.id, text: BrokerError::Unexpected.text() };
            },
        };
        match self.store.lookup_peer(&code, conn.id) {
            Err(_) => Outbound { to: conn.id, text: BrokerError::PeerMissing.text() },
            Ok(peer) => {
                conn.phase = Phase::Bound { code };
                Outbound { to: peer, text: msg.encode() }
            },
        }
    }

    /// Applies one inbound event of `conn`, arrived at time `now`: what it does to the sessions and
    /// to the connection, and the frame to deliver, if any.
    pub fn handle(&mut self, conn: &mut Connection, event: Inbound, now: u64) -> (r: Option<
        Outbound,
    >)
        requires
            old(self).store.wf(),
        ensures
            final(self).store.wf(),
            final(self).words@ == old(self).words@,
            final(conn).id == old(conn).id,
            !(event is Malformed) && r is Some ==> r->0.text@ != error_text(BrokerError::Protocol),
            old(conn).phase@ is Closed ==> r is None && final(self).store@ == old(self).store@
                && final(conn).phase@ == old(conn).phase@,
            !(old(conn).phase@ is Closed) ==> match event {
                Inbound::Malformed => r is Some && is_error_reply(
                    r->0,
                    old(conn).id,
                    BrokerError::Protocol,
                ) && final(self).store@ == old(self).store@ && final(conn).phase@ == old(conn).phase@,
                Inbound::Close => leave_notice(old(self).store@, old(conn).id, old(conn).phase@, r)
                    && final(self).store@ == torn_down(old(self).store@, old(conn).id, old(conn).phase@)
                    && final(conn).phase@ == PhaseView::Closed,
                Inbound::DeliveryFailed => r is Some && is_error_reply(
                    r->0,
                    old(conn).id,
                    BrokerError::PeerUnreachable,
                ) && final(self).store@ == torn_down(old(self).store@, old(conn).id, old(conn).phase@)
                    && final(conn).phase@ == PhaseView::Unbound,
                Inbound::Message(m) => r is Some && match m {
                    SignalingMessage::Offer { passphrase_length, sdp } => if old(conn).phase@ is Unbound {
                        offer_post(
                            old(self).store@,
                            final(self).store@,
                            words_view(old(self).words@),
                            old(conn).id,
                            old(conn).phase@,
                            final(conn).phase@,
                            passphrase_length,
                            sdp@,
                            now,
                            r->0,
                        )
                    } else {
                        is_error_reply(r->0, old(conn).id, BrokerError::Unexpected)
                            && final(self).store@ == old(self).store@
                            && final(conn).phase@ == old(conn).phase@
                    },
                    SignalingMessage::ConnectionRequest { passphrase } => if old(conn).phase@ is Unbound {
                        join_post(
                            old(self).store@,
                            final(self).store@,
                            old(conn).id,
                            old(conn).phase@,
                            final(conn).phase@,
                            passphrase@,
                            r->0,
                        )
                    } else {
                        is_error_reply(r->0, old(conn).id, BrokerError::Unexpected)
                            && final(self).store@ == old(self).store@
                            && final(conn).phase@ == old(conn).phase@
                    },
                    SignalingMessage::Answer { .. }
                    | SignalingMessage::IceCandidate { .. } => final(self).store@ == old(self).store@
                        && relay_post(
                        old(self).store@,
                        old(conn).id,
                        old(conn).phase@,
                        final(conn).phase@,
                        &m,
                        r->0,
                    ),
                    SignalingMessage::Passphrase { .. } => is_error_reply(
                        r->0,
                        old(conn).id,
                        BrokerError::Unexpected,
                    ) && final(self).store@ == old(self).store@ && final(conn).phase@ == old(conn).phase@,
                },
            },
    {
        proof {
            lemma_protocol_text_distinct();
        }
        if let Phase::Closed = conn.phase {
            return None;
        }
        match event {
            Inbound::Malformed => Some(Outbound { to: conn.id, text: BrokerError::Protocol.text() }),
            Inbound::Close => self.disconnect(conn),
            Inbound::DeliveryFailed => Some(self.delivery_failed(conn)),
            Inbound::Message(m) => {
                let unbound = match conn.phase {
                    Phase::Unbound => true,
                    _ => false,
                };
                match m {
                    SignalingMessage::Offer { passphrase_length, sdp } => {
                        if unbound {
                            Some(self.offer(conn, passphrase_length, sdp, now))
                        } else {
                            Some(Outbound { to: conn.id, text: BrokerError::Unexpected.text() })
                        }
                    },
                    SignalingMessage::ConnectionRequest { passphrase } => {
                        if unbound {
                            Some(self.connection_request(conn, passphrase))
                        } else {
                            Some(Outbound { to: conn.id, text: BrokerError::Unexpected.text() })
                        }
                    },
                    SignalingMessage::Passphrase { .. } => {
                        Some(Outbound { to: conn.id, text: BrokerError::Unexpected.text() })
                    },
                    _ => Some(self.relay(conn, &m)),
                }
            },
        }
    }
}

} // verus!
