//! Properties of the broker that relate several steps.
use crate::message::{wire, SignalingMessage};
use crate::router::{
    error_text, is_error_reply, join_post, offer_post, offer_wire, relay_post, torn_down,
    BrokerError, Outbound, PhaseView,
};
use crate::passphrase::{hyphen_join, is_drawn_from, valid_length};
use crate::router::{passphrase_wire, some_drawable_taken};
use crate::store::SessionView;
use vstd::prelude::*;

verus! {

/// An offer never displaces a live session: every passphrase that stood
/// before still names the same session, and at most one passphrase is new.
pub proof fn law_offer_keeps_passphrases_unique(
    s0: Map<Seq<char>, SessionView>,
    s1: Map<Seq<char>, SessionView>,
    words: Seq<Seq<char>>,
    id: u64,
    ph0: PhaseView,
    ph1: PhaseView,
    length: u8,
    sdp: Seq<char>,
    now: u64,
    out: Outbound,
)
    requires
        offer_post(s0, s1, words, id, ph0, ph1, length, sdp, now, out),
    ensures
        forall|k: Seq<char>| s0.contains_key(k) ==> s1.contains_key(k) && s1[k] == s0[k],
        s1.dom() == s0.dom() || (exists|code: Seq<char>|
            !s0.contains_key(code) && s1.dom() == s0.dom().insert(code)),
{
    if s1 != s0 {
        let code = choose|code: Seq<char>|
            #[trigger] crate::passphrase::is_drawn_from(code, words, length as nat)
                && crate::router::offer_stored(s0, s1, id, code, length, sdp, now)
                && ph1 == PhaseView::WaitingForPeer(code) && out.to == id && out.text@
                == crate::router::passphrase_wire(code);
        assert(s1.dom() =~= s0.dom().insert(code));
    }
}

/// Of two requests to join the same unpaired session, the first succeeds and
/// the second is refused as already paired, leaving the sessions as they were.
pub proof fn law_only_one_receiver(
    s0: Map<Seq<char>, SessionView>,
    s1: Map<Seq<char>, SessionView>,
    s2: Map<Seq<char>, SessionView>,
    code: Seq<char>,
    first: u64,
    second: u64,
    ph0: PhaseView,
    ph1: PhaseView,
    qh0: PhaseView,
    qh1: PhaseView,
    out1: Outbound,
    out2: Outbound,
)
    requires
        s0.contains_key(code),
        s0[code].receiver is None,
        join_post(s0, s1, first, ph0, ph1, code, out1),
        join_post(s1, s2, second, qh0, qh1, code, out2),
    ensures
        s1[code].receiver == Some(first),
        ph1 == PhaseView::Bound(code),
        is_error_reply(out2, second, BrokerError::AlreadyPaired),
        s2 == s1,
        qh1 == qh0,
{
}

/// A join that is refused for a session already paired or absent changes
/// nothing; no other outcome is possible for such a session.
pub proof fn law_join_refused_unless_unpaired(
    s0: Map<Seq<char>, SessionView>,
    s1: Map<Seq<char>, SessionView>,
    code: Seq<char>,
    id: u64,
    ph0: PhaseView,
    ph1: PhaseView,
    out: Outbound,
)
    requires
        !(s0.contains_key(code) && s0[code].receiver is None),
        join_post(s0, s1, id, ph0, ph1, code, out),
    ensures
        s1 == s0,
        ph1 == ph0,
        is_error_reply(out, id, BrokerError::AlreadyPaired) || is_error_reply(
            out,
            id,
            BrokerError::NotFound,
        ),
{
}

/// An offer that was answered with a passphrase, followed by a request to
/// join under that passphrase, hands the requester the offered description
/// unchanged.
pub proof fn law_offer_then_join(
    s0: Map<Seq<char>, SessionView>,
    s1: Map<Seq<char>, SessionView>,
    s2: Map<Seq<char>, SessionView>,
    words: Seq<Seq<char>>,
    sender: u64,
    receiver: u64,
    code: Seq<char>,
    length: u8,
    sdp: Seq<char>,
    now: u64,
    ph1: PhaseView,
    qh0: PhaseView,
    qh1: PhaseView,
    out1: Outbound,
    out2: Outbound,
)
    requires
        offer_post(s0, s1, words, sender, PhaseView::Unbound, ph1, length, sdp, now, out1),
        ph1 == PhaseView::WaitingForPeer(code),
        join_post(s1, s2, receiver, qh0, qh1, code, out2),
    ensures
        out1.to == sender,
        out1.text@ == crate::router::passphrase_wire(code),
        out2.to == receiver,
        out2.text@ == offer_wire(length, sdp),
        qh1 == PhaseView::Bound(code),
        s2[code].sender == sender,
        s2[code].receiver == Some(receiver),
{
}

/// An answer from the receiver of a session goes to its sender, unchanged.
pub proof fn law_answer_reaches_sender(
    s: Map<Seq<char>, SessionView>,
    code: Seq<char>,
    receiver: u64,
    sdp: String,
    ph1: PhaseView,
    out: Outbound,
)
    requires
        s.contains_key(code),
        s[code].receiver == Some(receiver),
        s[code].sender != receiver,
        relay_post(
            s,
            receiver,
            PhaseView::Bound(code),
            ph1,
            &SignalingMessage::Answer { sdp },
            out,
        ),
    ensures
        out.to == s[code].sender,
        out.text@ == wire(&SignalingMessage::Answer { sdp }),
        out.text@ == "{\"type\":\"answer\",\"sdp\":"@ + crate::message::json_string(sdp@) + "}"@,
{
}

/// The end-of-candidates marker from either party reaches the other party
/// as an explicit `null` candidate.
pub proof fn law_end_of_candidates_relayed(
    s: Map<Seq<char>, SessionView>,
    code: Seq<char>,
    from: u64,
    ph0: PhaseView,
    ph1: PhaseView,
    out: Outbound,
)
    requires
        ph0 == PhaseView::Bound(code) || ph0 == PhaseView::WaitingForPeer(code),
        s.contains_key(code),
        s[code].sender == from && s[code].receiver is Some && s[code].receiver != Some(from)
            || s[code].receiver == Some(from) && s[code].sender != from,
        relay_post(s, from, ph0, ph1, &SignalingMessage::IceCandidate { candidate: None }, out),
    ensures
        out.to != from,
        out.to == s[code].sender || Some(out.to) == s[code].receiver,
        out.text@ == "{\"type\":\"ice-candidate\",\"candidate\":null}"@,
{
}

/// Once the sender of an unpaired session disconnects, a request to join
/// under its passphrase finds nothing.
pub proof fn law_sender_close_forgets_passphrase(
    s0: Map<Seq<char>, SessionView>,
    s2: Map<Seq<char>, SessionView>,
    code: Seq<char>,
    sender: u64,
    receiver: u64,
    qh0: PhaseView,
    qh1: PhaseView,
    out: Outbound,
)
    requires
        s0.contains_key(code),
        s0[code].sender == sender,
        s0[code].receiver is None,
        join_post(
            torn_down(s0, sender, PhaseView::WaitingForPeer(code)),
            s2,
            receiver,
            qh0,
            qh1,
            code,
            out,
        ),
    ensures
        out.to == receiver,
        out.text@ == error_text(BrokerError::NotFound),
        !s2.contains_key(code),
{
}

/// A valid offer, with words to draw from, on a store that holds no
/// passphrase that could be drawn, is answered with a fresh passphrase and
/// stored under it.
pub proof fn law_offer_succeeds_when_nothing_taken(
    s0: Map<Seq<char>, SessionView>,
    s1: Map<Seq<char>, SessionView>,
    words: Seq<Seq<char>>,
    id: u64,
    ph1: PhaseView,
    length: u8,
    sdp: Seq<char>,
    now: u64,
    out: Outbound,
)
    requires
        valid_length(length),
        words.len() > 0,
        !some_drawable_taken(s0, words, length),
        offer_post(s0, s1, words, id, PhaseView::Unbound, ph1, length, sdp, now, out),
    ensures
        exists|code: Seq<char>|
            #[trigger] is_drawn_from(code, words, length as nat) && !s0.contains_key(code)
                && s1.contains_key(code) && s1[code].offer == sdp && s1[code].sender == id
                && s1[code].receiver is None && ph1 == PhaseView::WaitingForPeer(code)
                && out.to == id && out.text@ == passphrase_wire(code),
{
}

/// Of any number of requests, one after another, to join the same unpaired
/// session, the first makes its sender the receiver and is handed the offer;
/// every later one is refused as already paired and changes nothing.
pub proof fn law_first_join_wins(
    stores: Seq<Map<Seq<char>, SessionView>>,
    joiners: Seq<u64>,
    before: Seq<PhaseView>,
    after: Seq<PhaseView>,
    outs: Seq<Outbound>,
    code: Seq<char>,
)
    requires
        joiners.len() >= 1,
        stores.len() == joiners.len() + 1,
        before.len() == joiners.len(),
        after.len() == joiners.len(),
        outs.len() == joiners.len(),
        stores[0].contains_key(code),
        stores[0][code].receiver is None,
        forall|i: int|
            0 <= i < joiners.len() ==> join_post(
                stores[i],
                stores[i + 1],
                joiners[i],
                before[i],
                after[i],
                code,
                #[trigger] outs[i],
            ),
    ensures
        stores[joiners.len() as int][code].receiver == Some(joiners[0]),
        after[0] == PhaseView::Bound(code),
        outs[0].to == joiners[0],
        outs[0].text@ == offer_wire(stores[0][code].passphrase_length, stores[0][code].offer),
        forall|i: int|
            1 <= i < joiners.len() ==> is_error_reply(
                #[trigger] outs[i],
                joiners[i],
                BrokerError::AlreadyPaired,
            ) && after[i] == before[i] && stores[i + 1] == stores[1],
    decreases joiners.len(),
{
    assert(join_post(stores[0], stores[1], joiners[0], before[0], after[0], code, outs[0]));
    if joiners.len() > 1 {
        let n = joiners.len() - 1;
        law_first_join_wins(
            stores.take(n + 1),
            joiners.take(n),
            before.take(n),
            after.take(n),
            outs.take(n),
            code,
        );
        assert(join_post(stores[n], stores[n + 1], joiners[n], before[n], after[n], code, outs[n]));
        assert(stores.take(n + 1)[n] == stores[n]);
        assert(stores[n] == stores[1]) by {
            if n > 1 {
                assert(outs.take(n)[n - 1] == outs[n - 1]);
                assert(stores.take(n + 1)[n - 1 + 1] == stores[n]);
            }
        }
        assert forall|i: int|
            1 <= i < joiners.len() implies is_error_reply(
                #[trigger] outs[i],
                joiners[i],
                BrokerError::AlreadyPaired,
            ) && after[i] == before[i] && stores[i + 1] == stores[1] by {
            if i < n {
                assert(outs.take(n)[i] == outs[i]);
                assert(stores.take(n + 1)[i + 1] == stores[i + 1]);
                assert(after.take(n)[i] == after[i]);
                assert(before.take(n)[i] == before[i]);
                assert(joiners.take(n)[i] == joiners[i]);
            }
        }
    }
}

/// Text cut at each hyphen, as `str::split('-')` cuts it: always at least
/// one piece, and an empty piece wherever two hyphens meet or at either end.
pub open spec fn split_hyphens(s: Seq<char>) -> Seq<Seq<char>>
    decreases s.len(),
{
    if s.len() == 0 {
        seq![Seq::empty()]
    } else if s.last() == '-' {
        split_hyphens(s.drop_last()).push(Seq::empty())
    } else {
        let pieces = split_hyphens(s.drop_last());
        pieces.update(pieces.len() - 1, pieces.last().push(s.last()))
    }
}

/// Text with no hyphen in it.
pub open spec fn hyphen_free(w: Seq<char>) -> bool {
    !w.contains('-')
}

proof fn lemma_split_pieces_nonempty(s: Seq<char>)
    ensures
        split_hyphens(s).len() >= 1,
    decreases s.len(),
{
    if s.len() > 0 {
        lemma_split_pieces_nonempty(s.drop_last());
    }
}

proof fn lemma_split_append_free(x: Seq<char>, w: Seq<char>)
    requires
        hyphen_free(w),
    ensures
        split_hyphens(x + w) == split_hyphens(x).update(
            split_hyphens(x).len() - 1,
            split_hyphens(x).last() + w,
        ),
    decreases w.len(),
{
    lemma_split_pieces_nonempty(x);
    if w.len() == 0 {
        assert(x + w =~= x);
        assert(split_hyphens(x).last() + w =~= split_hyphens(x).last());
        assert(split_hyphens(x).update(split_hyphens(x).len() - 1, split_hyphens(x).last())
            =~= split_hyphens(x));
    } else {
        let w0 = w.drop_last();
        assert(!w0.contains('-')) by {
            if w0.contains('-') {
                let j = choose|j: int| 0 <= j < w0.len() && w0[j] == '-';
                assert(w[j] == '-');
            }
        }
        lemma_split_append_free(x, w0);
        assert((x + w).drop_last() =~= x + w0);
        assert((x + w).last() == w.last());
        assert(w.last() != '-') by {
            assert(w[w.len() - 1] == w.last());
        }
        assert(split_hyphens(x).last() + w =~= (split_hyphens(x).last() + w0).push(w.last()));
        let p = split_hyphens(x + w0);
        assert(p.len() == split_hyphens(x).len());
        assert(split_hyphens(x + w) =~= split_hyphens(x).update(
            split_hyphens(x).len() - 1,
            split_hyphens(x).last() + w,
        ));
    }
}

/// Cutting a hyphen-joined passphrase at its hyphens gives back its words,
/// when no word holds a hyphen: as many pieces as words, each one a word.
pub proof fn law_passphrase_splits_into_words(ws: Seq<Seq<char>>)
    requires
        ws.len() >= 1,
        forall|i: int| 0 <= i < ws.len() ==> hyphen_free(#[trigger] ws[i]),
    ensures
        split_hyphens(hyphen_join(ws)) == ws,
    decreases ws.len(),
{
    let w = ws.last();
    assert(hyphen_free(ws[ws.len() - 1]));
    if ws.len() == 1 {
        lemma_split_append_free(Seq::empty(), w);
        assert(Seq::<char>::empty() + w =~= w);
        assert(split_hyphens(Seq::<char>::empty()) =~= seq![Seq::<char>::empty()]);
        assert(Seq::<char>::empty() + w =~= w);
        assert(split_hyphens(w) =~= ws);
    } else {
        let rest = ws.drop_last();
        law_passphrase_splits_into_words(rest);
        let h = hyphen_join(rest) + seq!['-'];
        lemma_split_append_free(h, w);
        assert(h.drop_last() =~= hyphen_join(rest));
        assert(split_hyphens(h) == rest.push(Seq::empty()));
        assert(Seq::<char>::empty() + w =~= w);
        assert(split_hyphens(hyphen_join(ws)) =~= ws);
    }
}

/// A drawn passphrase, over a word list whose words hold no hyphen, cuts at
/// its hyphens into exactly `n` pieces, each a word of the list.
pub proof fn law_drawn_passphrase_has_n_words(code: Seq<char>, words: Seq<Seq<char>>, n: nat)
    requires
        n >= 1,
        forall|i: int| 0 <= i < words.len() ==> hyphen_free(#[trigger] words[i]),
        is_drawn_from(code, words, n),
    ensures
        split_hyphens(code).len() == n,
        forall|i: int| 0 <= i < n ==> words.contains(#[trigger] split_hyphens(code)[i]),
{
    let ws = choose|ws: Seq<Seq<char>>|
        ws.len() == n && (forall|i: int| 0 <= i < ws.len() ==> words.contains(#[trigger] ws[i]))
            && code == hyphen_join(ws);
    assert forall|i: int| 0 <= i < ws.len() implies hyphen_free(#[trigger] ws[i]) by {
        assert(words.contains(ws[i]));
        let j = choose|j: int| 0 <= j < words.len() && words[j] == ws[i];
        assert(hyphen_free(words[j]));
    }
    law_passphrase_splits_into_words(ws);
}

} // verus!
