use passlink::message::SignalingMessage;
use passlink::passphrase::{code_from_draws, generate_code, PassphraseError};
use passlink::router::{Broker, BrokerError, Connection, Inbound, Outbound, Phase};
use passlink::store::{SessionStore, StoreError};
use passlink::wordlist::{parse_word_list, word_of_line};

fn words() -> Vec<String> {
    vec!["apple".to_string(), "river".to_string(), "stone".to_string()]
}

fn code_of(out: &Outbound) -> String {
    let prefix = "{\"type\":\"passphrase\",\"passphrase\":\"";
    assert!(out.text.starts_with(prefix));
    assert!(out.text.ends_with("\"}"));
    out.text[prefix.len()..out.text.len() - 2].to_string()
}

fn send(b: &mut Broker, c: &mut Connection, m: SignalingMessage) -> Outbound {
    b.handle(c, Inbound::Message(m), 0).expect("a frame goes out")
}

#[test]
fn generate_gives_requested_word_count() {
    let list = words();
    for len in 1u8..=10 {
        let code = generate_code(len, &list).unwrap();
        let parts: Vec<&str> = code.split('-').collect();
        assert_eq!(parts.len(), len as usize);
        for p in parts {
            assert!(list.iter().any(|w| w == p));
        }
    }
}

#[test]
fn generate_rejects_bad_lengths() {
    assert_eq!(generate_code(0, &words()), Err(PassphraseError::InvalidLength));
    assert_eq!(generate_code(11, &words()), Err(PassphraseError::InvalidLength));
    assert_eq!(generate_code(255, &words()), Err(PassphraseError::InvalidLength));
}

#[test]
fn generate_rejects_empty_word_list() {
    assert_eq!(generate_code(3, &Vec::new()), Err(PassphraseError::EmptyWordList));
}

#[test]
fn generate_single_word_list() {
    let list = vec!["otter".to_string()];
    assert_eq!(generate_code(3, &list).unwrap(), "otter-otter-otter");
    assert_eq!(generate_code(1, &list).unwrap(), "otter");
}

#[test]
fn encode_passphrase() {
    let m = SignalingMessage::Passphrase { passphrase: "apple-river-stone".to_string() };
    assert_eq!(m.encode(), "{\"type\":\"passphrase\",\"passphrase\":\"apple-river-stone\"}");
}

#[test]
fn encode_escapes_strings() {
    let m = SignalingMessage::Answer { sdp: "v=0\r\na=\"x\"".to_string() };
    assert_eq!(m.encode(), "{\"type\":\"answer\",\"sdp\":\"v=0\\r\\na=\\\"x\\\"\"}");
}

#[test]
fn encode_offer_lengths() {
    let m = SignalingMessage::Offer { passphrase_length: 3, sdp: "v=0".to_string() };
    assert_eq!(m.encode(), "{\"type\":\"offer\",\"passphraseLength\":3,\"sdp\":\"v=0\"}");
    let m = SignalingMessage::Offer { passphrase_length: 10, sdp: String::new() };
    assert_eq!(m.encode(), "{\"type\":\"offer\",\"passphraseLength\":10,\"sdp\":\"\"}");
    let m = SignalingMessage::Offer { passphrase_length: 255, sdp: "a".to_string() };
    assert_eq!(m.encode(), "{\"type\":\"offer\",\"passphraseLength\":255,\"sdp\":\"a\"}");
    let m = SignalingMessage::Offer { passphrase_length: 0, sdp: "a".to_string() };
    assert_eq!(m.encode(), "{\"type\":\"offer\",\"passphraseLength\":0,\"sdp\":\"a\"}");
}

#[test]
fn encode_ice_candidates() {
    let m = SignalingMessage::IceCandidate { candidate: None };
    assert_eq!(m.encode(), "{\"type\":\"ice-candidate\",\"candidate\":null}");
    let m = SignalingMessage::IceCandidate { candidate: Some("cand1".to_string()) };
    assert_eq!(m.encode(), "{\"type\":\"ice-candidate\",\"candidate\":\"cand1\"}");
    let m = SignalingMessage::ConnectionRequest { passphrase: "a-b".to_string() };
    assert_eq!(m.encode(), "{\"type\":\"connection-request\",\"passphrase\":\"a-b\"}");
}

#[test]
fn store_create_conflicts_on_taken_passphrase() {
    let mut s = SessionStore::new();
    let code = "apple-river".to_string();
    assert_eq!(s.create(code.clone(), 1, "v=0 a".to_string(), 2, 0), Ok(()));
    assert_eq!(s.create(code.clone(), 2, "v=0 b".to_string(), 2, 0), Err(StoreError::Conflict));
    let kept = s.get(&code).unwrap();
    assert_eq!(kept.sender, 1);
    assert_eq!(kept.offer, "v=0 a");
    assert_eq!(kept.receiver, None);
}

#[test]
fn store_attach_only_once() {
    let mut s = SessionStore::new();
    let code = "stone".to_string();
    s.create(code.clone(), 1, "v=0 a".to_string(), 1, 0).unwrap();
    let mut wins = 0;
    let mut paired = 0;
    for r in 2u64..10 {
        match s.attach_receiver(&code, r) {
            Ok(sess) => {
                wins += 1;
                assert_eq!(sess.offer, "v=0 a");
                assert_eq!(sess.receiver, Some(r));
            }
            Err(StoreError::AlreadyPaired) => paired += 1,
            Err(e) => panic!("unexpected {:?}", e),
        }
    }
    assert_eq!(wins, 1);
    assert_eq!(paired, 7);
    assert_eq!(s.attach_receiver(&"nothing".to_string(), 3).unwrap_err(), StoreError::NotFound);
}

#[test]
fn store_lookup_and_remove() {
    let mut s = SessionStore::new();
    let code = "river".to_string();
    s.create(code.clone(), 1, "o".to_string(), 1, 0).unwrap();
    assert_eq!(s.lookup_peer(&code, 1), Err(StoreError::NotFound));
    s.attach_receiver(&code, 2).unwrap();
    assert_eq!(s.lookup_peer(&code, 1), Ok(2));
    assert_eq!(s.lookup_peer(&code, 2), Ok(1));
    assert_eq!(s.lookup_peer(&code, 3), Err(StoreError::NotFound));
    s.remove(&code);
    assert!(!s.contains(&code));
    s.remove(&code);
    assert!(!s.contains(&code));
}

#[test]
fn end_to_end_scenario() {
    let mut b = Broker::new(words());
    let mut a = Connection::new(1);
    let mut r = Connection::new(2);
    let out = send(&mut b, &mut a, SignalingMessage::Offer {
        passphrase_length: 3,
        sdp: "v=0 offer-A".to_string(),
    });
    assert_eq!(out.to, 1);
    let code = code_of(&out);
    assert_eq!(code.split('-').count(), 3);
    assert!(matches!(a.phase, Phase::WaitingForPeer { .. }));

    let out = send(&mut b, &mut r, SignalingMessage::ConnectionRequest { passphrase: code.clone() });
    assert_eq!(out.to, 2);
    assert_eq!(out.text, "{\"type\":\"offer\",\"passphraseLength\":3,\"sdp\":\"v=0 offer-A\"}");
    assert!(matches!(r.phase, Phase::Bound { .. }));

    let out = send(&mut b, &mut r, SignalingMessage::Answer { sdp: "v=0 answer-B".to_string() });
    assert_eq!(out.to, 1);
    assert_eq!(out.text, "{\"type\":\"answer\",\"sdp\":\"v=0 answer-B\"}");

    let out = send(&mut b, &mut a, SignalingMessage::IceCandidate { candidate: Some("cand1".to_string()) });
    assert_eq!(out.to, 2);
    assert_eq!(out.text, "{\"type\":\"ice-candidate\",\"candidate\":\"cand1\"}");
    assert!(matches!(a.phase, Phase::Bound { .. }));
}

#[test]
fn end_of_candidates_relayed_as_null() {
    let mut b = Broker::new(words());
    let mut a = Connection::new(1);
    let mut r = Connection::new(2);
    let out = send(&mut b, &mut a, SignalingMessage::Offer { passphrase_length: 2, sdp: "o".to_string() });
    let code = code_of(&out);
    send(&mut b, &mut r, SignalingMessage::ConnectionRequest { passphrase: code });
    let out = send(&mut b, &mut r, SignalingMessage::IceCandidate { candidate: None });
    assert_eq!(out.to, 1);
    assert_eq!(out.text, "{\"type\":\"ice-candidate\",\"candidate\":null}");
    let out = send(&mut b, &mut a, SignalingMessage::IceCandidate { candidate: None });
    assert_eq!(out.to, 2);
    assert_eq!(out.text, "{\"type\":\"ice-candidate\",\"candidate\":null}");
}

#[test]
fn malformed_then_valid() {
    let mut b = Broker::new(words());
    let mut a = Connection::new(7);
    let out = b.handle(&mut a, Inbound::Malformed, 0).unwrap();
    assert_eq!(out.to, 7);
    assert_eq!(out.text, "invalid message");
    assert!(matches!(a.phase, Phase::Unbound));
    let out = send(&mut b, &mut a, SignalingMessage::Offer { passphrase_length: 1, sdp: "o".to_string() });
    let code = code_of(&out);
    assert!(b.store.contains(&code));
}

#[test]
fn sender_close_forgets_passphrase() {
    let mut b = Broker::new(words());
    let mut a = Connection::new(1);
    let mut r = Connection::new(2);
    let out = send(&mut b, &mut a, SignalingMessage::Offer { passphrase_length: 3, sdp: "o".to_string() });
    let code = code_of(&out);
    assert!(b.handle(&mut a, Inbound::Close, 0).is_none());
    assert!(matches!(a.phase, Phase::Closed));
    let out = send(&mut b, &mut r, SignalingMessage::ConnectionRequest { passphrase: code.clone() });
    assert_eq!(out.to, 2);
    assert_eq!(out.text, "passphrase not found");
    assert!(!b.store.contains(&code));
    assert!(b.handle(&mut a, Inbound::Malformed, 0).is_none());
}

#[test]
fn second_join_is_refused() {
    let mut b = Broker::new(words());
    let mut a = Connection::new(1);
    let mut r1 = Connection::new(2);
    let mut r2 = Connection::new(3);
    let out = send(&mut b, &mut a, SignalingMessage::Offer { passphrase_length: 3, sdp: "o".to_string() });
    let code = code_of(&out);
    send(&mut b, &mut r1, SignalingMessage::ConnectionRequest { passphrase: code.clone() });
    let out = send(&mut b, &mut r2, SignalingMessage::ConnectionRequest { passphrase: code });
    assert_eq!(out.to, 3);
    assert_eq!(out.text, "passphrase already paired");
    assert!(matches!(r2.phase, Phase::Unbound));
}

#[test]
fn offer_errors() {
    let mut b = Broker::new(words());
    let mut a = Connection::new(1);
    let out = send(&mut b, &mut a, SignalingMessage::Offer { passphrase_length: 0, sdp: "o".to_string() });
    assert_eq!(out.text, "invalid passphrase length");
    let out = send(&mut b, &mut a, SignalingMessage::Offer { passphrase_length: 11, sdp: "o".to_string() });
    assert_eq!(out.text, "invalid passphrase length");
    assert!(matches!(a.phase, Phase::Unbound));

    let mut empty = Broker::new(Vec::new());
    let out = send(&mut empty, &mut a, SignalingMessage::Offer { passphrase_length: 3, sdp: "o".to_string() });
    assert_eq!(out.text, "no words to draw from");
}

#[test]
fn offer_exhausts_taken_passphrases() {
    let mut b = Broker::new(vec!["only".to_string()]);
    let mut a = Connection::new(1);
    let mut c = Connection::new(2);
    let out = send(&mut b, &mut a, SignalingMessage::Offer { passphrase_length: 1, sdp: "o".to_string() });
    assert_eq!(code_of(&out), "only");
    let out = send(&mut b, &mut c, SignalingMessage::Offer { passphrase_length: 1, sdp: "p".to_string() });
    assert_eq!(out.to, 2);
    assert_eq!(out.text, "no passphrase available");
    assert_eq!(b.store.get(&"only".to_string()).unwrap().offer, "o");
}

#[test]
fn unexpected_messages() {
    let mut b = Broker::new(words());
    let mut a = Connection::new(1);
    let out = send(&mut b, &mut a, SignalingMessage::Answer { sdp: "x".to_string() });
    assert_eq!(out.text, "unexpected message");
    let out = send(&mut b, &mut a, SignalingMessage::Passphrase { passphrase: "x".to_string() });
    assert_eq!(out.text, "unexpected message");
    send(&mut b, &mut a, SignalingMessage::Offer { passphrase_length: 2, sdp: "o".to_string() });
    let out = send(&mut b, &mut a, SignalingMessage::Offer { passphrase_length: 2, sdp: "o".to_string() });
    assert_eq!(out.text, "unexpected message");
    let out = send(&mut b, &mut a, SignalingMessage::Answer { sdp: "x".to_string() });
    assert_eq!(out.to, 1);
    assert_eq!(out.text, "peer not connected");
}

#[test]
fn delivery_failure_tears_down() {
    let mut b = Broker::new(words());
    let mut a = Connection::new(1);
    let mut r = Connection::new(2);
    let out = send(&mut b, &mut a, SignalingMessage::Offer { passphrase_length: 2, sdp: "o".to_string() });
    let code = code_of(&out);
    send(&mut b, &mut r, SignalingMessage::ConnectionRequest { passphrase: code.clone() });
    let out = b.handle(&mut r, Inbound::DeliveryFailed, 0).unwrap();
    assert_eq!(out.to, 2);
    assert_eq!(out.text, "peer unreachable");
    assert!(matches!(r.phase, Phase::Unbound));
    assert!(!b.store.contains(&code));
}

#[test]
fn error_texts() {
    assert_eq!(BrokerError::Protocol.text(), "invalid message");
    assert_eq!(BrokerError::NotFound.text(), "passphrase not found");
}

#[test]
fn word_list_lines() {
    assert_eq!(word_of_line("11111\tabacus"), "abacus");
    assert_eq!(word_of_line("noword"), "");
    assert_eq!(word_of_line("a\tb\tc"), "b");
    assert_eq!(word_of_line("a\t"), "");
    assert_eq!(word_of_line(""), "");
    let lines = vec!["11111\tabacus".to_string(), "11112\tabdomen".to_string(), "x".to_string()];
    assert_eq!(parse_word_list(&lines), vec!["abacus".to_string(), "abdomen".to_string(), String::new()]);
}

#[test]
fn sweep_removes_only_expired_unpaired() {
    let mut s = SessionStore::new();
    let old = "old".to_string();
    let paired = "paired".to_string();
    let fresh = "fresh".to_string();
    s.create(old.clone(), 1, "a".to_string(), 1, 10).unwrap();
    s.create(paired.clone(), 2, "b".to_string(), 1, 10).unwrap();
    s.create(fresh.clone(), 3, "c".to_string(), 1, 90).unwrap();
    s.attach_receiver(&paired, 4).unwrap();
    s.sweep(69, 60);
    assert!(s.contains(&old));
    s.sweep(70, 60);
    assert!(!s.contains(&old));
    assert!(s.contains(&paired));
    assert!(s.contains(&fresh));
    s.sweep(u64::MAX, 0);
    assert!(!s.contains(&fresh));
    assert!(s.contains(&paired));
    assert_eq!(s.create(old.clone(), 5, "d".to_string(), 1, 100), Ok(()));
    s.sweep(100, u64::MAX);
    assert!(s.contains(&old));
}

#[test]
fn offer_records_creation_time() {
    let mut b = Broker::new(words());
    let mut a = Connection::new(1);
    let out = b.handle(&mut a, Inbound::Message(SignalingMessage::Offer { passphrase_length: 2, sdp: "o".to_string() }), 42).unwrap();
    let code = code_of(&out);
    let sess = b.store.get(&code).unwrap();
    assert_eq!(sess.created_at, 42);
    assert_eq!(sess.sender, 1);
    assert_eq!(sess.passphrase_length, 2);
    b.store.sweep(101, 60);
    assert!(b.store.contains(&code));
    b.store.sweep(102, 60);
    let mut r = Connection::new(2);
    let out = send(&mut b, &mut r, SignalingMessage::ConnectionRequest { passphrase: code });
    assert_eq!(out.text, "passphrase not found");
}

#[test]
fn close_notifies_the_other_party() {
    let mut b = Broker::new(words());
    let mut a = Connection::new(1);
    let mut r = Connection::new(2);
    let out = send(&mut b, &mut a, SignalingMessage::Offer { passphrase_length: 2, sdp: "o".to_string() });
    let code = code_of(&out);
    send(&mut b, &mut r, SignalingMessage::ConnectionRequest { passphrase: code.clone() });
    let out = b.handle(&mut r, Inbound::Close, 0).unwrap();
    assert_eq!(out.to, 1);
    assert_eq!(out.text, "peer disconnected");
    assert!(!b.store.contains(&code));
    let out = send(&mut b, &mut a, SignalingMessage::Answer { sdp: "x".to_string() });
    assert_eq!(out.to, 1);
    assert_eq!(out.text, "peer not connected");
}

#[test]
fn code_from_given_draws() {
    assert_eq!(code_from_draws(&vec![0, 1, 2], &words()), "apple-river-stone");
    assert_eq!(code_from_draws(&vec![2, 2], &words()), "stone-stone");
    assert_eq!(code_from_draws(&vec![1], &words()), "river");
    assert_eq!(code_from_draws(&Vec::new(), &words()), "");
}

#[test]
fn encode_escapes_control_characters() {
    let m = SignalingMessage::Answer { sdp: "a\u{1}\u{8}\u{c}\t\\b\u{1f} \u{7f}é".to_string() };
    assert_eq!(m.encode(), "{\"type\":\"answer\",\"sdp\":\"a\\u0001\\b\\f\\t\\\\b\\u001f \u{7f}é\"}");
}
