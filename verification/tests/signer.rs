use std::sync::Mutex;

use boringtun::agent::{agree, default_agent, StaticKeyAgent};
use boringtun::signer::{
    peer_uid, serve_reply, serve_stream, Link, LinkAction, LinkEvent, ReadErrorKind, ServeAction, Served,
    SignerClient,
};
use boringtun::x25519;
use rand_core::OsRng;

const PUBLIC: [u8; 32] = [3u8; 32];
const PEER: [u8; 32] = [4u8; 32];

/// An agent whose answer shows what it was asked.
struct Echo;

impl StaticKeyAgent for Echo {
    fn diffie_hellman(&self, peer_public: &[u8; 32]) -> [u8; 32] {
        let mut out = *peer_public;
        out[0] = out[0].wrapping_add(1);
        out
    }

    fn public_key(&self) -> [u8; 32] {
        PUBLIC
    }
}

fn finished(action: LinkAction) -> [u8; 32] {
    match action {
        LinkAction::Finish(shared) => shared,
        _ => panic!("the exchange is not over"),
    }
}

#[test]
fn the_client_knows_the_public_key() {
    assert_eq!(SignerClient::new(PUBLIC).public_key(), PUBLIC);
}

/// Runs one exchange: what it ends with, and the request, if one was written.
fn exchange(
    link: &mut Link,
    peer: &[u8; 32],
    claimed: bool,
    written: usize,
    received: Option<[u8; 32]>,
) -> ([u8; 32], Option<[u8; 32]>) {
    let client = SignerClient::new(PUBLIC);
    let mut request = None;
    let mut last = LinkEvent::Claimed(claimed);
    loop {
        last = match client.diffie_hellman(peer, link, last) {
            LinkAction::Send(bytes) => {
                request = Some(bytes);
                LinkEvent::Sent(written)
            }
            LinkAction::Receive => LinkEvent::Received(received),
            LinkAction::Finish(shared) => return (shared, request),
        };
    }
}

#[test]
fn the_client_sends_the_peer_key_and_takes_the_reply() {
    let client = SignerClient::new(PUBLIC);
    let mut link = Link::new();
    match client.diffie_hellman(&PEER, &mut link, LinkEvent::Claimed(true)) {
        LinkAction::Send(request) => assert_eq!(request, PEER),
        _ => panic!("expected a request"),
    }
    assert_eq!(link, Link::Sending);
    assert!(matches!(
        client.diffie_hellman(&PEER, &mut link, LinkEvent::Sent(32)),
        LinkAction::Receive
    ));
    assert_eq!(link, Link::Receiving);
    let reply = [5u8; 32];
    let end = client.diffie_hellman(&PEER, &mut link, LinkEvent::Received(Some(reply)));
    assert_eq!(finished(end), reply);
    assert_eq!(link, Link::Idle);
}

#[test]
fn the_client_fails_closed() {
    let reply = Some([5u8; 32]);
    for (claimed, written, received, end) in [
        (false, 32, reply, Link::Idle),
        (true, 0, reply, Link::Idle),
        (true, 1, reply, Link::Broken),
        (true, 31, reply, Link::Broken),
        (true, 32, None, Link::Broken),
    ] {
        let mut link = Link::new();
        assert_eq!(exchange(&mut link, &PEER, claimed, written, received).0, [0u8; 32]);
        assert_eq!(link, end);
    }
}

#[test]
fn a_late_reply_is_not_taken_for_another_request() {
    let mut link = Link::new();
    // The reply to the first request does not come in time.
    assert_eq!(
        exchange(&mut link, &[1u8; 32], true, 32, None),
        ([0u8; 32], Some([1u8; 32]))
    );
    // It is there when the second exchange would read one.
    let late = Some([0x11; 32]);
    for _ in 0..2 {
        assert_eq!(exchange(&mut link, &[2u8; 32], true, 32, late), ([0u8; 32], None));
        assert_eq!(link, Link::Broken);
    }
}

#[test]
fn a_link_whose_request_was_cut_short_is_not_used_again() {
    let mut link = Link::new();
    assert_eq!(exchange(&mut link, &PEER, true, 10, None).0, [0u8; 32]);
    assert_eq!(exchange(&mut link, &PEER, true, 32, Some([5u8; 32])), ([0u8; 32], None));
    assert_eq!(exchange(&mut link, &PEER, false, 32, None), ([0u8; 32], None));
    assert_eq!(link, Link::Broken);
}

#[test]
fn a_failed_write_that_sent_nothing_leaves_the_link_fit() {
    let mut link = Link::new();
    assert_eq!(exchange(&mut link, &[1u8; 32], true, 0, None).0, [0u8; 32]);
    assert_eq!(link, Link::Idle);
    assert_eq!(
        exchange(&mut link, &[2u8; 32], true, 32, Some([0x22; 32])),
        ([0x22; 32], Some([2u8; 32]))
    );
}

#[test]
fn a_link_serves_one_exchange_after_another() {
    let mut link = Link::new();
    for n in 1u8..5 {
        let end = exchange(&mut link, &[n; 32], true, 32, Some([n + 100; 32]));
        assert_eq!(end, ([n + 100; 32], Some([n; 32])));
    }
    // One that could not be claimed does no harm.
    assert_eq!(exchange(&mut link, &PEER, false, 32, None), ([0u8; 32], None));
    assert_eq!(exchange(&mut link, &PEER, true, 32, Some([9u8; 32])).0, [9u8; 32]);
}

#[test]
fn an_event_out_of_turn_breaks_the_link() {
    let client = SignerClient::new(PUBLIC);
    let mut link = Link::new();
    let end = client.diffie_hellman(&PEER, &mut link, LinkEvent::Received(Some([5u8; 32])));
    assert_eq!(finished(end), [0u8; 32]);
    assert_eq!(link, Link::Broken);
}

#[test]
fn the_signer_reads_first() {
    assert!(matches!(
        serve_stream::<(), Echo>(Served::Started, &Echo),
        ServeAction::Read
    ));
}

#[test]
fn the_signer_replies_with_the_answer_of_its_agent() {
    match serve_stream::<(), Echo>(Served::Read(PEER), &Echo) {
        ServeAction::Write(reply) => {
            assert_eq!(reply[0], 5);
            assert_eq!(reply[1..].to_vec(), PEER[1..].to_vec());
        }
        _ => panic!("expected a reply"),
    }
}

#[test]
fn the_signer_reads_on_after_a_reply() {
    assert!(matches!(
        serve_stream::<(), Echo>(Served::Wrote, &Echo),
        ServeAction::Read
    ));
}

#[test]
fn the_signer_stops_well_when_the_peer_disconnects() {
    let end = serve_stream(Served::ReadFailed(ReadErrorKind::UnexpectedEof, 11), &Echo);
    assert!(matches!(end, ServeAction::Return(Ok(()))));
}

#[test]
fn the_signer_returns_any_other_read_error() {
    let end = serve_stream(Served::ReadFailed(ReadErrorKind::Other, 12), &Echo);
    assert!(matches!(end, ServeAction::Return(Err(12))));
}

#[test]
fn the_signer_returns_a_write_error() {
    let end = serve_stream(Served::WriteFailed(13), &Echo);
    assert!(matches!(end, ServeAction::Return(Err(13))));
}

#[test]
fn a_reply_is_the_shared_secret() {
    assert!(matches!(serve_reply::<()>(PEER), ServeAction::Write(reply) if reply == PEER));
}

#[test]
fn an_agent_behind_a_trait_object_can_be_served() {
    let agent: Box<dyn StaticKeyAgent> = Box::new(Echo);
    let action = serve_stream::<(), dyn StaticKeyAgent>(Served::Read(PEER), agent.as_ref());
    assert!(matches!(action, ServeAction::Write(reply) if reply[0] == 5));
}

#[test]
fn the_peer_user_comes_with_success_only() {
    assert_eq!(peer_uid(0, 1000, "denied"), Ok(1000));
    assert_eq!(peer_uid(-1, 1000, "denied"), Err("denied"));
    assert_eq!(peer_uid(1, 0, "denied"), Err("denied"));
}

#[test]
fn an_exchange_through_a_signer_matches_the_initiator() {
    let responder_secret = x25519::StaticSecret::random_from_rng(OsRng);
    let responder_public = x25519::PublicKey::from(&responder_secret).to_bytes();
    let key_agent = default_agent(&responder_secret.to_bytes());

    let initiator_secret = x25519::StaticSecret::random_from_rng(OsRng);
    let initiator_public = x25519::PublicKey::from(&initiator_secret).to_bytes();

    // The client holds the public key only; its request and the reply cross the link.
    let client = SignerClient::new(responder_public);
    let mut link = Link::new();
    let mut last = LinkEvent::Claimed(true);
    let mut reply = None;
    let shared = loop {
        last = match client.diffie_hellman(&initiator_public, &mut link, last) {
            LinkAction::Send(request) => {
                reply = match serve_stream::<(), _>(Served::Read(request), &key_agent) {
                    ServeAction::Write(reply) => Some(reply),
                    _ => panic!("expected a reply"),
                };
                LinkEvent::Sent(32)
            }
            LinkAction::Receive => LinkEvent::Received(reply),
            LinkAction::Finish(shared) => break shared,
        };
    };

    assert_eq!(shared, agree(&initiator_secret.to_bytes(), &client.public_key()));
    assert_eq!(client.public_key(), key_agent.public_key());
}

#[test]
fn a_signer_answers_every_request_in_order() {
    let secret = [0x42; 32];
    let key_agent = default_agent(&secret);
    let requests = [[1u8; 32], [9u8; 32], [1u8; 32]];
    let mut replies = Vec::new();
    let mut waiting = requests.iter();
    let mut last = Served::Started;
    let result: Result<(), &str> = loop {
        last = match serve_stream(last, &key_agent) {
            ServeAction::Read => match waiting.next() {
                Some(request) => Served::Read(*request),
                None => Served::ReadFailed(ReadErrorKind::UnexpectedEof, "closed"),
            },
            ServeAction::Write(reply) => {
                replies.push(reply);
                Served::Wrote
            }
            ServeAction::Return(result) => break result,
        };
    };
    assert_eq!(result, Ok(()));
    let expected: Vec<[u8; 32]> = requests.iter().map(|r| agree(&secret, r)).collect();
    assert_eq!(replies, expected);
}

/// An agent that notes what it is asked.
struct Noting(Mutex<Vec<[u8; 32]>>);

impl StaticKeyAgent for Noting {
    fn diffie_hellman(&self, peer_public: &[u8; 32]) -> [u8; 32] {
        let mut asked = self.0.lock().expect("no other user");
        asked.push(*peer_public);
        [asked.len() as u8; 32]
    }

    fn public_key(&self) -> [u8; 32] {
        panic!("the signer does not ask for the public key");
    }
}

#[test]
fn a_signer_serves_every_whole_request_of_its_input() {
    // Two whole requests, and part of a third.
    let input: Vec<u8> = (0u8..80).collect();
    let agent = Noting(Mutex::new(Vec::new()));
    let mut rest = input.as_slice();
    let mut output = Vec::new();
    let mut last = Served::Started;
    let result: Result<(), &str> = loop {
        last = match serve_stream(last, &agent) {
            ServeAction::Read => {
                if rest.len() >= 32 {
                    let mut request = [0u8; 32];
                    request.copy_from_slice(&rest[..32]);
                    rest = &rest[32..];
                    Served::Read(request)
                } else {
                    Served::ReadFailed(ReadErrorKind::UnexpectedEof, "closed")
                }
            }
            ServeAction::Write(reply) => {
                output.extend(reply);
                Served::Wrote
            }
            ServeAction::Return(result) => break result,
        };
    };
    assert_eq!(result, Ok(()));
    let asked = agent.0.lock().expect("no other user");
    assert_eq!(asked.len(), 2);
    assert_eq!(asked[0].to_vec(), input[..32].to_vec());
    assert_eq!(asked[1].to_vec(), input[32..64].to_vec());
    let mut expected = vec![1u8; 32];
    expected.extend([2u8; 32]);
    assert_eq!(output, expected);
}

#[test]
fn every_exchange_of_a_session_ends_with_its_own_answer() {
    let agent = Noting(Mutex::new(Vec::new()));
    let mut link = Link::new();
    for n in 1u8..4 {
        let peer = [n; 32];
        // A try that writes nothing asks the agent nothing.
        assert_eq!(exchange(&mut link, &[0xee; 32], true, 0, None).0, [0u8; 32]);
        let reply = match serve_stream::<(), _>(Served::Read(peer), &agent) {
            ServeAction::Write(reply) => reply,
            _ => panic!("expected a reply"),
        };
        assert_eq!(exchange(&mut link, &peer, true, 32, Some(reply)), ([n; 32], Some(peer)));
    }
    let asked = agent.0.lock().expect("no other user");
    assert_eq!(*asked, vec![[1u8; 32], [2u8; 32], [3u8; 32]]);
}
