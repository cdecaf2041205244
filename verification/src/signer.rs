//! Sign-on-behalf: the static private key stays out of the process that handles the traffic.
//!
//! A signer process holds the key and performs `DH(static_private, peer_public)` on request, over a
//! connected stream. The datapath holds a [`SignerClient`], which knows the public key only.
//!
//! The protocol has fixed sizes and one request and one reply per operation: the client writes the
//! 32 bytes of the peer's public key, the signer replies with the 32 bytes of the shared secret.
//! The static public key is never sent.
//!
//! This module decides; whoever owns the stream acts. Both sides are told what happened last, and
//! say what to do next.
use vstd::prelude::*;

use crate::agent::{KeyAgent, StaticKeyAgent};
use crate::x25519::Key;

verus! {

/// The datapath's side: asks a signer for each operation with the static key. Knows the static
/// public key only.
pub struct SignerClient {
    static_public: Key,
}

/// How a client's link stands: where in an exchange it is, if it is still fit for one.
///
/// The signer's replies carry no mark of the request that they belong to. So a link on which an
/// exchange broke off is not used again: a reply that came late would be taken for the reply to
/// another request, and the rest of a request that was cut short would be taken from the next. An
/// exchange that wrote nothing leaves no such trace, and the link is as good as before.
#[derive(Clone, Copy, Debug, PartialEq, Eq, Structural)]
pub enum Link {
    /// Every request was answered; the next exchange may begin.
    Idle,
    /// A request is being written.
    Sending,
    /// A request was written whole, and its reply is awaited.
    Receiving,
    /// An exchange broke off after part of its request was written.
    Broken,
}

/// What happened last on the client's link.
pub enum LinkEvent {
    /// The link was claimed for one exchange, or could not be.
    Claimed(bool),
    /// So many bytes of the request were written: all of them, or, where writing failed, fewer.
    Sent(usize),
    /// A whole reply was read, or none.
    Received(Option<Key>),
}

/// What the client wants done next.
pub enum LinkAction {
    /// Write the request.
    Send(Key),
    /// Read a reply.
    Receive,
    /// The exchange is over, with this shared secret.
    Finish(Key),
}

/// A [`LinkAction`] by the bytes in it.
pub enum LinkStep {
    Send(Seq<u8>),
    Receive,
    Finish(Seq<u8>),
}

impl View for LinkAction {
    type V = LinkStep;

    open spec fn view(&self) -> LinkStep {
        match self {
            LinkAction::Send(request) => LinkStep::Send(request@),
            LinkAction::Receive => LinkStep::Receive,
            LinkAction::Finish(shared) => LinkStep::Finish(shared@),
        }
    }
}

/// What the client answers with where the signer gave no answer: zeros.
pub open spec fn no_secret() -> Seq<u8> {
    Seq::new(32, |i: int| 0u8)
}

/// How the link stands after `last`, and what the client of an exchange for `peer_public` wants done
/// then: each success leads to the next step, and any failure ends the exchange without a secret. A
/// link that could not be claimed between two exchanges, or to which nothing could be written, is as
/// good as before; any other failure breaks it.
pub open spec fn link_step(link: Link, peer_public: Seq<u8>, last: LinkEvent) -> (Link, LinkStep) {
    match (link, last) {
        (Link::Idle, LinkEvent::Claimed(true)) => (Link::Sending, LinkStep::Send(peer_public)),
        (Link::Idle, LinkEvent::Claimed(false)) => (Link::Idle, LinkStep::Finish(no_secret())),
        (Link::Sending, LinkEvent::Sent(written)) => if written == 32 {
            (Link::Receiving, LinkStep::Receive)
        } else if written == 0 {
            (Link::Idle, LinkStep::Finish(no_secret()))
        } else {
            (Link::Broken, LinkStep::Finish(no_secret()))
        },
        (Link::Receiving, LinkEvent::Received(Some(reply))) => (
            Link::Idle,
            LinkStep::Finish(reply@),
        ),
        _ => (Link::Broken, LinkStep::Finish(no_secret())),
    }
}

impl Link {
    /// A link on which nothing was sent yet.
    pub fn new() -> (link: Link)
        ensures
            link == Link::Idle,
    {
        Link::Idle
    }
}

impl View for SignerClient {
    type V = Key;

    closed spec fn view(&self) -> Key {
        self.static_public
    }
}

impl SignerClient {
    /// A client of the signer that holds the private key to `static_public`.
    pub fn new(static_public: Key) -> (client: Self)
        ensures
            client@ == static_public,
    {
        SignerClient { static_public }
    }

    /// The next step of an exchange for `peer_public` on `link`.
    ///
    /// Fails closed: where any step fails, whatever part of a reply was read is dropped, and the
    /// shared secret is zeros. Once part of a request was written, so it is for every later exchange
    /// on that link.
    pub fn diffie_hellman(&self, peer_public: &Key, link: &mut Link, last: LinkEvent) -> (action:
        LinkAction)
        ensures
            (*final(link), action@) == link_step(*old(link), peer_public@, last),
            action matches LinkAction::Send(request) ==> request == *peer_public,
            action is Send <==> *old(link) == Link::Idle && last == LinkEvent::Claimed(true),
            action is Receive <==> *old(link) == Link::Sending && last == LinkEvent::Sent(32),
            action is Send <==> *final(link) == Link::Sending,
            action is Receive <==> *final(link) == Link::Receiving,
            action matches LinkAction::Finish(shared) ==> {
                ||| *old(link) == Link::Receiving && last == LinkEvent::Received(Some(shared))
                ||| forall|i: int| 0 <= i < 32 ==> #[trigger] shared@[i] == 0
            },
            *old(link) == Link::Receiving ==> (last matches LinkEvent::Received(Some(reply))
                ==> action == LinkAction::Finish(reply)),
    {
        let none: Key = [0u8; 32];
        assert(none@ =~= no_secret());
        let (next, action): (Link, LinkAction) = match (*link, last) {
            (Link::Idle, LinkEvent::Claimed(true)) => (
                Link::Sending,
                LinkAction::Send(*peer_public),
            ),
            (Link::Idle, LinkEvent::Claimed(false)) => (Link::Idle, LinkAction::Finish(none)),
            (Link::Sending, LinkEvent::Sent(written)) => {
                if written == 32 {
                    (Link::Receiving, LinkAction::Receive)
                } else if written == 0 {
                    (Link::Idle, LinkAction::Finish(none))
                } else {
                    (Link::Broken, LinkAction::Finish(none))
                }
            },
            (Link::Receiving, LinkEvent::Received(Some(shared))) => (
                Link::Idle,
                LinkAction::Finish(shared),
            ),
            _ => (Link::Broken, LinkAction::Finish(none)),
        };
        *link = next;
        action
    }

    /// The static public key.
    pub fn public_key(&self) -> (public: Key)
        ensures
            public == self@,
    {
        self.static_public
    }
}

/// What comes of an exchange on the outside: the key it is for, whether the link could be claimed,
/// and, where the client got so far, how many bytes of the request were written and which reply was
/// read.
pub struct Exchange {
    pub peer_public: Seq<u8>,
    pub claimed: bool,
    pub written: usize,
    pub received: Option<Key>,
}

impl Exchange {
    /// Whether nothing failed.
    pub open spec fn succeeds(self) -> bool {
        self.claimed && self.written == 32 && self.received is Some
    }

    /// Whether a step failed when nothing was written yet.
    pub open spec fn fails_early(self) -> bool {
        !self.claimed || self.written == 0
    }
}

/// What a client did in an exchange: the requests that it wanted written, how many replies it wanted
/// read, and how the link stood at the end and with which shared secret, if there was an end.
pub struct Conversation {
    pub sends: Seq<Seq<u8>>,
    pub receives: nat,
    pub end: Option<(Link, Seq<u8>)>,
}

/// The rest of the exchange `e` from the event `last` on, as long as the client wants no more than
/// `more` things done: a request that it wants written is met with `e.written`, a reply that it
/// wants read with `e.received`, in whatever order it wants them and however often.
pub open spec fn follow(link: Link, e: Exchange, last: LinkEvent, more: nat) -> Conversation
    decreases more,
{
    let (link, step) = link_step(link, e.peer_public, last);
    match step {
        LinkStep::Finish(shared) => Conversation {
            sends: Seq::empty(),
            receives: 0,
            end: Some((link, shared)),
        },
        LinkStep::Send(request) => if more == 0 {
            Conversation { sends: seq![request], receives: 0, end: None }
        } else {
            let rest = follow(link, e, LinkEvent::Sent(e.written), (more - 1) as nat);
            Conversation { sends: seq![request] + rest.sends, ..rest }
        },
        LinkStep::Receive => if more == 0 {
            Conversation { sends: Seq::empty(), receives: 1, end: None }
        } else {
            let rest = follow(link, e, LinkEvent::Received(e.received), (more - 1) as nat);
            Conversation { receives: rest.receives + 1, ..rest }
        },
    }
}

/// The exchange `e` on a link that stands at `link`, up to the first two things that the client wants
/// done.
pub open spec fn conversation(link: Link, e: Exchange) -> Conversation {
    follow(link, e, LinkEvent::Claimed(e.claimed), 2)
}

/// How the link stands after a whole exchange that found it at `link`, and the shared secret that
/// the exchange ends with.
pub open spec fn exchange(link: Link, e: Exchange) -> (Link, Seq<u8>) {
    conversation(link, e).end->0
}

/// One request and one reply per operation. Every exchange ends. It sends the peer's public key,
/// once, if the link is in order and could be claimed, and nothing otherwise; it reads one reply if
/// that request was written whole, after it, and none otherwise. This holds for every key alike.
pub proof fn one_request_and_one_reply(link: Link, e: Exchange)
    ensures
        conversation(link, e).end is Some,
        conversation(link, e).sends == if link == Link::Idle && e.claimed {
            seq![e.peer_public]
        } else {
            Seq::empty()
        },
        conversation(link, e).receives == if link == Link::Idle && e.claimed && e.written == 32 {
            1nat
        } else {
            0nat
        },
{
    reveal_with_fuel(follow, 3);
    assert(conversation(link, e).sends =~= if link == Link::Idle && e.claimed {
        seq![e.peer_public]
    } else {
        Seq::empty()
    });
}

/// The steps of an exchange come in turn, on every link and for every key: a request is sent where
/// the link was between two exchanges and has just been claimed, and nowhere else; a reply is
/// awaited where the whole of a request has just been written, and nowhere else. Every other event
/// ends the exchange. The link is fit for the next one if nothing was written or the reply was read,
/// and broken otherwise.
pub proof fn steps_come_in_turn(link: Link, peer_public: Seq<u8>, last: LinkEvent)
    ensures
        ({
            let (next, step) = link_step(link, peer_public, last);
            &&& step is Send <==> link == Link::Idle && last == LinkEvent::Claimed(true)
            &&& step is Receive <==> link == Link::Sending && last == LinkEvent::Sent(32)
            &&& next == Link::Sending <==> step is Send
            &&& next == Link::Receiving <==> step is Receive
            &&& next == Link::Idle <==> {
                ||| link == Link::Idle && last == LinkEvent::Claimed(false)
                ||| link == Link::Sending && last == LinkEvent::Sent(0)
                ||| link == Link::Receiving && last is Received && last->Received_0 is Some
            }
        }),
{
}

/// A shared secret comes with a reply that was awaited, and is that reply, whatever it holds. On every
/// other event an exchange that ends, ends with 32 zeros.
pub proof fn secret_comes_with_reply_only(link: Link, peer_public: Seq<u8>, last: LinkEvent)
    ensures
        link_step(link, peer_public, last).1 matches LinkStep::Finish(shared) ==> {
            &&& shared.len() == 32
            &&& (match last {
                LinkEvent::Received(Some(reply)) => if link == Link::Receiving {
                    shared == reply@
                } else {
                    forall|i: int| 0 <= i < 32 ==> #[trigger] shared[i] == 0
                },
                _ => forall|i: int| 0 <= i < 32 ==> #[trigger] shared[i] == 0,
            })
        },
        link == Link::Receiving && last is Received ==> link_step(link, peer_public, last).1
            is Finish,
{
}

/// Which key an exchange is for shows in its request and nowhere else: two exchanges for two keys
/// that meet with the same go the same way.
pub proof fn steps_are_the_same_for_every_key(
    link: Link,
    one: Seq<u8>,
    other: Seq<u8>,
    last: LinkEvent,
)
    ensures
        link_step(link, one, last).0 == link_step(link, other, last).0,
        link_step(link, one, last).1 is Send <==> link_step(link, other, last).1 is Send,
        !(link_step(link, one, last).1 is Send) ==> link_step(link, one, last).1 == link_step(
            link,
            other,
            last,
        ).1,
{
}

/// What the owner of the stream is told to write or gets back is what the client decided on, byte
/// for byte.
pub proof fn actions_carry_their_bytes(action: LinkAction)
    ensures
        match action {
            LinkAction::Send(request) => action@ == LinkStep::Send(request@),
            LinkAction::Receive => action@ == LinkStep::Receive,
            LinkAction::Finish(shared) => action@ == LinkStep::Finish(shared@),
        },
{
}

/// What a client is told is its public key comes back from it.
pub proof fn client_keeps_public_key(static_public: Key, client: SignerClient, public: Key)
    requires
        call_ensures(SignerClient::new, (static_public,), client),
        call_ensures(SignerClient::public_key, (&client,), public),
    ensures
        public == static_public,
{
}

/// The client fails closed: an exchange ends with the signer's reply if no earlier one broke the
/// link, the link was claimed, the request written whole and a reply received, and with zeros in
/// every other case. It breaks the link if it fails after some of its request was written, and then
/// only.
pub proof fn exchange_fails_closed(link: Link, e: Exchange)
    ensures
        link == Link::Idle && e.succeeds() ==> exchange(link, e) == (
            Link::Idle,
            e.received->0@,
        ),
        !(link == Link::Idle && e.succeeds()) ==> exchange(link, e).1 == no_secret(),
        link == Link::Idle ==> exchange(link, e).0 == if e.succeeds() || e.fails_early() {
            Link::Idle
        } else {
            Link::Broken
        },
        link != Link::Idle ==> exchange(link, e).0 == Link::Broken,
{
    reveal_with_fuel(follow, 3);
}

/// After an exchange that broke off once part of its request was written, whether in the writing of
/// the rest or in the reading of the reply, the next one on the link ends with zeros, whatever comes
/// of it, and leaves the link broken.
pub proof fn no_exchange_after_a_broken_one(first: Exchange, second: Exchange)
    requires
        !first.succeeds(),
        !first.fails_early(),
    ensures
        exchange(Link::Idle, first).1 == no_secret(),
        exchange(exchange(Link::Idle, first).0, second) == (Link::Broken, no_secret()),
{
    reveal_with_fuel(follow, 3);
}

/// An exchange that failed before anything was written ends with zeros and leaves no trace: the next
/// one goes as if it had not been.
pub proof fn unwritten_exchange_leaves_no_trace(first: Exchange, second: Exchange)
    requires
        first.fails_early(),
    ensures
        exchange(Link::Idle, first).1 == no_secret(),
        exchange(exchange(Link::Idle, first).0, second) == exchange(Link::Idle, second),
{
    reveal_with_fuel(follow, 3);
}

/// The exchanges on one link, in order.
pub struct LinkRun {
    pub exchanges: Seq<Exchange>,
}

impl LinkRun {
    /// How the link stands before the exchange at `i`.
    pub open spec fn link(self, i: int) -> Link
        decreases i,
    {
        if i <= 0 {
            Link::Idle
        } else {
            exchange(self.link(i - 1), self.exchanges[i - 1]).0
        }
    }

    /// What the exchange at `i` ends with.
    pub open spec fn result(self, i: int) -> Seq<u8> {
        exchange(self.link(i), self.exchanges[i]).1
    }

    /// What the client does in the exchange at `i`.
    pub open spec fn conversation(self, i: int) -> Conversation {
        conversation(self.link(i), self.exchanges[i])
    }

    /// Whether a request was written in the exchange at `i`, or part of one.
    pub open spec fn asks(self, i: int) -> bool {
        &&& self.conversation(i).sends.len() > 0
        &&& self.exchanges[i].written > 0
    }

    /// The requests that were written before the exchange at `i`, in order: all that its client wanted
    /// written.
    pub open spec fn requests(self, i: int) -> Seq<Seq<u8>>
        decreases i,
    {
        if i <= 0 {
            Seq::empty()
        } else if self.asks(i - 1) {
            self.requests(i - 1) + self.conversation(i - 1).sends
        } else {
            self.requests(i - 1)
        }
    }

    /// How many replies were read whole before the exchange at `i`.
    pub open spec fn replies_read(self, i: int) -> nat
        decreases i,
    {
        if i <= 0 {
            0
        } else if self.exchanges[i - 1].received is Some {
            self.replies_read(i - 1) + self.conversation(i - 1).receives
        } else {
            self.replies_read(i - 1)
        }
    }

    /// Whether the other end answers the requests in order, however late, each with what `dh` gives
    /// for it: the reply that an exchange reads is the first that was not read before.
    pub open spec fn answered_in_order(self, dh: spec_fn(Seq<u8>) -> Seq<u8>) -> bool {
        forall|i: int|
            0 <= i < self.exchanges.len() && #[trigger] self.asks(i) ==> (
            self.exchanges[i].received matches Some(reply) ==> {
                let k = self.replies_read(i) as int;
                &&& k < self.requests(i + 1).len()
                &&& reply@ == dh(self.requests(i + 1)[k])
            })
    }
}

/// As long as a link is fit for another exchange, as many replies were read from it as requests were
/// written to it.
proof fn idle_link_owes_nothing(run: LinkRun, i: int)
    requires
        0 <= i <= run.exchanges.len(),
    ensures
        run.link(i) == Link::Idle || run.link(i) == Link::Broken,
        run.link(i) == Link::Idle ==> run.requests(i).len() == run.replies_read(i),
    decreases i,
{
    if i > 0 {
        idle_link_owes_nothing(run, i - 1);
        one_request_and_one_reply(run.link(i - 1), run.exchanges[i - 1]);
        exchange_fails_closed(run.link(i - 1), run.exchanges[i - 1]);
    }
}

/// One request and one reply per operation: over all the exchanges on a link, each ends with the
/// answer to its own request or with zeros, and never with the answer to another, though replies may
/// come late, and exchanges may be given up before they come.
pub proof fn exchange_takes_own_reply(run: LinkRun, dh: spec_fn(Seq<u8>) -> Seq<u8>, i: int)
    requires
        run.answered_in_order(dh),
        0 <= i < run.exchanges.len(),
    ensures
        run.result(i) == dh(run.exchanges[i].peer_public) || run.result(i) == no_secret(),
        run.link(i) == Link::Idle && run.exchanges[i].succeeds() ==> run.result(i) == dh(
            run.exchanges[i].peer_public,
        ),
{
    one_request_and_one_reply(run.link(i), run.exchanges[i]);
    exchange_fails_closed(run.link(i), run.exchanges[i]);
    idle_link_owes_nothing(run, i);
    if run.asks(i) {
        assert(run.requests(i + 1) == run.requests(i).push(run.exchanges[i].peer_public));
    }
}

/// Once an exchange has broken off after part of its request was written, every later one on the
/// link ends with zeros.
pub proof fn broken_link_stays_broken(run: LinkRun, i: int, j: int)
    requires
        0 <= i < j < run.exchanges.len(),
        !run.exchanges[i].succeeds(),
        !run.exchanges[i].fails_early(),
    ensures
        run.link(j) == Link::Broken,
        run.result(j) == no_secret(),
    decreases j,
{
    if i + 1 < j {
        broken_link_stays_broken(run, i, j - 1);
        exchange_fails_closed(run.link(j - 1), run.exchanges[j - 1]);
    } else {
        idle_link_owes_nothing(run, i);
        exchange_fails_closed(run.link(i), run.exchanges[i]);
        assert(run.link(j) == exchange(run.link(i), run.exchanges[i]).0);
    }
    exchange_fails_closed(run.link(j), run.exchanges[j]);
}

/// A link on which no exchange fails once it has written something is fit for another, always.
pub proof fn link_stays_fit(run: LinkRun, i: int)
    requires
        0 <= i <= run.exchanges.len(),
        forall|j: int|
            0 <= j < i ==> (#[trigger] run.exchanges[j]).succeeds()
                || run.exchanges[j].fails_early(),
    ensures
        run.link(i) == Link::Idle,
    decreases i,
{
    if i > 0 {
        link_stays_fit(run, i - 1);
        exchange_fails_closed(run.link(i - 1), run.exchanges[i - 1]);
    }
}

/// The peer's public key is all that a client ever writes: neither a secret nor the static public
/// key leaves it.
pub proof fn client_sends_peer_key_only(
    link: Link,
    peer_public: Seq<u8>,
    last: LinkEvent,
    request: Seq<u8>,
)
    requires
        link_step(link, peer_public, last).1 == LinkStep::Send(request),
    ensures
        request == peer_public,
{
}

/// Why a request could not be read whole.
#[derive(Clone, Copy, Debug, PartialEq, Eq, Structural)]
pub enum ReadErrorKind {
    /// The stream ended.
    UnexpectedEof,
    /// Anything else.
    Other,
}

/// What happened last on the signer's stream. `E` is the stream's error.
pub enum Served<E> {
    /// Nothing yet.
    Started,
    /// A request was read.
    Read(Key),
    /// No whole request could be read.
    ReadFailed(ReadErrorKind, E),
    /// The reply was written whole.
    Wrote,
    /// The reply could not be written.
    WriteFailed(E),
}

/// What the signer wants done next.
pub enum ServeAction<E> {
    /// Read a request.
    Read,
    /// Write this reply.
    Write(Key),
    /// Stop serving, with this result.
    Return(Result<(), E>),
}

/// What the signer wants done after `last`, where `shared` is the shared secret for the request in
/// `last`, if there is one.
pub open spec fn serve_action<E>(last: Served<E>, shared: Key) -> ServeAction<E> {
    match last {
        Served::Started => ServeAction::Read,
        Served::Read(peer_public) => ServeAction::Write(shared),
        Served::ReadFailed(ReadErrorKind::UnexpectedEof, error) => ServeAction::Return(Ok(())),
        Served::ReadFailed(ReadErrorKind::Other, error) => ServeAction::Return(Err(error)),
        Served::Wrote => ServeAction::Read,
        Served::WriteFailed(error) => ServeAction::Return(Err(error)),
    }
}

/// What the signer wants done once its key agent has answered the last request with `shared`.
pub fn serve_reply<E>(shared: Key) -> (action: ServeAction<E>)
    ensures
        action == ServeAction::<E>::Write(shared),
        forall|peer_public: Key|
            action == #[trigger] serve_action(Served::<E>::Read(peer_public), shared),
{
    ServeAction::Write(shared)
}

/// The next step of serving Diffie-Hellman requests on one stream with `key_agent`, which holds the
/// static key. A request is handed to the agent as it was read, and the agent's answer is the
/// reply. Serving ends well when the peer disconnects, and with the stream's error when reading or
/// writing fails otherwise.
pub fn serve_stream<E, K: StaticKeyAgent + ?Sized>(last: Served<E>, key_agent: &K) -> (action:
    ServeAction<E>)
    ensures
        match last {
            Served::Started => action == ServeAction::<E>::Read,
            Served::Read(peer_public) => exists|shared: Key|
                {
                    &&& #[trigger] call_ensures(
                        K::diffie_hellman,
                        (key_agent, &peer_public),
                        shared,
                    )
                    &&& action == ServeAction::<E>::Write(shared)
                },
            Served::ReadFailed(ReadErrorKind::UnexpectedEof, error) => action == ServeAction::<
                E,
            >::Return(Ok(())),
            Served::ReadFailed(ReadErrorKind::Other, error) => action == ServeAction::<E>::Return(
                Err(error),
            ),
            Served::Wrote => action == ServeAction::<E>::Read,
            Served::WriteFailed(error) => action == ServeAction::<E>::Return(Err(error)),
        },
        !(last is Read) ==> forall|shared: Key| action == #[trigger] serve_action(last, shared),
{
    match last {
        Served::Started => ServeAction::Read,
        Served::Read(peer_public) => {
            let shared: Key = key_agent.diffie_hellman(&peer_public);
            serve_reply(shared)
        },
        Served::ReadFailed(kind, error) => {
            match kind {
                ReadErrorKind::UnexpectedEof => ServeAction::Return(Ok(())),
                ReadErrorKind::Other => ServeAction::Return(Err(error)),
            }
        },
        Served::Wrote => ServeAction::Read,
        Served::WriteFailed(error) => ServeAction::Return(Err(error)),
    }
}

/// The user that the process at the other end of a stream runs as, once the system was asked for
/// its credentials: `code` is what the request returned, `uid` the user in the credentials it
/// filled in, `last_os_error` the system's error after it.
pub fn peer_uid<E>(code: i32, uid: u32, last_os_error: E) -> (user: Result<u32, E>)
    ensures
        code == 0 ==> user == Ok::<u32, E>(uid),
        code != 0 ==> user == Err::<u32, E>(last_os_error),
{
    if code != 0 {
        return Err(last_os_error);
    }
    Ok(uid)
}

/// A signer at work on one stream: what happened on it, and for each request among it the answer of
/// the key agent.
pub struct ServeRun<E> {
    pub events: Seq<Served<E>>,
    pub answers: Seq<Key>,
}

impl<E> ServeRun<E> {
    /// What the signer wanted done after the event at `i`.
    pub open spec fn action(self, i: int) -> ServeAction<E> {
        serve_action(self.events[i], self.answers[i])
    }

    /// Whether each request is answered by `agent`, and every event but the first is the outcome of
    /// what the signer wanted done before it.
    pub open spec fn valid<K: StaticKeyAgent + ?Sized>(self, agent: &K) -> bool {
        &&& self.events.len() > 0
        &&& self.answers.len() == self.events.len()
        &&& self.events[0] is Started
        &&& forall|i: int|
            0 <= i < self.events.len() ==> (#[trigger] self.events[i] matches Served::Read(
                peer_public,
            ) ==> call_ensures(K::diffie_hellman, (agent, &peer_public), self.answers[i]))
        &&& forall|i: int|
            0 < i < self.events.len() ==> outcome_of(self.action(i - 1), #[trigger] self.events[i])
    }

    /// The calls of the agent's `diffie_hellman` for the first `i` events, in order: what each was
    /// given, and what it returned.
    pub open spec fn calls(self, i: int) -> Seq<(Key, Key)>
        decreases i,
    {
        if i <= 0 {
            Seq::empty()
        } else {
            match self.events[i - 1] {
                Served::Read(peer_public) => self.calls(i - 1).push(
                    (peer_public, self.answers[i - 1]),
                ),
                _ => self.calls(i - 1),
            }
        }
    }

    /// The bytes of all replies that were written whole among the first `i` events.
    pub open spec fn written(self, i: int) -> Seq<u8>
        decreases i,
    {
        if i <= 0 {
            Seq::empty()
        } else if self.events[i - 1] is Wrote && i >= 2 && self.action(i - 2) is Write {
            self.written(i - 1) + self.action(i - 2)->Write_0@
        } else {
            self.written(i - 1)
        }
    }

    /// Whether what was read is `input`, piece by piece from its start, and the end of the stream
    /// was met where less than a whole request was left of it.
    pub open spec fn reads(self, input: Seq<u8>) -> bool {
        forall|k: int|
            #![trigger self.events[2 * k + 1]]
            0 <= k && 2 * k + 1 < self.events.len() ==> match self.events[2 * k + 1] {
                Served::Read(peer_public) => {
                    &&& 32 * k + 32 <= input.len()
                    &&& peer_public@ == input.subrange(32 * k, 32 * k + 32)
                },
                Served::ReadFailed(ReadErrorKind::UnexpectedEof, error) => input.len() < 32 * k
                    + 32,
                _ => true,
            }
    }
}

/// Whether `event` is something that can come of `action`.
pub open spec fn outcome_of<E>(action: ServeAction<E>, event: Served<E>) -> bool {
    match action {
        ServeAction::Read => event is Read || event is ReadFailed,
        ServeAction::Write(reply) => event is Wrote || event is WriteFailed,
        ServeAction::Return(result) => false,
    }
}

/// The signer reads and replies in turn, whatever its agent: the first request is the first thing it
/// wants, each request is handed to the agent once and answered with what the agent returned, and no
/// request is read before the reply to the one before it is written.
pub proof fn signer_answers_in_turn<E, K: StaticKeyAgent + ?Sized>(
    run: ServeRun<E>,
    agent: &K,
    k: int,
)
    requires
        run.valid(agent),
        0 <= k,
        2 * k < run.events.len(),
    ensures
        k == 0 ==> run.events[2 * k] is Started,
        k > 0 ==> run.events[2 * k] is Wrote || run.events[2 * k] is WriteFailed,
        2 * k + 1 < run.events.len() ==> {
            &&& k > 0 ==> run.events[2 * k] is Wrote
            &&& match run.events[2 * k + 1] {
                Served::Read(peer_public) => {
                    &&& call_ensures(
                        K::diffie_hellman,
                        (agent, &peer_public),
                        run.answers[2 * k + 1],
                    )
                    &&& run.action(2 * k + 1) == ServeAction::<E>::Write(run.answers[2 * k + 1])
                },
                Served::ReadFailed(kind, error) => run.action(2 * k + 1) is Return,
                _ => false,
            }
        },
    decreases k,
{
    if k > 0 {
        signer_answers_in_turn(run, agent, k - 1);
        assert(outcome_of(run.action(2 * k - 1), run.events[2 * k]));
    }
    if 2 * k + 1 < run.events.len() {
        assert(outcome_of(run.action(2 * k), run.events[2 * k + 1]));
    }
}

/// The calls and the replies of a signer that has met the outcome of its reply to the request number
/// `k`, or has just started: as many as requests, each request once, in order.
proof fn signer_counts_calls<E, K: StaticKeyAgent + ?Sized>(run: ServeRun<E>, agent: &K, k: int)
    requires
        run.valid(agent),
        0 <= k,
        2 * k < run.events.len(),
        k > 0 ==> run.events[2 * k] is Wrote,
    ensures
        run.calls(2 * k + 1).len() == k,
        run.written(2 * k + 1).len() == 32 * k,
        forall|j: int|
            0 <= j < k ==> {
                &&& run.events[2 * j + 1] == Served::<E>::Read((#[trigger] run.calls(2 * k + 1)[j]).0)
                &&& run.answers[2 * j + 1] == run.calls(2 * k + 1)[j].1
                &&& run.written(2 * k + 1).subrange(32 * j, 32 * j + 32) == run.calls(
                    2 * k + 1,
                )[j].1@
            },
    decreases k,
{
    reveal_with_fuel(ServeRun::calls, 3);
    reveal_with_fuel(ServeRun::written, 3);
    if k > 0 {
        signer_answers_in_turn(run, agent, k - 1);
        signer_counts_calls(run, agent, k - 1);
        let reply = run.answers[2 * k - 1];
        assert(run.action(2 * k - 1) == ServeAction::<E>::Write(reply));
        assert(run.written(2 * k + 1) == run.written(2 * k - 1) + reply@);
        assert forall|j: int| 0 <= j < k implies {
            &&& run.events[2 * j + 1] == Served::<E>::Read((#[trigger] run.calls(2 * k + 1)[j]).0)
            &&& run.answers[2 * j + 1] == run.calls(2 * k + 1)[j].1
            &&& run.written(2 * k + 1).subrange(32 * j, 32 * j + 32) == run.calls(
                2 * k + 1,
            )[j].1@
        } by {
            if j < k - 1 {
                assert(run.calls(2 * k + 1)[j] == run.calls(2 * k - 1)[j]);
                assert(run.written(2 * k + 1).subrange(32 * j, 32 * j + 32) =~= run.written(
                    2 * k - 1,
                ).subrange(32 * j, 32 * j + 32));
            } else {
                assert(run.written(2 * k + 1).subrange(32 * j, 32 * j + 32) =~= reply@);
            }
        }
    }
}

/// A signer that reads `input` to its end, and whose replies can all be written, serves every whole
/// request in it: it returns well, has called its agent once for each 32 bytes of the input and no
/// more, in order, and has written what the calls returned, in order, and nothing else. What is left
/// of the input after the last whole request is dropped without an answer.
pub proof fn signer_serves_input<E, K: StaticKeyAgent + ?Sized>(
    run: ServeRun<E>,
    agent: &K,
    input: Seq<u8>,
)
    requires
        run.valid(agent),
        run.reads(input),
        run.events.last() matches Served::ReadFailed(kind, error) && kind
            == ReadErrorKind::UnexpectedEof,
    ensures
        run.action(run.events.len() - 1) == ServeAction::<E>::Return(Ok(())),
        ({
            let n = input.len() as int / 32;
            let calls = run.calls(run.events.len() as int);
            let written = run.written(run.events.len() as int);
            &&& calls.len() == n
            &&& written.len() == 32 * n
            &&& forall|j: int|
                0 <= j < n ==> {
                    &&& (#[trigger] calls[j]).0@ == input.subrange(32 * j, 32 * j + 32)
                    &&& call_ensures(K::diffie_hellman, (agent, &calls[j].0), calls[j].1)
                    &&& written.subrange(32 * j, 32 * j + 32) == calls[j].1@
                }
        }),
{
    let len = run.events.len() as int;
    let k = (len - 1) / 2;
    signer_answers_in_turn(run, agent, k);
    assert(len == 2 * k + 2);
    assert(run.events[2 * k + 1] is ReadFailed);
    signer_counts_calls(run, agent, k);
    assert(run.calls(len) == run.calls(2 * k + 1));
    assert(run.written(len) == run.written(2 * k + 1));
    if k > 0 {
        signer_answers_in_turn(run, agent, k - 1);
        assert(run.events[2 * (k - 1) + 1] is Read);
    }
    assert(k == input.len() as int / 32);
    assert forall|j: int| 0 <= j < k implies {
        &&& (#[trigger] run.calls(len)[j]).0@ == input.subrange(32 * j, 32 * j + 32)
        &&& call_ensures(
            K::diffie_hellman,
            (agent, &run.calls(len)[j].0),
            run.calls(len)[j].1,
        )
    } by {
        assert(run.events[2 * j + 1] == Served::<E>::Read(run.calls(len)[j].0));
    }
}

/// Nothing but the agent's answer to the request just read is ever written by a signer, and the
/// agent is asked about nothing but a whole request, whether the session ends well or not.
pub proof fn signer_writes_answers_only<E, K: StaticKeyAgent + ?Sized>(
    run: ServeRun<E>,
    agent: &K,
    i: int,
)
    requires
        run.valid(agent),
        0 <= i < run.events.len(),
        run.action(i) is Write,
    ensures
        run.events[i] matches Served::Read(peer_public) && call_ensures(
            K::diffie_hellman,
            (agent, &peer_public),
            run.action(i)->Write_0,
        ),
{
}

/// With an agent that holds its key itself, what a signer writes is the shared secret of that key
/// and the request just read: the private key never leaves it.
pub proof fn signer_writes_shared_secrets_only<E>(run: ServeRun<E>, agent: &KeyAgent, i: int)
    requires
        run.valid(agent),
        0 <= i < run.events.len(),
        run.action(i) is Write,
    ensures
        run.events[i] matches Served::Read(peer_public) && run.action(i)->Write_0@
            == crate::x25519::x25519_shared(agent.secret(), peer_public@),
{
    signer_writes_answers_only(run, agent, i);
}

/// A signer stops where its stream fails, and nowhere else. It stops well if and only if the peer
/// disconnected, and then every reply before that was written whole; any other failure to read, and
/// any failure to write, is what it returns.
pub proof fn signer_stops_with_stream<E, K: StaticKeyAgent + ?Sized>(
    run: ServeRun<E>,
    agent: &K,
    i: int,
)
    requires
        run.valid(agent),
        0 <= i < run.events.len(),
    ensures
        run.action(i) is Return <==> run.events[i] is ReadFailed || run.events[i] is WriteFailed,
        run.action(i) is Return ==> i == run.events.len() - 1,
        run.action(i) == ServeAction::<E>::Return(Ok(())) <==> (run.events[i] matches
            Served::ReadFailed(kind, error) && kind == ReadErrorKind::UnexpectedEof),
        run.action(i) == ServeAction::<E>::Return(Ok(())) ==> forall|j: int|
            0 < j < i && #[trigger] run.action(j - 1) is Write ==> run.events[j] is Wrote,
        match run.events[i] {
            Served::ReadFailed(ReadErrorKind::Other, error) => run.action(i)
                == ServeAction::<E>::Return(Err(error)),
            Served::WriteFailed(error) => run.action(i) == ServeAction::<E>::Return(Err(error)),
            _ => !(run.action(i) matches ServeAction::Return(Err(error))),
        },
{
    if run.action(i) is Return && i + 1 < run.events.len() {
        assert(outcome_of(run.action(i + 1 - 1), run.events[i + 1]));
    }
    assert forall|j: int| 0 < j < i && #[trigger] run.action(j - 1) is Write implies
        run.events[j] is Wrote by {
        assert(outcome_of(run.action(j - 1), run.events[j]));
        assert(outcome_of(run.action(j + 1 - 1), run.events[j + 1]));
    }
}

/// An exchange with a signer on a link in order is for the peer's key, which the client sends, and
/// ends with `DH(static_private, peer_public)`, though the client holds no private key.
pub proof fn exchange_through_signer<E>(agent: KeyAgent, peer_public: Key, reply: Key)
    requires
        call_ensures(KeyAgent::diffie_hellman, (&agent, &peer_public), reply),
    ensures
        link_step(Link::Idle, peer_public@, LinkEvent::Claimed(true)).1 == LinkStep::Send(
            peer_public@,
        ),
        serve_action(Served::<E>::Read(peer_public), reply) == ServeAction::<E>::Write(reply),
        exchange(Link::Idle, answered_exchange(peer_public, reply)) == (
            Link::Idle,
            crate::x25519::x25519_shared(agent.secret(), peer_public@),
        ),
{
    exchange_fails_closed(Link::Idle, answered_exchange(peer_public, reply));
}

/// An exchange for `peer_public` in which nothing fails and `reply` is read.
pub open spec fn answered_exchange(peer_public: Key, reply: Key) -> Exchange {
    Exchange { peer_public: peer_public@, claimed: true, written: 32, received: Some(reply) }
}

/// An exchange through a signer for the public key of an initiator ends with the secret that the
/// initiator computes from its own private key and the static public key: the two sides of a
/// handshake agree, with the static private key held by the signer alone.
pub proof fn handshake_sides_agree<E>(
    agent: KeyAgent,
    initiator: Seq<u8>,
    peer_public: Key,
    reply: Key,
)
    requires
        agent.wf(),
        initiator.len() == 32,
        peer_public@ == crate::x25519::x25519_public(initiator),
        call_ensures(KeyAgent::diffie_hellman, (&agent, &peer_public), reply),
    ensures
        exchange(Link::Idle, answered_exchange(peer_public, reply)).1
            == crate::x25519::x25519_shared(initiator, agent.public()),
{
    exchange_through_signer::<E>(agent, peer_public, reply);
}

/// Requests that were written stay written, in their order.
proof fn requests_grow(run: LinkRun, i: int, j: int)
    requires
        0 <= i <= j <= run.exchanges.len(),
    ensures
        run.requests(i).len() <= run.requests(j).len(),
        forall|k: int|
            0 <= k < run.requests(i).len() ==> run.requests(i)[k] == #[trigger] run.requests(j)[k],
    decreases j,
{
    if i < j {
        requests_grow(run, i, j - 1);
    }
}

/// Whether one stream joins a client's exchanges and a signer's session: the signer's requests are
/// the client's, in order, and each reply that the client reads is the first of the signer's that it
/// did not read before. Neither side need be done, and bytes may be long under way.
pub open spec fn joined<E>(link: LinkRun, serve: ServeRun<E>) -> bool {
    &&& forall|k: int|
        #![trigger serve.events[2 * k + 1]]
        0 <= k && 2 * k + 1 < serve.events.len() ==> (serve.events[2 * k + 1] matches Served::Read(
            peer_public,
        ) ==> {
            let requests = link.requests(link.exchanges.len() as int);
            k < requests.len() && peer_public@ == requests[k]
        })
    &&& forall|i: int|
        0 <= i < link.exchanges.len() && #[trigger] link.asks(i) ==> (
        link.exchanges[i].received matches Some(reply) ==> {
            let k = link.replies_read(i) as int;
            &&& 2 * k + 1 < serve.events.len()
            &&& serve.action(2 * k + 1) == ServeAction::<E>::Write(reply)
        })
}

/// Over a whole session of a client with a signer, whatever the signer's agent: an exchange that
/// does not fail, on a link that no earlier one broke, ends with what the agent's `diffie_hellman`
/// returned for the very key that the exchange is for. Every other exchange ends with zeros.
pub proof fn session_through_signer<E, K: StaticKeyAgent + ?Sized>(
    link: LinkRun,
    serve: ServeRun<E>,
    agent: &K,
    i: int,
)
    requires
        serve.valid(agent),
        joined(link, serve),
        0 <= i < link.exchanges.len(),
    ensures
        link.link(i) == Link::Idle && link.exchanges[i].succeeds() ==> {
            let k = link.replies_read(i) as int;
            &&& 2 * k + 1 < serve.events.len()
            &&& serve.events[2 * k + 1] matches Served::Read(peer_public) && {
                &&& peer_public@ == link.exchanges[i].peer_public
                &&& call_ensures(
                    K::diffie_hellman,
                    (agent, &peer_public),
                    serve.answers[2 * k + 1],
                )
                &&& link.result(i) == serve.answers[2 * k + 1]@
            }
        },
        !(link.link(i) == Link::Idle && link.exchanges[i].succeeds()) ==> link.result(i)
            == no_secret(),
{
    exchange_fails_closed(link.link(i), link.exchanges[i]);
    if link.link(i) == Link::Idle && link.exchanges[i].succeeds() {
        let k = link.replies_read(i) as int;
        one_request_and_one_reply(link.link(i), link.exchanges[i]);
        assert(link.asks(i));
        idle_link_owes_nothing(link, i);
        assert(link.requests(i + 1) == link.requests(i).push(link.exchanges[i].peer_public));
        requests_grow(link, i + 1, link.exchanges.len() as int);
        signer_writes_answers_only(serve, agent, 2 * k + 1);
        assert(link.requests(i + 1)[k] == link.exchanges[i].peer_public);
    }
}

} // verus!
