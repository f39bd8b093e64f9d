//! The channel protocol as a transition system: what a channel manager remembers, what it
//! is told, what it asks for, and how one leads to the other.
//!
//! The manager performs no input or output, runs no key agreement and does not encrypt. It is
//! told of an event, sends on the messages in its outbox (nobody waits for the result), and names one
//! action; the outcome of that action is the next event.

use vstd::prelude::*;
use crate::address::{channel_address, RouteView, RouterAddressView};
use crate::channel::{new_channel, ChannelView};
use crate::encoding::nonce_bytes;
use crate::error::{ChannelError, ChannelErrorKind};
use crate::message::{ChannelCommandView, MessageType, MessageView, RouterCommandView};

verus! {

// ---------------------------------------------------------------------------
// Events, actions, states
// ---------------------------------------------------------------------------

/// What a channel manager is told. `A` is a key agreement, `K` what it gives when it is
/// complete, `F` a failure of the key agreement or of the vault.
pub enum EventView<A, K, F> {
    /// Check for work to be done.
    Wake,
    /// The queue held this command.
    Command(ChannelCommandView),
    /// The queue is empty or closed.
    QueueEmpty,
    /// A new key agreement.
    Created(A),
    /// Whether the key agreement is complete.
    Checked(A, bool),
    /// What the key agreement made of the data.
    Processed(A, Result<Seq<u8>, F>),
    /// The keys from the key agreement.
    Finalized(A, Result<K, F>),
    /// What encryption under the keys made of the data.
    Encrypted(K, Result<Seq<u8>, F>),
    /// What decryption under the keys made of the data.
    Decrypted(K, Result<Seq<u8>, F>),
    /// Whether the router took the command.
    Sent(bool),
}

/// What a channel manager asks for.
pub enum ActionView<A, K, F> {
    /// Take the next command from the queue.
    Receive,
    /// Make a key agreement for the side that starts it.
    CreateInitiator,
    /// Make a key agreement for the side that answers.
    CreateResponder,
    /// Ask the key agreement whether it is complete, for a message with so many onward
    /// addresses.
    Check(A, nat),
    /// Let the key agreement process data.
    Process(A, Seq<u8>),
    /// Take the keys from the key agreement.
    Finalize(A),
    /// Encrypt data under the keys, with the bytes of a message number.
    Encrypt(K, Seq<u8>, Seq<u8>),
    /// Decrypt data under the keys, with the bytes of a message number.
    Decrypt(K, Seq<u8>, Seq<u8>),
    /// Give the router a command.
    Send(RouterCommandView),
    /// Work is done: report this.
    Return(Result<bool, ChannelError<F>>),
}

/// What a channel manager does on an event: commands for the router, then an action.
pub struct ReactionView<A, K, F> {
    pub outbox: Seq<RouterCommandView>,
    pub action: ActionView<A, K, F>,
}

/// What a channel manager is in the middle of.
pub enum PhaseView {
    /// Nothing.
    Idle,
    /// It waits for a command.
    Receiving,
    /// It wants to know whether channel `id` is ready to send on `message`.
    Checking { id: u32, message: MessageView },
    /// It waits for a key agreement for the new channel `id`, which `message` asked for.
    CreatingInitiator { id: u32, message: MessageView },
    /// It waits for the first message of the key agreement for the new channel `id`.
    Initiating { id: u32, message: MessageView },
    /// It waits for the first message of channel `id` to leave; whoever asked for the
    /// channel is at `back`.
    Announcing { id: u32, back: RouteView },
    /// It waits for a key agreement for the new channel `id`, to which `message` goes.
    CreatingResponder { id: u32, message: MessageView },
    /// It waits for the key agreement of channel `id` to process `message`.
    Processing { id: u32, message: MessageView },
    /// It waits for the keys of channel `id`, which `message` completes.
    Finalizing { id: u32, message: MessageView },
    /// It waits for the encrypted body of `message`, which goes through channel `id`.
    Encrypting { id: u32, message: MessageView },
    /// It waits for the decrypted body of `message`, which came through channel `id`.
    Decrypting { id: u32, message: MessageView },
    /// It waits for a message to leave.
    Sending,
}

/// What a channel manager remembers.
pub struct ManagerView<A, K> {
    pub channels: Map<u32, ChannelView<A, K>>,
    pub phase: PhaseView,
}

impl PhaseView {
    /// The channel whose key agreement is out, if any.
    pub open spec fn lent(self) -> Option<u32> {
        match self {
            PhaseView::Checking { id, message } => Some(id),
            PhaseView::Processing { id, message } => Some(id),
            PhaseView::Finalizing { id, message } => Some(id),
            _ => None,
        }
    }

    /// The channel whose keys are out, if any.
    pub open spec fn keys_lent(self) -> Option<u32> {
        match self {
            PhaseView::Encrypting { id, message } => Some(id),
            PhaseView::Decrypting { id, message } => Some(id),
            _ => None,
        }
    }

    /// What holds of the message that a phase keeps.
    pub open spec fn wf(self) -> bool {
        match self {
            PhaseView::Checking { id, message } => message.onward_route.len() > 0,
            PhaseView::CreatingInitiator { id, message } => message.onward_route.len() > 0,
            PhaseView::Initiating { id, message } => message.onward_route.len() > 0,
            PhaseView::CreatingResponder { id, message } => message.onward_route.len() > 0,
            PhaseView::Processing { id, message } => {
                message.onward_route.len() > 0 && is_key_agreement(message.message_type)
            },
            PhaseView::Finalizing { id, message } => {
                message.message_type is KeyAgreementM2 || message.message_type is KeyAgreementM3
            },
            PhaseView::Encrypting { id, message } => message.onward_route.len() >= 2,
            PhaseView::Decrypting { id, message } => message.onward_route.len() > 0,
            _ => true,
        }
    }
}

impl<A, K> ManagerView<A, K> {
    /// The invariant. Every channel is kept under its own identifier and has its key
    /// agreement at hand, except the one that is being worked with; keys that are being worked
    /// with are not at hand; what waits on a channel is an empty notice; a message is encrypted
    /// only while there are numbers left; a channel that has been announced is kept.
    pub open spec fn wf(self) -> bool {
        &&& self.phase.wf()
        &&& forall|id: u32| #[trigger]
            self.channels.contains_key(id) ==> {
                &&& self.channels[id].id == id
                &&& self.channels[id].agreement is Some <==> self.phase.lent() != Some(id)
                &&& self.channels[id].pending matches Some(p) ==> is_notice(p)
            }
        &&& self.phase.lent() matches Some(id) ==> self.channels.contains_key(id)
        &&& self.phase.keys_lent() matches Some(id) ==> self.channels.contains_key(id)
            && self.channels[id].completed_key_exchange is None
        &&& self.phase matches PhaseView::Encrypting { id, message } ==> self.channels[id].nonce
            < u16::MAX
        &&& self.phase matches PhaseView::Announcing { id, back } ==> self.channels.contains_key(id)
    }

    /// Whether the event is the outcome of what the manager asked for last. A message for a
    /// channel that is ready must name the address behind the channel.
    pub open spec fn expects<F>(self, event: EventView<A, K, F>) -> bool {
        match self.phase {
            PhaseView::Idle => event is Wake,
            PhaseView::Receiving => event is Command || event is QueueEmpty,
            PhaseView::Checking { id, message } => {
                event matches EventView::Checked(agreement, complete) && (complete
                    ==> message.onward_route.len() >= 2)
            },
            PhaseView::CreatingInitiator { id, message } => event is Created,
            PhaseView::Initiating { id, message } => event is Processed,
            PhaseView::Announcing { id, back } => event is Sent,
            PhaseView::CreatingResponder { id, message } => event is Created,
            PhaseView::Processing { id, message } => event is Processed,
            PhaseView::Finalizing { id, message } => event is Finalized,
            PhaseView::Encrypting { id, message } => event is Encrypted,
            PhaseView::Decrypting { id, message } => event is Decrypted,
            PhaseView::Sending => event is Sent,
        }
    }

    /// The channel that an address names, if it is kept.
    pub open spec fn lookup(self, a: RouterAddressView) -> Option<u32> {
        match a.address.channel_id() {
            Some(id) => if self.channels.contains_key(id) {
                Some(id)
            } else {
                None
            },
            None => None,
        }
    }

    /// The manager with another channel under the channel's identifier.
    pub open spec fn with(self, channel: ChannelView<A, K>) -> Self {
        ManagerView { channels: self.channels.insert(channel.id, channel), ..self }
    }

    /// The manager with the key agreement of a channel given out or taken back.
    pub open spec fn with_agreement(self, id: u32, agreement: Option<A>) -> Self {
        self.with(ChannelView { agreement, ..self.channels[id] })
    }

    /// The manager with the keys of a channel given out or taken back.
    pub open spec fn with_keys(self, id: u32, keys: Option<K>) -> Self {
        self.with(ChannelView { completed_key_exchange: keys, ..self.channels[id] })
    }

    /// The manager in another phase.
    pub open spec fn at(self, phase: PhaseView) -> Self {
        ManagerView { phase, ..self }
    }
}

/// Whether a message belongs to a key agreement.
pub open spec fn is_key_agreement(t: MessageType) -> bool {
    t is KeyAgreementM1 || t is KeyAgreementM2 || t is KeyAgreementM3
}

/// Whether a message is an empty notice.
pub open spec fn is_notice(m: MessageView) -> bool {
    m.message_type is Empty && m.message_body == Seq::<u8>::empty()
}

/// Whether a message to a channel that is not kept opens one. The body of that message goes
/// nowhere: what leaves is the first message of a key agreement, and what waits on the channel
/// is an empty notice. A worker that has something to say keeps it until it is told.
pub open spec fn opens_channel(t: MessageType) -> bool {
    t is Empty || t is Payload
}

// ---------------------------------------------------------------------------
// Messages that the protocol makes
// ---------------------------------------------------------------------------

/// The first message of a key agreement: it goes the way of the message that asked for the
/// channel, past the address that stood for the channel, to a new channel at the far end;
/// answers come back to channel `id`.
pub open spec fn m1_message(asked: MessageView, id: u32, body: Seq<u8>) -> MessageView {
    MessageView {
        onward_route: asked.onward_route.drop_first().push(channel_address(0)),
        return_route: seq![channel_address(id)] + asked.return_route,
        message_type: MessageType::KeyAgreementM1,
        message_body: body,
    }
}

/// The second message of a key agreement, from channel `id` back to where the first came from.
pub open spec fn m2_message(m1: MessageView, id: u32, body: Seq<u8>) -> MessageView {
    MessageView {
        onward_route: m1.return_route,
        return_route: seq![channel_address(id)],
        message_type: MessageType::KeyAgreementM2,
        message_body: body,
    }
}

/// The third message of a key agreement, back to where the second came from, from the
/// address that the second was sent to.
pub open spec fn m3_message(m2: MessageView, body: Seq<u8>) -> MessageView {
    MessageView {
        onward_route: m2.return_route,
        return_route: seq![m2.onward_route[0]],
        message_type: MessageType::KeyAgreementM3,
        message_body: body,
    }
}

/// The message that waits on a new channel `id`: an empty one to whoever asked for it.
pub open spec fn channel_notice(back: RouteView, id: u32) -> MessageView {
    MessageView {
        onward_route: back,
        return_route: seq![channel_address(id)],
        message_type: MessageType::Empty,
        message_body: Seq::empty(),
    }
}

/// The routes of a message sent through a channel: it takes the channel's route to the other
/// end, then goes to the address named behind the channel; answers come back through the channel.
pub open spec fn through_channel(m: MessageView, route: RouteView) -> MessageView {
    MessageView {
        onward_route: route.push(m.onward_route[1]),
        return_route: seq![m.onward_route[0]] + m.return_route,
        ..m
    }
}

/// A message as it travels between the two ends of a channel: its body is the number of the
/// message, then the encrypted body `sealed`.
pub open spec fn encrypted_message(
    m: MessageView,
    route: RouteView,
    nonce: u16,
    sealed: Seq<u8>,
) -> MessageView {
    MessageView { message_body: nonce_bytes(nonce) + sealed, ..through_channel(m, route) }
}

/// The routes of a message that has come out of the channel at the head of its onward route.
pub open spec fn out_of_channel(m: MessageView) -> MessageView {
    MessageView { onward_route: m.onward_route.drop_first(), ..m }
}

// ---------------------------------------------------------------------------
// Transitions
// ---------------------------------------------------------------------------

/// A manager and what it does.
pub type Outcome<A, K, F> = (ManagerView<A, K>, ReactionView<A, K, F>);

/// Ask for `action`, with nothing else to send.
pub open spec fn ask<A, K, F>(
    s: ManagerView<A, K>,
    phase: PhaseView,
    action: ActionView<A, K, F>,
) -> Outcome<A, K, F> {
    (s.at(phase), ReactionView { outbox: Seq::empty(), action })
}

/// Send `outbox` and go on with the next command.
pub open spec fn go_on<A, K, F>(
    s: ManagerView<A, K>,
    outbox: Seq<RouterCommandView>,
) -> Outcome<A, K, F> {
    (s.at(PhaseView::Receiving), ReactionView { outbox, action: ActionView::Receive })
}

/// Give up with an error of the given kind.
pub open spec fn fail<A, K, F>(s: ManagerView<A, K>, kind: ChannelErrorKind<F>) -> Outcome<
    A,
    K,
    F,
> {
    ask(s, PhaseView::Idle, ActionView::Return(Err(ChannelError { kind })))
}

/// Everything is done that could be.
pub open spec fn done<A, K, F>(s: ManagerView<A, K>) -> Outcome<A, K, F> {
    ask(s, PhaseView::Idle, ActionView::Return(Ok(true)))
}

/// A new channel `id` has been asked for by `message`.
pub open spec fn initiate<A, K, F>(
    s: ManagerView<A, K>,
    message: MessageView,
    id: u32,
) -> Outcome<A, K, F> {
    ask(s, PhaseView::CreatingInitiator { id, message }, ActionView::CreateInitiator)
}

/// A new channel `id` is to answer `message`.
pub open spec fn respond<A, K, F>(s: ManagerView<A, K>, message: MessageView, id: u32) -> Outcome<
    A,
    K,
    F,
> {
    ask(s, PhaseView::CreatingResponder { id, message }, ActionView::CreateResponder)
}

/// A worker sends `m`. `id` is the identifier for a new channel, if there is to be one.
pub open spec fn send_step<A, K, F>(s: ManagerView<A, K>, m: MessageView, id: u32) -> Outcome<
    A,
    K,
    F,
> {
    if m.onward_route.len() == 0 {
        fail(s, ChannelErrorKind::CantSend)
    } else {
        match s.lookup(m.onward_route[0]) {
            Some(known) => ask(
                s.with_agreement(known, None),
                PhaseView::Checking { id: known, message: m },
                ActionView::Check(s.channels[known].agreement->0, m.onward_route.len()),
            ),
            None => if opens_channel(m.message_type) {
                initiate(s, m, id)
            } else {
                fail(s, ChannelErrorKind::State)
            },
        }
    }
}

/// It is known whether the key agreement of channel `id` is complete, for `m` to go through: if
/// not, `m` is dropped. What goes through is encrypted first; without keys, or when the channel
/// has used up its message numbers, nothing does.
pub open spec fn checked_step<A, K, F>(
    s: ManagerView<A, K>,
    id: u32,
    m: MessageView,
    agreement: A,
    complete: bool,
) -> Outcome<A, K, F> {
    let t = s.with_agreement(id, Some(agreement));
    let channel = s.channels[id];
    if !complete {
        go_on(t, Seq::empty())
    } else {
        match channel.completed_key_exchange {
            Some(keys) => if channel.nonce < u16::MAX {
                ask(
                    t.with_keys(id, None),
                    PhaseView::Encrypting { id, message: m },
                    ActionView::Encrypt(keys, nonce_bytes(channel.nonce), m.message_body),
                )
            } else {
                fail(t, ChannelErrorKind::State)
            },
            None => fail(t, ChannelErrorKind::State),
        }
    }
}

/// The body of `m`, which goes through channel `id`, has been encrypted or could not be. What
/// encryption made of it is sent, under the number that it was encrypted with.
pub open spec fn encrypted_step<A, K, F>(
    s: ManagerView<A, K>,
    id: u32,
    m: MessageView,
    keys: K,
    result: Result<Seq<u8>, F>,
) -> Outcome<A, K, F> {
    let channel = s.channels[id];
    match result {
        Ok(sealed) => ask(
            s.with(
                ChannelView {
                    completed_key_exchange: Some(keys),
                    nonce: (channel.nonce + 1) as u16,
                    ..channel
                },
            ),
            PhaseView::Sending,
            ActionView::Send(
                RouterCommandView::SendMessage(
                    encrypted_message(m, channel.route, channel.nonce, sealed),
                ),
            ),
        ),
        Err(failure) => fail(s.with_keys(id, Some(keys)), ChannelErrorKind::Cipher(failure)),
    }
}

/// The key agreement of a new channel has made its first message, or has failed.
pub open spec fn initiated_step<A, K, F>(
    s: ManagerView<A, K>,
    id: u32,
    asked: MessageView,
    agreement: A,
    result: Result<Seq<u8>, F>,
) -> Outcome<A, K, F> {
    match result {
        Ok(body) => ask(
            s.with(new_channel(id, agreement)),
            PhaseView::Announcing { id, back: asked.return_route },
            ActionView::Send(RouterCommandView::SendMessage(m1_message(asked, id, body))),
        ),
        Err(failure) => fail(s, ChannelErrorKind::KeyAgreement(failure)),
    }
}

/// The first message of a new channel has left, or could not.
pub open spec fn announced_step<A, K, F>(
    s: ManagerView<A, K>,
    id: u32,
    back: RouteView,
    sent: bool,
) -> Outcome<A, K, F> {
    if sent {
        go_on(
            s.with(ChannelView { pending: Some(channel_notice(back, id)), ..s.channels[id] }),
            Seq::empty(),
        )
    } else {
        fail(s, ChannelErrorKind::CantSend)
    }
}

/// A message `m` has come in for channel `id`. The body of a payload begins with the two bytes
/// of its number, and the rest is encrypted; on a channel without keys it is handed on as it is.
pub open spec fn deliver<A, K, F>(s: ManagerView<A, K>, id: u32, m: MessageView) -> Outcome<
    A,
    K,
    F,
> {
    if is_key_agreement(m.message_type) {
        ask(
            s.with_agreement(id, None),
            PhaseView::Processing { id, message: m },
            ActionView::Process(s.channels[id].agreement->0, m.message_body),
        )
    } else if m.message_type is Payload {
        if m.message_body.len() < 2 {
            fail(s, ChannelErrorKind::RecvError)
        } else {
            match s.channels[id].completed_key_exchange {
                Some(keys) => ask(
                    s.with_keys(id, None),
                    PhaseView::Decrypting { id, message: m },
                    ActionView::Decrypt(keys, m.message_body.take(2), m.message_body.skip(2)),
                ),
                None => ask(
                    s,
                    PhaseView::Sending,
                    ActionView::Send(RouterCommandView::ReceiveMessage(out_of_channel(m))),
                ),
            }
        }
    } else {
        go_on(s, Seq::empty())
    }
}

/// The body of `m`, which came through channel `id`, has been decrypted or could not be.
pub open spec fn decrypted_step<A, K, F>(
    s: ManagerView<A, K>,
    id: u32,
    m: MessageView,
    keys: K,
    result: Result<Seq<u8>, F>,
) -> Outcome<A, K, F> {
    let t = s.with_keys(id, Some(keys));
    match result {
        Ok(plain) => ask(
            t,
            PhaseView::Sending,
            ActionView::Send(
                RouterCommandView::ReceiveMessage(
                    MessageView { message_body: plain, ..out_of_channel(m) },
                ),
            ),
        ),
        Err(failure) => fail(t, ChannelErrorKind::Cipher(failure)),
    }
}

/// A message `m` has come in. `id` is the identifier for a new channel, if there is to be one.
pub open spec fn recv_step<A, K, F>(s: ManagerView<A, K>, m: MessageView, id: u32) -> Outcome<
    A,
    K,
    F,
> {
    if m.onward_route.len() == 0 {
        fail(s, ChannelErrorKind::RecvError)
    } else if m.onward_route[0].address.text() == "00000000"@ {
        respond(s, m, id)
    } else {
        match s.lookup(m.onward_route[0]) {
            Some(known) => deliver(s, known, m),
            None => go_on(s, Seq::empty()),
        }
    }
}

/// The key agreement of channel `id` has processed `m`.
pub open spec fn processed_step<A, K, F>(
    s: ManagerView<A, K>,
    id: u32,
    m: MessageView,
    agreement: A,
    result: Result<Seq<u8>, F>,
) -> Outcome<A, K, F> {
    let t = s.with_agreement(id, Some(agreement));
    match result {
        Ok(body) => if m.message_type is KeyAgreementM1 {
            go_on(t, seq![RouterCommandView::SendMessage(m2_message(m, id, body))])
        } else if m.message_type is KeyAgreementM2 {
            (
                s.at(PhaseView::Finalizing { id, message: m }),
                ReactionView {
                    outbox: seq![RouterCommandView::SendMessage(m3_message(m, body))],
                    action: ActionView::Finalize(agreement),
                },
            )
        } else if s.channels[id].completed_key_exchange is None {
            ask(s, PhaseView::Finalizing { id, message: m }, ActionView::Finalize(agreement))
        } else {
            go_on(t, Seq::empty())
        },
        Err(failure) => fail(t, ChannelErrorKind::KeyAgreement(failure)),
    }
}

/// The key agreement of channel `id`, completed by `m`, has given its keys, or has failed to.
/// The channel now leads to where `m` came from. On the side that started it, whoever waits
/// is told of the channel; on the other side, what waits is sent.
pub open spec fn finalized_step<A, K, F>(
    s: ManagerView<A, K>,
    id: u32,
    m: MessageView,
    agreement: A,
    result: Result<K, F>,
) -> Outcome<A, K, F> {
    match result {
        Ok(keys) => {
            let before = s.channels[id];
            let ready = ChannelView {
                agreement: Some(agreement),
                completed_key_exchange: Some(keys),
                route: m.return_route,
                ..before
            };
            if m.message_type is KeyAgreementM2 {
                match before.pending {
                    Some(p) => go_on(
                        s.with(ready),
                        seq![
                            RouterCommandView::ReceiveMessage(
                                MessageView { return_route: seq![channel_address(id)], ..p },
                            ),
                        ],
                    ),
                    None => go_on(s.with(ready), Seq::empty()),
                }
            } else {
                match before.pending {
                    Some(p) => go_on(
                        s.with(ChannelView { pending: None, ..ready }),
                        seq![RouterCommandView::SendMessage(p)],
                    ),
                    None => go_on(s.with(ready), Seq::empty()),
                }
            }
        },
        Err(failure) => fail(
            s.with_agreement(id, Some(agreement)),
            ChannelErrorKind::KeyAgreement(failure),
        ),
    }
}

/// A command has been taken from the queue.
pub open spec fn command_step<A, K, F>(
    s: ManagerView<A, K>,
    command: ChannelCommandView,
    id: u32,
) -> Outcome<A, K, F> {
    match command {
        ChannelCommandView::Stop => done(ManagerView { channels: Map::empty(), ..s }),
        ChannelCommandView::SendMessage(m) => send_step(s, m, id),
        ChannelCommandView::ReceiveMessage(m) => recv_step(s, m, id),
        ChannelCommandView::Foreign => fail(s, ChannelErrorKind::InvalidParam(0)),
    }
}

/// What a manager becomes and does on an event that it expects. `id` is the identifier for a
/// new channel, if there is to be one.
pub open spec fn step<A, K, F>(s: ManagerView<A, K>, event: EventView<A, K, F>, id: u32) -> Outcome<
    A,
    K,
    F,
> {
    match (s.phase, event) {
        (PhaseView::Idle, EventView::Wake) => go_on(s, Seq::empty()),
        (PhaseView::Receiving, EventView::Command(command)) => command_step(s, command, id),
        (PhaseView::Receiving, EventView::QueueEmpty) => done(s),
        (PhaseView::Checking { id: known, message }, EventView::Checked(agreement, complete)) => {
            checked_step(s, known, message, agreement, complete)
        },
        (PhaseView::CreatingInitiator { id: new, message }, EventView::Created(agreement)) => ask(
            s,
            PhaseView::Initiating { id: new, message },
            ActionView::Process(agreement, Seq::empty()),
        ),
        (PhaseView::Initiating { id: new, message }, EventView::Processed(agreement, result)) => {
            initiated_step(s, new, message, agreement, result)
        },
        (PhaseView::Announcing { id: new, back }, EventView::Sent(sent)) => {
            announced_step(s, new, back, sent)
        },
        (PhaseView::CreatingResponder { id: new, message }, EventView::Created(agreement)) => {
            deliver(s.with(new_channel(new, agreement)), new, message)
        },
        (PhaseView::Processing { id: known, message }, EventView::Processed(agreement, result)) => {
            processed_step(s, known, message, agreement, result)
        },
        (PhaseView::Finalizing { id: known, message }, EventView::Finalized(agreement, result)) => {
            finalized_step(s, known, message, agreement, result)
        },
        (PhaseView::Encrypting { id: known, message }, EventView::Encrypted(keys, result)) => {
            encrypted_step(s, known, message, keys, result)
        },
        (PhaseView::Decrypting { id: known, message }, EventView::Decrypted(keys, result)) => {
            decrypted_step(s, known, message, keys, result)
        },
        (PhaseView::Sending, EventView::Sent(sent)) => if sent {
            go_on(s, Seq::empty())
        } else {
            fail(s, ChannelErrorKind::CantSend)
        },
        _ => arbitrary(),
    }
}

} // verus!
