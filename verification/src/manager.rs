//! The channel manager.

use std::collections::BTreeMap;
use vstd::prelude::*;
use vstd::std_specs::iter::IteratorSpec;
use crate::address::{Address, AddressType, Route, RouterAddress};
use crate::address;
use crate::channel::{Channel, ChannelView};
use crate::encoding::{hex_encode, le_bytes_of, nonce_bytes_of};
use crate::encoding;
use crate::error::{ChannelError, ChannelErrorKind};
use crate::message::{
    ChannelCommand,
    Message,
    MessageType,
    OckamCommand,
    RouterCommand,
    RouterCommandView,
};
use crate::protocol::{ActionView, EventView, ManagerView, PhaseView, ReactionView};
use crate::protocol;

verus! {

// ---------------------------------------------------------------------------
// Events and actions
// ---------------------------------------------------------------------------

/// What a channel manager is told. `A` is a key agreement, `K` what it gives when it is
/// complete, `F` a failure of the key agreement or of the vault.
pub enum ChannelEvent<A, K, F> {
    /// Check for work to be done.
    Wake,
    /// The queue held this command.
    Command(OckamCommand),
    /// The queue is empty or closed.
    QueueEmpty,
    /// A new key agreement.
    Created(A),
    /// Whether the key agreement is complete.
    Checked(A, bool),
    /// What the key agreement made of the data.
    Processed(A, Result<Vec<u8>, F>),
    /// The keys from the key agreement.
    Finalized(A, Result<K, F>),
    /// What encryption under the keys made of the data.
    Encrypted(K, Result<Vec<u8>, F>),
    /// What decryption under the keys made of the data.
    Decrypted(K, Result<Vec<u8>, F>),
    /// Whether the router took the command.
    Sent(bool),
}

/// What a channel manager asks for.
pub enum ChannelAction<A, K, F> {
    /// Take the next command from the queue.
    Receive,
    /// Make a key agreement for the side that starts it.
    CreateInitiator,
    /// Make a key agreement for the side that answers.
    CreateResponder,
    /// Ask the key agreement whether it is complete, for a message with `hops` onward
    /// addresses. A complete one can serve only a message with two or more.
    Check { agreement: A, hops: usize },
    /// Let the key agreement process the data.
    Process { agreement: A, data: Vec<u8> },
    /// Take the keys from the key agreement.
    Finalize { agreement: A },
    /// Encrypt the data under the keys, with the bytes of a message number.
    Encrypt { keys: K, nonce: Vec<u8>, data: Vec<u8> },
    /// Decrypt the data under the keys, with the bytes of a message number.
    Decrypt { keys: K, nonce: Vec<u8>, data: Vec<u8> },
    /// Give the router a command.
    Send(RouterCommand),
    /// Work is done: report this.
    Return(Result<bool, ChannelError<F>>),
}

/// What a channel manager does on an event: it sends the commands in the outbox to the
/// router, whatever becomes of them, and then asks for an action.
pub struct Reaction<A, K, F> {
    pub outbox: Vec<RouterCommand>,
    pub action: ChannelAction<A, K, F>,
}

/// What an outside call has given.
pub open spec fn view_result<F>(result: Result<Vec<u8>, F>) -> Result<Seq<u8>, F> {
    match result {
        Ok(data) => Ok(data@),
        Err(failure) => Err(failure),
    }
}

impl<A, K, F> View for ChannelEvent<A, K, F> {
    type V = EventView<A, K, F>;

    open spec fn view(&self) -> EventView<A, K, F> {
        match self {
            ChannelEvent::Wake => EventView::Wake,
            ChannelEvent::Command(command) => EventView::Command(command.to_channel()),
            ChannelEvent::QueueEmpty => EventView::QueueEmpty,
            ChannelEvent::Created(agreement) => EventView::Created(*agreement),
            ChannelEvent::Checked(agreement, complete) => EventView::Checked(*agreement, *complete),
            ChannelEvent::Processed(agreement, result) => EventView::Processed(
                *agreement,
                view_result(*result),
            ),
            ChannelEvent::Finalized(agreement, result) => EventView::Finalized(*agreement, *result),
            ChannelEvent::Encrypted(keys, result) => EventView::Encrypted(
                *keys,
                view_result(*result),
            ),
            ChannelEvent::Decrypted(keys, result) => EventView::Decrypted(
                *keys,
                view_result(*result),
            ),
            ChannelEvent::Sent(sent) => EventView::Sent(*sent),
        }
    }
}

impl<A, K, F> View for ChannelAction<A, K, F> {
    type V = ActionView<A, K, F>;

    open spec fn view(&self) -> ActionView<A, K, F> {
        match self {
            ChannelAction::Receive => ActionView::Receive,
            ChannelAction::CreateInitiator => ActionView::CreateInitiator,
            ChannelAction::CreateResponder => ActionView::CreateResponder,
            ChannelAction::Check { agreement, hops } => ActionView::Check(*agreement, *hops as nat),
            ChannelAction::Process { agreement, data } => ActionView::Process(*agreement, data@),
            ChannelAction::Finalize { agreement } => ActionView::Finalize(*agreement),
            ChannelAction::Encrypt { keys, nonce, data } => {
                ActionView::Encrypt(*keys, nonce@, data@)
            },
            ChannelAction::Decrypt { keys, nonce, data } => {
                ActionView::Decrypt(*keys, nonce@, data@)
            },
            ChannelAction::Send(command) => ActionView::Send(command@),
            ChannelAction::Return(result) => ActionView::Return(*result),
        }
    }
}

impl<A, K, F> View for Reaction<A, K, F> {
    type V = ReactionView<A, K, F>;

    open spec fn view(&self) -> ReactionView<A, K, F> {
        ReactionView {
            outbox: self.outbox@.map_values(|c: RouterCommand| c@),
            action: self.action@,
        }
    }
}

/// What a manager is told and what it asks for is shown whole: every command in the outbox, in
/// order, and every datum of an event and of an action.
pub proof fn law_exchange_is_shown_whole<A, K, F>(
    event: ChannelEvent<A, K, F>,
    reaction: Reaction<A, K, F>,
    i: int,
)
    ensures
        reaction@.outbox.len() == reaction.outbox@.len(),
        0 <= i < reaction.outbox@.len() ==> reaction@.outbox[i] == reaction.outbox@[i]@,
        match reaction.action {
            ChannelAction::Receive => reaction@.action is Receive,
            ChannelAction::CreateInitiator => reaction@.action is CreateInitiator,
            ChannelAction::CreateResponder => reaction@.action is CreateResponder,
            ChannelAction::Check { agreement, hops } => {
                reaction@.action matches ActionView::Check(a, n) && a == agreement && n == hops
            },
            ChannelAction::Process { agreement, data } => {
                reaction@.action matches ActionView::Process(a, d) && a == agreement && d == data@
            },
            ChannelAction::Finalize { agreement } => {
                reaction@.action matches ActionView::Finalize(a) && a == agreement
            },
            ChannelAction::Encrypt { keys, nonce, data } => {
                reaction@.action matches ActionView::Encrypt(k, n, d) && k == keys && n == nonce@
                    && d == data@
            },
            ChannelAction::Decrypt { keys, nonce, data } => {
                reaction@.action matches ActionView::Decrypt(k, n, d) && k == keys && n == nonce@
                    && d == data@
            },
            ChannelAction::Send(command) => {
                reaction@.action matches ActionView::Send(c) && c == command@
            },
            ChannelAction::Return(result) => {
                reaction@.action matches ActionView::Return(r) && r == result
            },
        },
        match event {
            ChannelEvent::Wake => event@ is Wake,
            ChannelEvent::Command(command) => {
                event@ matches EventView::Command(c) && c == command.to_channel()
            },
            ChannelEvent::QueueEmpty => event@ is QueueEmpty,
            ChannelEvent::Created(agreement) => {
                event@ matches EventView::Created(a) && a == agreement
            },
            ChannelEvent::Checked(agreement, complete) => {
                event@ matches EventView::Checked(a, c) && a == agreement && c == complete
            },
            ChannelEvent::Processed(agreement, result) => {
                &&& event@ matches EventView::Processed(a, r) && a == agreement
                &&& result matches Ok(data) ==> event@->Processed_1 == Ok::<Seq<u8>, F>(data@)
                &&& result matches Err(f) ==> event@->Processed_1 == Err::<Seq<u8>, F>(f)
            },
            ChannelEvent::Finalized(agreement, result) => {
                event@ matches EventView::Finalized(a, r) && a == agreement && r == result
            },
            ChannelEvent::Encrypted(keys, result) => {
                &&& event@ matches EventView::Encrypted(k, r) && k == keys
                &&& result matches Ok(data) ==> event@->Encrypted_1 == Ok::<Seq<u8>, F>(data@)
                &&& result matches Err(f) ==> event@->Encrypted_1 == Err::<Seq<u8>, F>(f)
            },
            ChannelEvent::Decrypted(keys, result) => {
                &&& event@ matches EventView::Decrypted(k, r) && k == keys
                &&& result matches Ok(data) ==> event@->Decrypted_1 == Ok::<Seq<u8>, F>(data@)
                &&& result matches Err(f) ==> event@->Decrypted_1 == Err::<Seq<u8>, F>(f)
            },
            ChannelEvent::Sent(sent) => event@ matches EventView::Sent(b) && b == sent,
        },
{
}

impl<A, K, F> Reaction<A, K, F> {
    /// An action, with nothing else to send.
    fn only(action: ChannelAction<A, K, F>) -> (reaction: Self)
        ensures
            reaction@ == (ReactionView { outbox: Seq::empty(), action: action@ }),
    {
        let reaction = Reaction { outbox: Vec::new(), action };
        assert(reaction@.outbox =~= Seq::empty());
        reaction
    }

    /// One command to send, and an action.
    fn with(command: RouterCommand, action: ChannelAction<A, K, F>) -> (reaction: Self)
        ensures
            reaction@ == (ReactionView { outbox: seq![command@], action: action@ }),
    {
        let reaction = Reaction { outbox: vec![command], action };
        assert(reaction@.outbox =~= seq![command@]);
        reaction
    }
}

// ---------------------------------------------------------------------------
// State
// ---------------------------------------------------------------------------

/// What a channel manager is in the middle of.
enum Phase {
    Idle,
    Receiving,
    Checking { id: u32, message: Message },
    CreatingInitiator { id: u32, message: Message },
    Initiating { id: u32, message: Message },
    Announcing { id: u32, back: Route },
    CreatingResponder { id: u32, message: Message },
    Processing { id: u32, message: Message },
    Finalizing { id: u32, message: Message },
    Encrypting { id: u32, message: Message },
    Decrypting { id: u32, message: Message },
    Sending,
}

impl View for Phase {
    type V = PhaseView;

    closed spec fn view(&self) -> PhaseView {
        match self {
            Phase::Idle => PhaseView::Idle,
            Phase::Receiving => PhaseView::Receiving,
            Phase::Checking { id, message } => PhaseView::Checking { id: *id, message: message@ },
            Phase::CreatingInitiator { id, message } => {
                PhaseView::CreatingInitiator { id: *id, message: message@ }
            },
            Phase::Initiating { id, message } => {
                PhaseView::Initiating { id: *id, message: message@ }
            },
            Phase::Announcing { id, back } => PhaseView::Announcing { id: *id, back: back@ },
            Phase::CreatingResponder { id, message } => {
                PhaseView::CreatingResponder { id: *id, message: message@ }
            },
            Phase::Processing { id, message } => {
                PhaseView::Processing { id: *id, message: message@ }
            },
            Phase::Finalizing { id, message } => {
                PhaseView::Finalizing { id: *id, message: message@ }
            },
            Phase::Encrypting { id, message } => {
                PhaseView::Encrypting { id: *id, message: message@ }
            },
            Phase::Decrypting { id, message } => {
                PhaseView::Decrypting { id: *id, message: message@ }
            },
            Phase::Sending => PhaseView::Sending,
        }
    }
}

/// A Channel Manager creates secure channels on demand. It keeps them with their key
/// agreements `A`, which give the keys `K` under which messages are encrypted.
pub struct ChannelManager<A, K> {
    channels: BTreeMap<u32, Channel<A, K>>,
    phase: Phase,
}

impl<A, K> View for ChannelManager<A, K> {
    type V = ManagerView<A, K>;

    closed spec fn view(&self) -> ManagerView<A, K> {
        ManagerView {
            channels: self.channels@.map_values(|c: Channel<A, K>| c@),
            phase: self.phase@,
        }
    }
}

/// Draws an identifier with `rand::Rng::gen` from `rand::thread_rng`. Nothing is claimed of it:
/// any number may come. Where the system has no randomness to give, `thread_rng` panics; that
/// depends on no argument, so nothing here can rule it out.
#[verifier::external_body]
fn random_channel_id() -> u32 {
    rand::Rng::gen::<u32>(&mut rand::thread_rng())
}

impl<A, K> ChannelManager<A, K> {
    /// The channel kept under `id`, out of the manager.
    fn take_channel(&mut self, id: u32) -> (channel: Channel<A, K>)
        requires
            old(self)@.channels.contains_key(id),
        ensures
            channel@ == old(self)@.channels[id],
            final(self)@ == (ManagerView {
                channels: old(self)@.channels.remove(id),
                ..old(self)@
            }),
    {
        let channel = self.channels.remove(&id);
        assert(self@.channels =~= old(self)@.channels.remove(id));
        channel.unwrap()
    }

    /// Keeps a channel under its identifier.
    fn put_channel(&mut self, channel: Channel<A, K>)
        ensures
            final(self)@ == old(self)@.with(channel@),
    {
        let id: u32 = channel.id;
        self.channels.insert(id, channel);
        assert(self@.channels =~= old(self)@.channels.insert(channel@.id, channel@));
    }

    /// The key agreement of a channel, out of the channel.
    fn lend_agreement(&mut self, id: u32) -> (agreement: A)
        requires
            old(self)@.channels.contains_key(id),
            old(self)@.channels[id].id == id,
            old(self)@.channels[id].agreement is Some,
        ensures
            Some(agreement) == old(self)@.channels[id].agreement,
            final(self)@ == old(self)@.with_agreement(id, None),
    {
        let mut channel = self.take_channel(id);
        let agreement = channel.agreement.take();
        self.put_channel(channel);
        assert(self@.channels =~= old(self)@.with_agreement(id, None).channels);
        agreement.unwrap()
    }

    /// Gives a channel its key agreement back.
    fn return_agreement(&mut self, id: u32, agreement: A)
        requires
            old(self)@.channels.contains_key(id),
            old(self)@.channels[id].id == id,
        ensures
            final(self)@ == old(self)@.with_agreement(id, Some(agreement)),
    {
        let mut channel = self.take_channel(id);
        channel.agreement = Some(agreement);
        self.put_channel(channel);
        assert(self@.channels =~= old(self)@.with_agreement(id, Some(agreement)).channels);
    }

    /// The keys of a channel, if it has any, out of the channel.
    fn lend_keys(&mut self, id: u32) -> (keys: Option<K>)
        requires
            old(self)@.channels.contains_key(id),
            old(self)@.channels[id].id == id,
        ensures
            keys == old(self)@.channels[id].completed_key_exchange,
            final(self)@ == old(self)@.with_keys(id, None),
            keys is None ==> final(self)@ == old(self)@,
    {
        let mut channel = self.take_channel(id);
        let keys = channel.completed_key_exchange.take();
        self.put_channel(channel);
        assert(self@.channels =~= old(self)@.with_keys(id, None).channels);
        assert(keys is None ==> self@.channels =~= old(self)@.channels);
        keys
    }

    /// Gives a channel its keys back.
    fn return_keys(&mut self, id: u32, keys: K)
        requires
            old(self)@.channels.contains_key(id),
            old(self)@.channels[id].id == id,
        ensures
            final(self)@ == old(self)@.with_keys(id, Some(keys)),
    {
        let mut channel = self.take_channel(id);
        channel.completed_key_exchange = Some(keys);
        self.put_channel(channel);
        assert(self@.channels =~= old(self)@.with_keys(id, Some(keys)).channels);
    }

    /// Lets a message wait on a channel.
    fn keep_pending(&mut self, id: u32, m: Message)
        requires
            old(self)@.channels.contains_key(id),
            old(self)@.channels[id].id == id,
        ensures
            final(self)@ == old(self)@.with(
                ChannelView { pending: Some(m@), ..old(self)@.channels[id] },
            ),
    {
        let mut channel = self.take_channel(id);
        channel.pending = Some(m);
        self.put_channel(channel);
        assert(self@.channels =~= old(self)@.with(
            ChannelView { pending: Some(m@), ..old(self)@.channels[id] },
        ).channels);
    }

    /// The channel that an address names, if it is kept.
    fn lookup(&self, address: &RouterAddress) -> (id: Option<u32>)
        ensures
            id == self@.lookup(address@),
    {
        match address.address.channel_id() {
            Some(id) => {
                if self.channels.contains_key(&id) {
                    Some(id)
                } else {
                    None
                }
            },
            None => None,
        }
    }

    /// The number of the next message of a channel.
    fn next_number(&self, id: u32) -> (nonce: u16)
        requires
            self@.channels.contains_key(id),
        ensures
            nonce == self@.channels[id].nonce,
    {
        self.channels.get(&id).unwrap().nonce
    }

    /// Whether a channel has no keys yet.
    fn lacks_keys(&self, id: u32) -> (lacks: bool)
        requires
            self@.channels.contains_key(id),
        ensures
            lacks == (self@.channels[id].completed_key_exchange is None),
    {
        match self.channels.get(&id) {
            Some(channel) => channel.completed_key_exchange.is_none(),
            None => true,
        }
    }

    /// Asks for an action, with nothing else to send.
    fn ask<F>(&mut self, phase: Phase, action: ChannelAction<A, K, F>) -> (reaction: Reaction<A, K, F>)
        ensures
            (final(self)@, reaction@) == protocol::ask::<A, K, F>(old(self)@, phase@, action@),
    {
        self.phase = phase;
        Reaction::only(action)
    }

    /// Goes on with the next command.
    fn go_on<F>(&mut self) -> (reaction: Reaction<A, K, F>)
        ensures
            (final(self)@, reaction@) == protocol::go_on::<A, K, F>(old(self)@, Seq::empty()),
    {
        self.ask(Phase::Receiving, ChannelAction::Receive)
    }

    /// Sends a command, whatever becomes of it, and goes on with the next one.
    fn send_and_go_on<F>(&mut self, command: RouterCommand) -> (reaction: Reaction<A, K, F>)
        ensures
            (final(self)@, reaction@) == protocol::go_on::<A, K, F>(old(self)@, seq![command@]),
    {
        self.phase = Phase::Receiving;
        Reaction::with(command, ChannelAction::Receive)
    }

    /// Gives up with an error.
    fn fail<F>(&mut self, kind: ChannelErrorKind<F>) -> (reaction: Reaction<A, K, F>)
        ensures
            (final(self)@, reaction@) == protocol::fail::<A, K, F>(old(self)@, kind),
    {
        self.ask(Phase::Idle, ChannelAction::Return(Err(ChannelError::of(kind))))
    }

    // -----------------------------------------------------------------------
    // Sending
    // -----------------------------------------------------------------------

    /// A worker sends `m`.
    fn handle_send<F>(&mut self, m: Message) -> (reaction: Reaction<A, K, F>)
        requires
            old(self)@.at(PhaseView::Receiving).wf(),
        ensures
            final(self)@.wf(),
            exists|id: u32|
                (final(self)@, reaction@) == #[trigger] protocol::send_step::<A, K, F>(
                    old(self)@,
                    m@,
                    id,
                ),
    {
        if m.onward_route.addresses.is_empty() {
            let reaction = self.fail(ChannelErrorKind::CantSend);
            assert((self@, reaction@) == protocol::send_step::<A, K, F>(old(self)@, m@, 0));
            return reaction;
        }
        let found = self.lookup(&m.onward_route.addresses[0]);
        assert(found == self@.lookup(m@.onward_route[0]));
        match found {
            Some(id) => {
                let hops: usize = m.onward_route.addresses.len();
                let agreement = self.lend_agreement(id);
                let ghost message = m@;
                let reaction = self.ask(
                    Phase::Checking { id, message: m },
                    ChannelAction::Check { agreement, hops },
                );
                assert((self@, reaction@) == protocol::send_step::<A, K, F>(old(self)@, message, 0));
                reaction
            },
            None => match m.message_type {
                MessageType::Empty | MessageType::Payload => {
                    let ghost message = m@;
                    let reaction = self.initiate_key_exchange(m);
                    proof {
                        let id = choose|id: u32|
                            (self@, reaction@) == #[trigger] protocol::initiate::<A, K, F>(
                                old(self)@,
                                message,
                                id,
                            );
                        assert((self@, reaction@) == protocol::send_step::<A, K, F>(
                            old(self)@,
                            message,
                            id,
                        ));
                    }
                    reaction
                },
                _ => {
                    let reaction = self.fail(ChannelErrorKind::State);
                    assert((self@, reaction@) == protocol::send_step::<A, K, F>(old(self)@, m@, 0));
                    reaction
                },
            },
        }
    }

    /// Opens a channel, under an identifier drawn at random, for a message that asks for one.
    fn initiate_key_exchange<F>(&mut self, m: Message) -> (reaction: Reaction<A, K, F>)
        requires
            old(self)@.at(PhaseView::Receiving).wf(),
            m@.onward_route.len() > 0,
        ensures
            final(self)@.wf(),
            exists|id: u32|
                (final(self)@, reaction@) == #[trigger] protocol::initiate::<A, K, F>(
                    old(self)@,
                    m@,
                    id,
                ),
    {
        let id: u32 = random_channel_id();
        self.initiate_key_exchange_as(m, id)
    }

    /// Opens a channel under the given identifier for a message that asks for one.
    pub fn initiate_key_exchange_as<F>(&mut self, m: Message, id: u32) -> (reaction: Reaction<A, K, F>)
        requires
            old(self)@.at(PhaseView::Receiving).wf(),
            m@.onward_route.len() > 0,
        ensures
            final(self)@.wf(),
            (final(self)@, reaction@) == protocol::initiate::<A, K, F>(old(self)@, m@, id),
            final(self)@.channels == old(self)@.channels,
            final(self)@.phase == (PhaseView::CreatingInitiator { id, message: m@ }),
            reaction@.outbox.len() == 0,
            reaction.action is CreateInitiator,
    {
        self.ask(Phase::CreatingInitiator { id, message: m }, ChannelAction::CreateInitiator)
    }

    /// It is known whether the key agreement of channel `id` is complete: `m` is encrypted to go
    /// through the channel, or is dropped.
    fn checked<F>(&mut self, id: u32, m: Message, agreement: A, complete: bool) -> (reaction:
        Reaction<A, K, F>)
        requires
            old(self)@.at(PhaseView::Checking { id, message: m@ }).wf(),
            complete ==> m@.onward_route.len() >= 2,
        ensures
            final(self)@.wf(),
            (final(self)@, reaction@) == protocol::checked_step::<A, K, F>(
                old(self)@,
                id,
                m@,
                agreement,
                complete,
            ),
    {
        self.return_agreement(id, agreement);
        if !complete {
            return self.go_on();
        }
        let number: u16 = self.next_number(id);
        if number == u16::MAX {
            return self.fail(ChannelErrorKind::State);
        }
        match self.lend_keys(id) {
            Some(keys) => {
                let data = m.message_body.clone();
                assert(data@ =~= m@.message_body);
                let nonce = nonce_bytes_of(number);
                self.ask(
                    Phase::Encrypting { id, message: m },
                    ChannelAction::Encrypt { keys, nonce, data },
                )
            },
            None => self.fail(ChannelErrorKind::State),
        }
    }

    /// The body of `m`, which goes through channel `id`, has been encrypted or could not be.
    fn encrypted<F>(&mut self, id: u32, m: Message, keys: K, result: Result<Vec<u8>, F>) -> (reaction:
        Reaction<A, K, F>)
        requires
            old(self)@.at(PhaseView::Encrypting { id, message: m@ }).wf(),
        ensures
            final(self)@.wf(),
            (final(self)@, reaction@) == protocol::encrypted_step::<A, K, F>(
                old(self)@,
                id,
                m@,
                keys,
                view_result(result),
            ),
    {
        let mut sealed = match result {
            Ok(sealed) => sealed,
            Err(failure) => {
                self.return_keys(id, keys);
                return self.fail(ChannelErrorKind::Cipher(failure));
            },
        };
        let ghost ciphertext = sealed@;
        let mut channel = self.take_channel(id);
        let nonce: u16 = channel.nonce;
        channel.completed_key_exchange = Some(keys);
        channel.nonce = nonce + 1;
        let mut onward = channel.route.clone();
        self.put_channel(channel);
        assert(self@.channels =~= old(self)@.with(
            ChannelView {
                completed_key_exchange: Some(keys),
                nonce: (nonce + 1) as u16,
                ..old(self)@.channels[id]
            },
        ).channels);
        let ghost expected = protocol::encrypted_message(m@, onward@, nonce, ciphertext);
        let Message { onward_route, return_route, message_type, message_body: _ } = m;
        let mut back = return_route;
        back.addresses.insert(0, onward_route.addresses[0].clone());
        onward.addresses.push(onward_route.addresses[1].clone());
        let mut message_body: Vec<u8> = nonce_bytes_of(nonce);
        message_body.append(&mut sealed);
        let sent = Message {
            onward_route: onward,
            return_route: back,
            message_type,
            message_body,
        };
        assert(sent@.onward_route =~= expected.onward_route);
        assert(sent@.return_route =~= expected.return_route);
        assert(sent@.message_body =~= expected.message_body);
        self.ask(Phase::Sending, ChannelAction::Send(RouterCommand::SendMessage(sent)))
    }

    /// The key agreement of the new channel `id`, which `m` asked for, has made its first
    /// message or has failed.
    fn initiated<F>(&mut self, id: u32, m: Message, agreement: A, result: Result<Vec<u8>, F>) -> (reaction:
        Reaction<A, K, F>)
        requires
            old(self)@.at(PhaseView::Initiating { id, message: m@ }).wf(),
        ensures
            final(self)@.wf(),
            (final(self)@, reaction@) == protocol::initiated_step::<A, K, F>(
                old(self)@,
                id,
                m@,
                agreement,
                view_result(result),
            ),
    {
        match result {
            Ok(body) => {
                let ghost message = m@;
                let Message { onward_route, return_route, message_type: _, message_body: _ } = m;
                let back = return_route.clone();
                let mut onward = onward_route;
                let mut homeward = return_route;
                let channel: Channel<A, K> = Channel::new(id, agreement);
                onward.addresses.remove(0);
                onward.addresses.push(RouterAddress::from_address(Address::channel(0)).unwrap());
                homeward.addresses.insert(
                    0,
                    RouterAddress::from_address(channel.as_address()).unwrap(),
                );
                let m1 = Message {
                    onward_route: onward,
                    return_route: homeward,
                    message_type: MessageType::KeyAgreementM1,
                    message_body: body,
                };
                assert(m1@.onward_route =~= protocol::m1_message(message, id, body@).onward_route);
                assert(m1@.return_route =~= protocol::m1_message(message, id, body@).return_route);
                self.put_channel(channel);
                self.ask(
                    Phase::Announcing { id, back },
                    ChannelAction::Send(RouterCommand::SendMessage(m1)),
                )
            },
            Err(failure) => self.fail(ChannelErrorKind::KeyAgreement(failure)),
        }
    }

    /// The message that waits on a new channel `id`, to whoever asked for it, at `back`.
    fn notice(id: u32, back: Route) -> (notice: Message)
        ensures
            notice@ == protocol::channel_notice(back@, id),
    {
        let channel_str: String = hex_encode(le_bytes_of(id).as_slice());
        proof {
            encoding::law_hex_round_trip(encoding::le_bytes(id));
        }
        let channel_address = RouterAddress::channel_router_address_from_str(
            channel_str.as_str(),
        ).unwrap();
        let notice = Message {
            onward_route: back,
            return_route: Route::single(channel_address),
            message_type: MessageType::Empty,
            message_body: Vec::new(),
        };
        assert(notice@.message_body =~= Seq::empty());
        notice
    }

    /// The first message of the new channel `id` has left or could not: whoever asked for the
    /// channel, at `back`, will be told of it.
    fn announced<F>(&mut self, id: u32, back: Route, sent: bool) -> (reaction: Reaction<A, K, F>)
        requires
            old(self)@.at(PhaseView::Announcing { id, back: back@ }).wf(),
        ensures
            final(self)@.wf(),
            (final(self)@, reaction@) == protocol::announced_step::<A, K, F>(
                old(self)@,
                id,
                back@,
                sent,
            ),
    {
        if !sent {
            return self.fail(ChannelErrorKind::CantSend);
        }
        let notice = Self::notice(id, back);
        self.keep_pending(id, notice);
        self.go_on()
    }

    // -----------------------------------------------------------------------
    // Receiving
    // -----------------------------------------------------------------------

    /// A message `m` has come in.
    fn handle_recv<F>(&mut self, m: Message) -> (reaction: Reaction<A, K, F>)
        requires
            old(self)@.at(PhaseView::Receiving).wf(),
        ensures
            final(self)@.wf(),
            exists|id: u32|
                (final(self)@, reaction@) == #[trigger] protocol::recv_step::<A, K, F>(
                    old(self)@,
                    m@,
                    id,
                ),
    {
        let ghost message = m@;
        if m.onward_route.addresses.is_empty() {
            // no onward route, how to determine which channel to decrypt message?
            // can't so drop
            let reaction = self.fail(ChannelErrorKind::RecvError);
            assert((self@, reaction@) == protocol::recv_step::<A, K, F>(old(self)@, message, 0));
            return reaction;
        }
        let first = &m.onward_route.addresses[0];
        assert(first@ == message.onward_route[0]);
        proof {
            address::law_zero_channel_text(first@.address);
        }
        // If address is zero, it indicates to create a new channel responder for key agreement
        if let Some(0) = first.address.channel_id() {
            let reaction = self.create_new_responder(m);
            proof {
                let id = choose|id: u32|
                    (self@, reaction@) == #[trigger] protocol::respond::<A, K, F>(
                        old(self)@,
                        message,
                        id,
                    );
                assert((self@, reaction@) == protocol::recv_step::<A, K, F>(
                    old(self)@,
                    message,
                    id,
                ));
            }
            return reaction;
        }
        match self.lookup(first) {
            Some(id) => {
                let reaction = self.deliver(id, m);
                assert((self@, reaction@) == protocol::recv_step::<A, K, F>(old(self)@, message, 0));
                reaction
            },
            None => {
                // Do nothing and drop message
                let reaction = self.go_on();
                assert((self@, reaction@) == protocol::recv_step::<A, K, F>(old(self)@, message, 0));
                reaction
            },
        }
    }

    /// Opens a channel, under an identifier drawn at random, to answer a message.
    fn create_new_responder<F>(&mut self, m: Message) -> (reaction: Reaction<A, K, F>)
        requires
            old(self)@.at(PhaseView::Receiving).wf(),
            m@.onward_route.len() > 0,
        ensures
            final(self)@.wf(),
            exists|id: u32|
                (final(self)@, reaction@) == #[trigger] protocol::respond::<A, K, F>(
                    old(self)@,
                    m@,
                    id,
                ),
    {
        let id: u32 = random_channel_id();
        self.create_new_responder_as(m, id)
    }

    /// Opens a channel under the given identifier to answer a message.
    pub fn create_new_responder_as<F>(&mut self, m: Message, id: u32) -> (reaction: Reaction<A, K, F>)
        requires
            old(self)@.at(PhaseView::Receiving).wf(),
            m@.onward_route.len() > 0,
        ensures
            final(self)@.wf(),
            (final(self)@, reaction@) == protocol::respond::<A, K, F>(old(self)@, m@, id),
            final(self)@.channels == old(self)@.channels,
            final(self)@.phase == (PhaseView::CreatingResponder { id, message: m@ }),
            reaction@.outbox.len() == 0,
            reaction.action is CreateResponder,
    {
        self.ask(Phase::CreatingResponder { id, message: m }, ChannelAction::CreateResponder)
    }

    /// A message `m` has come in for channel `id`.
    fn deliver<F>(&mut self, id: u32, m: Message) -> (reaction: Reaction<A, K, F>)
        requires
            old(self)@.channels.contains_key(id),
            forall|k: u32| #[trigger]
                old(self)@.channels.contains_key(k) ==> {
                    &&& old(self)@.channels[k].id == k
                    &&& old(self)@.channels[k].agreement is Some
                    &&& old(self)@.channels[k].pending matches Some(p) ==> protocol::is_notice(p)
                },
            m@.onward_route.len() > 0,
        ensures
            final(self)@.wf(),
            (final(self)@, reaction@) == protocol::deliver::<A, K, F>(old(self)@, id, m@),
    {
        let ghost message = m@;
        match m.message_type {
            MessageType::KeyAgreementM1
            | MessageType::KeyAgreementM2
            | MessageType::KeyAgreementM3 => {
                let agreement = self.lend_agreement(id);
                let data = m.message_body.clone();
                assert(data@ =~= message.message_body);
                self.ask(
                    Phase::Processing { id, message: m },
                    ChannelAction::Process { agreement, data },
                )
            },
            MessageType::Payload => {
                if m.message_body.len() < 2 {
                    return self.fail(ChannelErrorKind::RecvError);
                }
                match self.lend_keys(id) {
                    Some(keys) => {
                        let mut nonce = m.message_body.clone();
                        assert(nonce@ =~= message.message_body);
                        let data = nonce.split_off(2);
                        assert(nonce@ =~= message.message_body.take(2));
                        assert(data@ =~= message.message_body.skip(2));
                        self.ask(
                            Phase::Decrypting { id, message: m },
                            ChannelAction::Decrypt { keys, nonce, data },
                        )
                    },
                    None => {
                        let mut m = m;
                        m.onward_route.addresses.remove(0);
                        assert(m@.onward_route =~= message.onward_route.drop_first());
                        self.ask(
                            Phase::Sending,
                            ChannelAction::Send(RouterCommand::ReceiveMessage(m)),
                        )
                    },
                }
            },
            _ => self.go_on(),
        }
    }

    /// The body of `m`, which came through channel `id`, has been decrypted or could not be.
    fn decrypted<F>(&mut self, id: u32, m: Message, keys: K, result: Result<Vec<u8>, F>) -> (reaction:
        Reaction<A, K, F>)
        requires
            old(self)@.at(PhaseView::Decrypting { id, message: m@ }).wf(),
        ensures
            final(self)@.wf(),
            (final(self)@, reaction@) == protocol::decrypted_step::<A, K, F>(
                old(self)@,
                id,
                m@,
                keys,
                view_result(result),
            ),
    {
        self.return_keys(id, keys);
        match result {
            Ok(plain) => {
                let ghost message = m@;
                let mut m = m;
                m.onward_route.addresses.remove(0);
                m.message_body = plain;
                assert(m@.onward_route =~= message.onward_route.drop_first());
                self.ask(Phase::Sending, ChannelAction::Send(RouterCommand::ReceiveMessage(m)))
            },
            Err(failure) => self.fail(ChannelErrorKind::Cipher(failure)),
        }
    }

    /// What channel `id` has to send when its key agreement has processed the first message `m`:
    /// the second message of the key agreement, with the error for a router that does not take
    /// it; or the error, if the key agreement failed. No channel changes.
    pub fn send_ka_m2<F>(id: u32, m: Message, processed: Result<Vec<u8>, F>) -> (sending: Result<
        (RouterCommand, ChannelError<F>),
        ChannelError<F>,
    >)
        ensures
            match processed {
                Ok(ka_m2) => {
                    &&& sending matches Ok((command, if_not_taken))
                    &&& command@ == RouterCommandView::SendMessage(
                        protocol::m2_message(m@, id, ka_m2@),
                    )
                    &&& if_not_taken.kind == ChannelErrorKind::<F>::CantSend
                    &&& command matches RouterCommand::SendMessage(m2)
                    &&& m2@.onward_route == m@.return_route
                    &&& m2@.return_route.len() == 1
                    &&& m2@.return_route[0] == address::channel_address(id)
                    &&& m2.message_type == MessageType::KeyAgreementM2
                    &&& m2.message_body@ == ka_m2@
                },
                Err(failure) => sending matches Err(e) && e.kind == ChannelErrorKind::KeyAgreement(
                    failure,
                ),
            },
    {
        match processed {
            Ok(ka_m2) => Ok(
                (
                    RouterCommand::SendMessage(
                        Message {
                            onward_route: m.return_route,
                            return_route: Route::single(
                                RouterAddress::from_address(Address::channel(id)).unwrap(),
                            ),
                            message_type: MessageType::KeyAgreementM2,
                            message_body: ka_m2,
                        },
                    ),
                    ChannelError::of(ChannelErrorKind::CantSend),
                ),
            ),
            Err(failure) => Err(ChannelError::of(ChannelErrorKind::KeyAgreement(failure))),
        }
    }

    /// The key agreement of channel `id` has processed `m`.
    fn processed<F>(&mut self, id: u32, m: Message, agreement: A, result: Result<Vec<u8>, F>) -> (reaction:
        Reaction<A, K, F>)
        requires
            old(self)@.at(PhaseView::Processing { id, message: m@ }).wf(),
        ensures
            final(self)@.wf(),
            (final(self)@, reaction@) == protocol::processed_step::<A, K, F>(
                old(self)@,
                id,
                m@,
                agreement,
                view_result(result),
            ),
    {
        if let MessageType::KeyAgreementM1 = m.message_type {
            self.return_agreement(id, agreement);
            return match Self::send_ka_m2(id, m, result) {
                Ok((m2, _)) => self.send_and_go_on(m2),
                Err(error) => self.fail(error.kind),
            };
        }
        let body = match result {
            Ok(body) => body,
            Err(failure) => {
                self.return_agreement(id, agreement);
                return self.fail(ChannelErrorKind::KeyAgreement(failure));
            },
        };
        match m.message_type {
            MessageType::KeyAgreementM2 => {
                let m3 = Message {
                    onward_route: m.return_route.clone(),
                    return_route: Route::single(m.onward_route.addresses[0].clone()),
                    message_type: MessageType::KeyAgreementM3,
                    message_body: body,
                };
                self.phase = Phase::Finalizing { id, message: m };
                Reaction::with(
                    RouterCommand::SendMessage(m3),
                    ChannelAction::Finalize { agreement },
                )
            },
            _ => {
                // For now ignore anything returned from M3
                if self.lacks_keys(id) {
                    self.ask(
                        Phase::Finalizing { id, message: m },
                        ChannelAction::Finalize { agreement },
                    )
                } else {
                    self.return_agreement(id, agreement);
                    self.go_on()
                }
            },
        }
    }

    /// The key agreement of channel `id`, completed by `m`, has given its keys or failed to.
    fn finalized<F>(&mut self, id: u32, m: Message, agreement: A, result: Result<K, F>) -> (reaction:
        Reaction<A, K, F>)
        requires
            old(self)@.at(PhaseView::Finalizing { id, message: m@ }).wf(),
        ensures
            final(self)@.wf(),
            (final(self)@, reaction@) == protocol::finalized_step::<A, K, F>(
                old(self)@,
                id,
                m@,
                agreement,
                result,
            ),
    {
        let keys = match result {
            Ok(keys) => keys,
            Err(failure) => {
                self.return_agreement(id, agreement);
                return self.fail(ChannelErrorKind::KeyAgreement(failure));
            },
        };
        let ghost message = m@;
        let initiator: bool = match m.message_type {
            MessageType::KeyAgreementM2 => true,
            _ => false,
        };
        let mut channel = self.take_channel(id);
        channel.agreement = Some(agreement);
        channel.completed_key_exchange = Some(keys);
        channel.route = m.return_route;
        let ghost ready = ChannelView {
            agreement: Some(agreement),
            completed_key_exchange: Some(keys),
            route: message.return_route,
            ..old(self)@.channels[id]
        };
        assert(channel@ == ready);
        if initiator {
            // If we have a pending message from a worker (we should) then
            // let the worker know the key exchange is done
            let pending = channel.pending.clone();
            let home = RouterAddress::from_address(channel.as_address()).unwrap();
            self.put_channel(channel);
            assert(self@.channels =~= old(self)@.with(ready).channels);
            match pending {
                Some(p) => {
                    let mut p = p;
                    p.return_route = Route::single(home);
                    self.send_and_go_on(RouterCommand::ReceiveMessage(p))
                },
                None => self.go_on(),
            }
        } else {
            // key agreement has finished, now can process any pending messages
            let pending = channel.pending.take();
            self.put_channel(channel);
            assert(self@.channels =~= old(self)@.with(
                ChannelView { pending: None, ..ready },
            ).channels);
            match pending {
                Some(p) => self.send_and_go_on(RouterCommand::SendMessage(p)),
                None => {
                    assert(self@.channels =~= old(self)@.with(ready).channels);
                    self.go_on()
                },
            }
        }
    }

    // -----------------------------------------------------------------------
    // Public interface
    // -----------------------------------------------------------------------

    /// What makes a manager the router's handler for all Channel address types.
    pub fn registration() -> (command: RouterCommand)
        ensures
            command@ == RouterCommandView::Register(AddressType::Channel),
    {
        RouterCommand::Register(AddressType::Channel)
    }

    /// The identifiers of the channels, each once.
    pub fn ids(&self) -> (ids: Vec<u32>)
        ensures
            ids@.to_set() == self@.channels.dom(),
            ids@.no_duplicates(),
    {
        broadcast use vstd::std_specs::btree::group_btree_axioms;

        let mut ids: Vec<u32> = Vec::new();
        let all = self.channels.keys();
        let ghost expected = all.remaining().unref();
        for id in keys: all
            invariant
                expected == keys.seq().unref(),
                ids@ =~= expected.take(keys.index() as int),
        {
            ids.push(*id);
        }
        assert(ids@ =~= expected);
        assert(self@.channels.dom() =~= self.channels@.dom());
        ids
    }

    /// The channel with an identifier, if it is kept.
    pub fn channel(&self, id: u32) -> (channel: Option<&Channel<A, K>>)
        ensures
            channel is Some <==> self@.channels.contains_key(id),
            channel matches Some(c) ==> c@ == self@.channels[id],
    {
        self.channels.get(&id)
    }

    /// Create a new Channel Manager. `registered` says whether the router took the registration.
    pub fn new<F>(registered: bool) -> (manager: Result<Self, ChannelError<F>>)
        ensures
            manager is Ok <==> registered,
            manager matches Ok(m) ==> m@.wf() && m@ == (ManagerView::<A, K> {
                channels: Map::empty(),
                phase: PhaseView::Idle,
            }),
            manager matches Err(e) ==> e.kind == ChannelErrorKind::<F>::CantSend,
    {
        if !registered {
            return Err(ChannelError::of(ChannelErrorKind::CantSend));
        }
        let manager: Self = ChannelManager { channels: BTreeMap::new(), phase: Phase::Idle };
        assert(manager@.channels =~= Map::empty());
        Ok(manager)
    }

    /// Check for work to be done and do it, one event at a time: the first is
    /// [`ChannelEvent::Wake`], each later one the outcome of the action asked for last, until
    /// that is [`ChannelAction::Return`].
    pub fn poll<F>(&mut self, event: ChannelEvent<A, K, F>) -> (reaction: Reaction<A, K, F>)
        requires
            old(self)@.wf(),
            old(self)@.expects(event@),
        ensures
            final(self)@.wf(),
            exists|id: u32|
                (final(self)@, reaction@) == #[trigger] protocol::step::<A, K, F>(
                    old(self)@,
                    event@,
                    id,
                ),
    {
        let ghost told = event@;
        let ghost before = self@;
        let mut phase = Phase::Idle;
        core::mem::swap(&mut phase, &mut self.phase);
        assert(self@ == before.at(PhaseView::Idle));
        let reaction: Reaction<A, K, F> = match (phase, event) {
            (Phase::Receiving, ChannelEvent::Command(command)) => match command {
                OckamCommand::Channel(ChannelCommand::Stop) => {
                    self.channels.clear();
                    assert(self@.channels =~= Map::empty());
                    self.ask(Phase::Idle, ChannelAction::Return(Ok(true)))
                },
                OckamCommand::Channel(ChannelCommand::SendMessage(m)) => {
                    let ghost message = m@;
                    let reaction = self.handle_send(m);
                    let ghost id = choose|id: u32|
                        (self@, reaction@) == #[trigger] protocol::send_step::<A, K, F>(
                            before.at(PhaseView::Idle),
                            message,
                            id,
                        );
                    assert((self@, reaction@) == protocol::step::<A, K, F>(before, told, id));
                    return reaction;
                },
                OckamCommand::Channel(ChannelCommand::ReceiveMessage(m)) => {
                    let ghost message = m@;
                    let reaction = self.handle_recv(m);
                    let ghost id = choose|id: u32|
                        (self@, reaction@) == #[trigger] protocol::recv_step::<A, K, F>(
                            before.at(PhaseView::Idle),
                            message,
                            id,
                        );
                    assert((self@, reaction@) == protocol::step::<A, K, F>(before, told, id));
                    return reaction;
                },
                _ => self.fail(ChannelErrorKind::InvalidParam(0)),
            },
            (Phase::Receiving, _) => self.ask(Phase::Idle, ChannelAction::Return(Ok(true))),
            (Phase::Checking { id, message }, ChannelEvent::Checked(agreement, complete)) => {
                self.checked(id, message, agreement, complete)
            },
            (Phase::CreatingInitiator { id, message }, ChannelEvent::Created(agreement)) => {
                let data: Vec<u8> = Vec::new();
                assert(data@ =~= Seq::empty());
                self.ask(
                    Phase::Initiating { id, message },
                    ChannelAction::Process { agreement, data },
                )
            },
            (Phase::Initiating { id, message }, ChannelEvent::Processed(agreement, result)) => {
                self.initiated(id, message, agreement, result)
            },
            (Phase::Announcing { id, back }, ChannelEvent::Sent(sent)) => {
                self.announced(id, back, sent)
            },
            (Phase::CreatingResponder { id, message }, ChannelEvent::Created(agreement)) => {
                self.put_channel(Channel::new(id, agreement));
                self.deliver(id, message)
            },
            (Phase::Processing { id, message }, ChannelEvent::Processed(agreement, result)) => {
                self.processed(id, message, agreement, result)
            },
            (Phase::Finalizing { id, message }, ChannelEvent::Finalized(agreement, result)) => {
                self.finalized(id, message, agreement, result)
            },
            (Phase::Encrypting { id, message }, ChannelEvent::Encrypted(keys, result)) => {
                self.encrypted(id, message, keys, result)
            },
            (Phase::Decrypting { id, message }, ChannelEvent::Decrypted(keys, result)) => {
                self.decrypted(id, message, keys, result)
            },
            (Phase::Sending, ChannelEvent::Sent(sent)) => {
                if sent {
                    self.go_on()
                } else {
                    self.fail(ChannelErrorKind::CantSend)
                }
            },
            (_, _) => self.go_on(),
        };
        assert((self@, reaction@) == protocol::step::<A, K, F>(before, told, 0));
        reaction
    }
}

} // verus!
