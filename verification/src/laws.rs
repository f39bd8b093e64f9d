//! What holds of the channel protocol and of a worker as a whole.

use vstd::prelude::*;
use crate::address::{channel_address, RouterAddressView};
use crate::address;
use crate::channel::{new_channel, ChannelView};
use crate::encoding::{law_nonce_bytes_differ, nonce_bytes};
use crate::error::{ChannelError, ChannelErrorKind};
use crate::message::{
    ChannelCommandView,
    MessageType,
    MessageView,
    RouterCommandView,
    WorkerCommandView,
};
use crate::protocol::{
    channel_notice,
    encrypted_message,
    is_key_agreement,
    is_notice,
    m1_message,
    m2_message,
    m3_message,
    opens_channel,
    out_of_channel,
    step,
    ActionView,
    EventView,
    ManagerView,
    PhaseView,
    ReactionView,
};
use crate::worker::{
    far_worker,
    greeting,
    DispatchView,
    WorkerActionView,
    WorkerEventView,
    WorkerPhaseView,
    WorkerView,
};

verus! {

// ---------------------------------------------------------------------------
// Every step
// ---------------------------------------------------------------------------

/// Whether an event can be the outcome of an action.
pub open spec fn answers<A, K, F>(action: ActionView<A, K, F>, event: EventView<A, K, F>) -> bool {
    match action {
        ActionView::Receive => event is Command || event is QueueEmpty,
        ActionView::CreateInitiator | ActionView::CreateResponder => event is Created,
        ActionView::Check(agreement, hops) => {
            event matches EventView::Checked(same, complete) && (complete ==> hops >= 2)
        },
        ActionView::Process(agreement, data) => event is Processed,
        ActionView::Finalize(agreement) => event is Finalized,
        ActionView::Encrypt(keys, nonce, data) => event is Encrypted,
        ActionView::Decrypt(keys, nonce, data) => event is Decrypted,
        ActionView::Send(command) => event is Sent,
        ActionView::Return(result) => event is Wake,
    }
}

/// A manager keeps its invariant, and expects next exactly what its action leads to: whoever
/// carries out the actions never has to guess.
pub proof fn law_steps_fit_together<A, K, F>(
    s: ManagerView<A, K>,
    event: EventView<A, K, F>,
    id: u32,
    next: EventView<A, K, F>,
)
    requires
        s.wf(),
        s.expects(event),
    ensures
        step(s, event, id).0.wf(),
        step(s, event, id).0.expects(next) <==> answers(step(s, event, id).1.action, next),
{
}

/// Work that ends well is reported as `true`: a manager never asks to be left alone.
pub proof fn law_poll_reports_true<A, K, F>(
    s: ManagerView<A, K>,
    event: EventView<A, K, F>,
    id: u32,
)
    requires
        s.wf(),
        s.expects(event),
    ensures
        step(s, event, id).1.action matches ActionView::Return(Ok(keep_going)) ==> keep_going,
{
}

/// How many more actions a manager may ask for before it takes the next command or reports.
pub open spec fn actions_left(phase: PhaseView) -> nat {
    match phase {
        PhaseView::Idle => 0,
        PhaseView::Receiving => 0,
        PhaseView::Sending => 1,
        PhaseView::Announcing { id, back } => 1,
        PhaseView::Finalizing { id, message } => 1,
        PhaseView::Encrypting { id, message } => 2,
        PhaseView::Decrypting { id, message } => 2,
        PhaseView::Initiating { id, message } => 2,
        PhaseView::Processing { id, message } => 2,
        PhaseView::Checking { id, message } => 3,
        PhaseView::CreatingInitiator { id, message } => 3,
        PhaseView::CreatingResponder { id, message } => 3,
    }
}

/// Every command comes to an end: it takes three actions at most.
pub proof fn law_every_command_ends<A, K, F>(
    s: ManagerView<A, K>,
    event: EventView<A, K, F>,
    id: u32,
)
    requires
        s.wf(),
        s.expects(event),
    ensures
        actions_left(step(s, event, id).0.phase) <= 3,
        actions_left(s.phase) > 0 ==> actions_left(step(s, event, id).0.phase) < actions_left(
            s.phase,
        ),
{
}

/// Whether a step is about a channel: it is named by the command, or the manager is in the
/// middle of something with it.
pub open spec fn concerns<A, K, F>(
    s: ManagerView<A, K>,
    event: EventView<A, K, F>,
    channel: u32,
) -> bool {
    match s.phase {
        PhaseView::Receiving => match event {
            EventView::Command(ChannelCommandView::SendMessage(m)) => {
                m.onward_route.len() > 0 && m.onward_route[0].address.channel_id() == Some(channel)
            },
            EventView::Command(ChannelCommandView::ReceiveMessage(m)) => {
                m.onward_route.len() > 0 && m.onward_route[0].address.channel_id() == Some(channel)
            },
            EventView::Command(ChannelCommandView::Stop) => true,
            _ => false,
        },
        PhaseView::Checking { id, message } => id == channel,
        PhaseView::Initiating { id, message } => id == channel,
        PhaseView::Announcing { id, back } => id == channel,
        PhaseView::CreatingResponder { id, message } => id == channel,
        PhaseView::Processing { id, message } => id == channel,
        PhaseView::Finalizing { id, message } => id == channel,
        PhaseView::Encrypting { id, message } => id == channel,
        PhaseView::Decrypting { id, message } => id == channel,
        _ => false,
    }
}

/// A step leaves every channel alone that it is not about.
pub proof fn law_other_channels_are_left_alone<A, K, F>(
    s: ManagerView<A, K>,
    event: EventView<A, K, F>,
    id: u32,
    other: u32,
)
    requires
        s.wf(),
        s.expects(event),
        !concerns(s, event, other),
    ensures
        step(s, event, id).0.channels.contains_key(other) <==> s.channels.contains_key(other),
        s.channels.contains_key(other) ==> step(s, event, id).0.channels[other]
            == s.channels[other],
{
}

/// A command that is refused changes no channel.
pub proof fn law_refused_command_changes_nothing<A, K, F>(
    s: ManagerView<A, K>,
    command: ChannelCommandView,
    id: u32,
)
    requires
        s.wf(),
        s.phase is Receiving,
        step::<A, K, F>(s, EventView::Command(command), id).1.action matches ActionView::Return(
            Err(_),
        ),
    ensures
        step::<A, K, F>(s, EventView::Command(command), id).0.channels == s.channels,
{
}

/// Keys come from the key agreement and from nowhere else: whenever a channel gets keys, they
/// are the ones that the key agreement has just given, or its own, which come back from being
/// worked with.
pub proof fn law_keys_come_from_agreement<A, K, F>(
    s: ManagerView<A, K>,
    event: EventView<A, K, F>,
    id: u32,
    channel: u32,
    keys: K,
)
    requires
        s.wf(),
        s.expects(event),
        step(s, event, id).0.channels.contains_key(channel),
        step(s, event, id).0.channels[channel].completed_key_exchange == Some(keys),
    ensures
        ({
            ||| s.channels.contains_key(channel) && s.channels[channel].completed_key_exchange
                == Some(keys)
            ||| event matches EventView::Finalized(agreement, Ok(given)) && given == keys
            ||| s.phase.keys_lent() == Some(channel) && (event matches EventView::Encrypted(back, _)
                && back == keys)
            ||| s.phase.keys_lent() == Some(channel) && (event matches EventView::Decrypted(back, _)
                && back == keys)
        }),
{
}

/// Whether a channel has keys: at hand, or being worked with.
pub open spec fn is_ready<A, K>(s: ManagerView<A, K>, channel: u32) -> bool {
    &&& s.channels.contains_key(channel)
    &&& s.channels[channel].completed_key_exchange is Some || s.phase.keys_lent() == Some(channel)
}

/// Whether a step leaves a channel the channel that it is: the manager is not stopped, and no
/// new channel takes its identifier.
pub open spec fn keeps<A, K, F>(
    s: ManagerView<A, K>,
    event: EventView<A, K, F>,
    channel: u32,
) -> bool {
    &&& event != EventView::<A, K, F>::Command(ChannelCommandView::Stop)
    &&& s.phase matches PhaseView::Initiating { id: new, message } ==> new != channel
    &&& s.phase matches PhaseView::CreatingResponder { id: new, message } ==> new != channel
}

/// A channel that has keys keeps having keys, until the manager is stopped or a new channel
/// takes its identifier.
pub proof fn law_ready_channel_stays_ready<A, K, F>(
    s: ManagerView<A, K>,
    event: EventView<A, K, F>,
    id: u32,
    channel: u32,
)
    requires
        s.wf(),
        s.expects(event),
        is_ready(s, channel),
        keeps(s, event, channel),
    ensures
        is_ready(step(s, event, id).0, channel),
{
}

/// A manager that has been stopped keeps no channel.
pub proof fn law_stop_forgets_channels<A, K, F>(s: ManagerView<A, K>, id: u32, a: RouterAddressView)
    requires
        s.phase is Receiving,
    ensures
        step::<A, K, F>(s, EventView::Command(ChannelCommandView::Stop), id).0.lookup(a) is None,
{
}

// ---------------------------------------------------------------------------
// The key agreement
// ---------------------------------------------------------------------------

/// How routers hand a message on: the addresses passed leave the head of its onward route, of
/// which `left` are left, and addresses may be put before its return route. Nothing else changes.
pub open spec fn arrives(sent: MessageView, got: MessageView, left: nat) -> bool {
    &&& got.message_type == sent.message_type
    &&& got.message_body == sent.message_body
    &&& 0 < left <= sent.onward_route.len()
    &&& got.onward_route == sent.onward_route.skip(sent.onward_route.len() - left)
    &&& sent.return_route.len() <= got.return_route.len()
    &&& got.return_route.skip(got.return_route.len() - sent.return_route.len())
        == sent.return_route
}

/// The manager after it has been asked for a channel `id` by `m`, and the key agreement and
/// the router have done what it wanted.
pub open spec fn opened<A, K, F>(
    s: ManagerView<A, K>,
    m: MessageView,
    id: u32,
    first: A,
    second: A,
    body: Seq<u8>,
) -> (ManagerView<A, K>, ActionView<A, K, F>) {
    let s1 = step::<A, K, F>(s, EventView::Command(ChannelCommandView::SendMessage(m)), id).0;
    let s2 = step::<A, K, F>(s1, EventView::Created(first), id).0;
    let (s3, r3) = step::<A, K, F>(s2, EventView::Processed(second, Ok(body)), id);
    let s4 = step::<A, K, F>(s3, EventView::Sent(true), id).0;
    (s4, r3.action)
}

/// The manager after the first message `m1` of a key agreement has come in for a new channel
/// `id`, and the key agreement has made the second.
pub open spec fn answered<A, K, F>(
    s: ManagerView<A, K>,
    m1: MessageView,
    id: u32,
    first: A,
    second: A,
    body: Seq<u8>,
) -> (ManagerView<A, K>, Seq<RouterCommandView>) {
    let s1 = step::<A, K, F>(s, EventView::Command(ChannelCommandView::ReceiveMessage(m1)), id).0;
    let s2 = step::<A, K, F>(s1, EventView::Created(first), id).0;
    let (s3, r3) = step::<A, K, F>(s2, EventView::Processed(second, Ok(body)), id);
    (s3, r3.outbox)
}

/// The manager after the second or third message of a key agreement has come in, and the key
/// agreement has processed it and given keys. With it, what is sent when the message has been
/// processed and what is sent when there are keys.
pub open spec fn completed<A, K, F>(
    s: ManagerView<A, K>,
    m: MessageView,
    second: A,
    body: Seq<u8>,
    third: A,
    keys: K,
) -> (ManagerView<A, K>, Seq<RouterCommandView>, Seq<RouterCommandView>) {
    let s1 = step::<A, K, F>(s, EventView::Command(ChannelCommandView::ReceiveMessage(m)), 0).0;
    let (s2, r2) = step::<A, K, F>(s1, EventView::Processed(second, Ok(body)), 0);
    let (s3, r3) = step::<A, K, F>(s2, EventView::Finalized(third, Ok(keys)), 0);
    (s3, r2.outbox, r3.outbox)
}

/// A message to a channel that does not exist opens one on demand. What leaves is the first
/// message of a key agreement; the channel waits, with a notice for whoever asked.
pub proof fn law_channel_opens_on_demand<A, K, F>(
    s: ManagerView<A, K>,
    m: MessageView,
    id: u32,
    first: A,
    second: A,
    body: Seq<u8>,
)
    requires
        s.wf(),
        s.phase is Receiving,
        m.onward_route.len() > 0,
        s.lookup(m.onward_route[0]) is None,
        opens_channel(m.message_type),
    ensures
        opened::<A, K, F>(s, m, id, first, second, body) == (
            s.with(
                ChannelView {
                    pending: Some(channel_notice(m.return_route, id)),
                    ..new_channel::<A, K>(id, second)
                },
            ),
            ActionView::<A, K, F>::Send(RouterCommandView::SendMessage(m1_message(m, id, body))),
        ),
{
    assert(opened::<A, K, F>(s, m, id, first, second, body).0.channels =~= s.with(
        ChannelView {
            pending: Some(channel_notice(m.return_route, id)),
            ..new_channel::<A, K>(id, second)
        },
    ).channels);
}

/// The first message of a key agreement, sent to the zero channel, is answered by the second,
/// from a new channel.
pub proof fn law_first_message_is_answered<A, K, F>(
    s: ManagerView<A, K>,
    m1: MessageView,
    id: u32,
    first: A,
    second: A,
    body: Seq<u8>,
)
    requires
        s.wf(),
        s.phase is Receiving,
        m1.onward_route.len() > 0,
        m1.onward_route[0].address.text() == "00000000"@,
        m1.message_type is KeyAgreementM1,
    ensures
        answered::<A, K, F>(s, m1, id, first, second, body) == (
            s.with(new_channel::<A, K>(id, second)),
            seq![RouterCommandView::SendMessage(m2_message(m1, id, body))],
        ),
{
    assert(answered::<A, K, F>(s, m1, id, first, second, body).0.channels =~= s.with(
        new_channel::<A, K>(id, second),
    ).channels);
}

/// The second message of a key agreement is answered by the third and makes the channel ready:
/// it leads to where the message came from, and whoever asked for it is told.
pub proof fn law_second_message_completes<A, K, F>(
    s: ManagerView<A, K>,
    m2: MessageView,
    id: u32,
    second: A,
    body: Seq<u8>,
    third: A,
    keys: K,
)
    requires
        s.wf(),
        s.phase is Receiving,
        m2.onward_route.len() > 0,
        m2.onward_route[0].address.text() != "00000000"@,
        s.lookup(m2.onward_route[0]) == Some(id),
        m2.message_type is KeyAgreementM2,
    ensures
        completed::<A, K, F>(s, m2, second, body, third, keys) == (
            s.with(
                ChannelView {
                    agreement: Some(third),
                    completed_key_exchange: Some(keys),
                    route: m2.return_route,
                    ..s.channels[id]
                },
            ),
            seq![RouterCommandView::SendMessage(m3_message(m2, body))],
            match s.channels[id].pending {
                Some(p) => seq![
                    RouterCommandView::ReceiveMessage(
                        MessageView { return_route: seq![channel_address(id)], ..p },
                    ),
                ],
                None => Seq::empty(),
            },
        ),
{
    assert(completed::<A, K, F>(s, m2, second, body, third, keys).0.channels =~= s.with(
        ChannelView {
            agreement: Some(third),
            completed_key_exchange: Some(keys),
            route: m2.return_route,
            ..s.channels[id]
        },
    ).channels);
}

/// The third message of a key agreement makes the channel ready: it leads to where the message
/// came from, and what waited on it is sent.
pub proof fn law_third_message_completes<A, K, F>(
    s: ManagerView<A, K>,
    m3: MessageView,
    id: u32,
    second: A,
    body: Seq<u8>,
    third: A,
    keys: K,
)
    requires
        s.wf(),
        s.phase is Receiving,
        m3.onward_route.len() > 0,
        m3.onward_route[0].address.text() != "00000000"@,
        s.lookup(m3.onward_route[0]) == Some(id),
        s.channels[id].completed_key_exchange is None,
        m3.message_type is KeyAgreementM3,
    ensures
        completed::<A, K, F>(s, m3, second, body, third, keys) == (
            s.with(
                ChannelView {
                    agreement: Some(third),
                    completed_key_exchange: Some(keys),
                    route: m3.return_route,
                    pending: None,
                    ..s.channels[id]
                },
            ),
            Seq::<RouterCommandView>::empty(),
            match s.channels[id].pending {
                Some(p) => seq![RouterCommandView::SendMessage(p)],
                None => Seq::empty(),
            },
        ),
{
    assert(completed::<A, K, F>(s, m3, second, body, third, keys).0.channels =~= s.with(
        ChannelView {
            agreement: Some(third),
            completed_key_exchange: Some(keys),
            route: m3.return_route,
            pending: None,
            ..s.channels[id]
        },
    ).channels);
}

/// What a key agreement between two managers runs on: the message that asks for it, the
/// identifiers of the two channels, the states of the two key agreements, their messages and
/// keys, and the messages as they arrive.
pub struct Agreement<A, K> {
    pub asked: MessageView,
    pub near_id: u32,
    pub far_id: u32,
    pub near_states: (A, A, A, A),
    pub far_states: (A, A, A, A),
    pub bodies: (Seq<u8>, Seq<u8>, Seq<u8>, Seq<u8>),
    pub near_keys: K,
    pub far_keys: K,
    pub m1: MessageView,
    pub m2: MessageView,
    pub m3: MessageView,
}

impl<A, K> Agreement<A, K> {
    /// The three messages arrive: the first at the zero channel, the second at the channel that
    /// sent the first, the third at the channel that sent the second.
    pub open spec fn delivered(self) -> bool {
        &&& arrives(m1_message(self.asked, self.near_id, self.bodies.0), self.m1, 1)
        &&& arrives(
            m2_message(self.m1, self.far_id, self.bodies.1),
            self.m2,
            1 + self.asked.return_route.len(),
        )
        &&& arrives(m3_message(self.m2, self.bodies.2), self.m3, 1)
    }

    /// The near manager when it has sent the first message.
    pub open spec fn near_opened<F>(self, near: ManagerView<A, K>) -> (
        ManagerView<A, K>,
        ActionView<A, K, F>,
    ) {
        opened(
            near,
            self.asked,
            self.near_id,
            self.near_states.0,
            self.near_states.1,
            self.bodies.0,
        )
    }

    /// The far manager when it has sent the second message.
    pub open spec fn far_answered<F>(self, far: ManagerView<A, K>) -> (
        ManagerView<A, K>,
        Seq<RouterCommandView>,
    ) {
        answered::<A, K, F>(
            far,
            self.m1,
            self.far_id,
            self.far_states.0,
            self.far_states.1,
            self.bodies.1,
        )
    }

    /// The near manager when the second message has made its channel ready.
    pub open spec fn near_ready<F>(self, near: ManagerView<A, K>) -> (
        ManagerView<A, K>,
        Seq<RouterCommandView>,
        Seq<RouterCommandView>,
    ) {
        completed::<A, K, F>(
            self.near_opened::<F>(near).0,
            self.m2,
            self.near_states.2,
            self.bodies.2,
            self.near_states.3,
            self.near_keys,
        )
    }

    /// The far manager when the third message has made its channel ready.
    pub open spec fn far_ready<F>(self, far: ManagerView<A, K>) -> (
        ManagerView<A, K>,
        Seq<RouterCommandView>,
        Seq<RouterCommandView>,
    ) {
        completed::<A, K, F>(
            self.far_answered::<F>(far).0,
            self.m3,
            self.far_states.2,
            self.bodies.3,
            self.far_states.3,
            self.far_keys,
        )
    }
}

/// Where two managers run a key agreement and its three messages arrive, each sends the message
/// that the other waits for, both end with a channel that has keys and has sent nothing yet, each channel
/// leads to the other one, and whoever asked for the channel is told of it. An identifier of zero is left
/// out: messages to it would open yet another channel.
pub proof fn law_key_agreement<A, K, F>(
    near: ManagerView<A, K>,
    far: ManagerView<A, K>,
    g: Agreement<A, K>,
)
    requires
        near.wf(),
        near.phase is Receiving,
        far.wf(),
        far.phase is Receiving,
        g.asked.onward_route.len() > 0,
        near.lookup(g.asked.onward_route[0]) is None,
        opens_channel(g.asked.message_type),
        g.near_id != 0,
        g.far_id != 0,
        g.delivered(),
    ensures
        g.near_opened::<F>(near).1 == ActionView::<A, K, F>::Send(
            RouterCommandView::SendMessage(m1_message(g.asked, g.near_id, g.bodies.0)),
        ),
        g.far_answered::<F>(far).1 == seq![
            RouterCommandView::SendMessage(m2_message(g.m1, g.far_id, g.bodies.1)),
        ],
        g.near_ready::<F>(near).1 == seq![
            RouterCommandView::SendMessage(m3_message(g.m2, g.bodies.2)),
        ],
        g.near_ready::<F>(near).2 == seq![
            RouterCommandView::ReceiveMessage(channel_notice(g.asked.return_route, g.near_id)),
        ],
        ({
            let s = g.near_ready::<F>(near).0;
            &&& s.wf() && s.phase is Receiving
            &&& s.channels.contains_key(g.near_id)
            &&& s.channels[g.near_id].completed_key_exchange == Some(g.near_keys)
            &&& s.channels[g.near_id].nonce == 0
            &&& s.channels[g.near_id].route == g.m2.return_route
            &&& s.channels[g.near_id].route.last() == channel_address(g.far_id)
        }),
        ({
            let t = g.far_ready::<F>(far).0;
            &&& t.wf() && t.phase is Receiving
            &&& t.channels.contains_key(g.far_id)
            &&& t.channels[g.far_id].completed_key_exchange == Some(g.far_keys)
            &&& t.channels[g.far_id].nonce == 0
            &&& t.channels[g.far_id].route == g.m3.return_route
            &&& t.channels[g.far_id].route.last() == channel_address(g.near_id)
        }),
{
    let sent1 = m1_message(g.asked, g.near_id, g.bodies.0);
    let sent2 = m2_message(g.m1, g.far_id, g.bodies.1);
    let sent3 = m3_message(g.m2, g.bodies.2);
    address::law_channel_id_is_text(channel_address(g.near_id).address, g.near_id);
    address::law_channel_id_is_text(channel_address(g.far_id).address, g.far_id);
    address::law_channel_id_is_text(channel_address(0).address, 0);
    address::law_zero_channel_text(channel_address(g.near_id).address);
    address::law_zero_channel_text(channel_address(g.far_id).address);
    address::law_zero_channel_text(channel_address(0).address);

    // The first message reaches the zero channel.
    law_channel_opens_on_demand::<A, K, F>(
        near,
        g.asked,
        g.near_id,
        g.near_states.0,
        g.near_states.1,
        g.bodies.0,
    );
    assert(g.m1.onward_route[0] == channel_address(0));
    law_first_message_is_answered::<A, K, F>(
        far,
        g.m1,
        g.far_id,
        g.far_states.0,
        g.far_states.1,
        g.bodies.1,
    );

    // The second reaches the channel that sent the first.
    let near1 = g.near_opened::<F>(near).0;
    let home = g.m1.return_route;
    let back = g.asked.return_route;
    let tail = home.skip(home.len() - sent1.return_route.len());
    assert(tail[0] == channel_address(g.near_id));
    assert(g.m2.onward_route[0] == home[home.len() - 1 - back.len()]);
    assert(g.m2.onward_route[0] == tail[0]);
    law_second_message_completes::<A, K, F>(
        near1,
        g.m2,
        g.near_id,
        g.near_states.2,
        g.bodies.2,
        g.near_states.3,
        g.near_keys,
    );
    let away = g.m2.return_route;
    assert(away.skip(away.len() - 1)[0] == away.last());
    assert(away.last() == channel_address(g.far_id));

    // The third reaches the channel that sent the second.
    let far1 = g.far_answered::<F>(far).0;
    assert(g.m3.onward_route[0] == away.last());
    law_third_message_completes::<A, K, F>(
        far1,
        g.m3,
        g.far_id,
        g.far_states.2,
        g.bodies.3,
        g.far_states.3,
        g.far_keys,
    );
    let road = g.m3.return_route;
    assert(road.skip(road.len() - 1)[0] == road.last());
    assert(MessageView {
        return_route: seq![channel_address(g.near_id)],
        ..channel_notice(back, g.near_id)
    } == channel_notice(back, g.near_id));
}

// ---------------------------------------------------------------------------
// Messages through a channel
// ---------------------------------------------------------------------------

/// What a manager gives to the router for another node: the messages in its outbox and the one
/// in its action.
pub open spec fn leaves<A, K, F>(reaction: ReactionView<A, K, F>, m: MessageView) -> bool {
    ||| reaction.outbox.contains(RouterCommandView::SendMessage(m))
    ||| reaction.action == ActionView::<A, K, F>::Send(RouterCommandView::SendMessage(m))
}

/// Nothing that a worker has said leaves in the clear. Whatever leaves belongs to a key
/// agreement, or is an empty notice, or has been encrypted: its body is the number of the
/// message and what encryption made of the body. That is never the body itself, unless encryption
/// gave back the end of the body behind its first two bytes; so never where it gave back no less
/// than the body.
pub proof fn law_nothing_leaves_in_the_clear<A, K, F>(
    s: ManagerView<A, K>,
    event: EventView<A, K, F>,
    id: u32,
    sent: MessageView,
)
    requires
        s.wf(),
        s.expects(event),
        leaves(step(s, event, id).1, sent),
    ensures
        match s.phase {
            PhaseView::Encrypting { id: channel, message } => {
                &&& event matches EventView::Encrypted(keys, Ok(sealed))
                &&& sent == encrypted_message(
                    message,
                    s.channels[channel].route,
                    s.channels[channel].nonce,
                    sealed,
                )
                &&& sent.message_body == nonce_bytes(s.channels[channel].nonce) + sealed
                &&& sent.message_body == message.message_body ==> sealed
                    == message.message_body.skip(2)
                &&& sealed.len() >= message.message_body.len() ==> sent.message_body
                    != message.message_body
            },
            _ => is_key_agreement(sent.message_type) || is_notice(sent),
        },
{
}

/// What a worker sends through a channel is encrypted under the keys of that channel, with the
/// channel's next number, and nothing leaves before it is. A channel that is not ready, has no
/// keys or has used up its numbers sends nothing.
pub proof fn law_message_is_encrypted_first<A, K, F>(
    s: ManagerView<A, K>,
    m: MessageView,
    id: u32,
    agreement: A,
    complete: bool,
    sent: MessageView,
)
    requires
        s.wf(),
        s.phase is Receiving,
        m.onward_route.len() >= 2,
        s.lookup(m.onward_route[0]) == Some(id),
    ensures
        ({
            let (t, asking) = step::<A, K, F>(
                s,
                EventView::Command(ChannelCommandView::SendMessage(m)),
                0,
            );
            let (u, sealing) = step::<A, K, F>(t, EventView::Checked(agreement, complete), 0);
            let channel = s.channels[id];
            &&& !leaves(asking, sent)
            &&& !leaves(sealing, sent)
            &&& sealing.action is Encrypt <==> complete && channel.completed_key_exchange is Some
                && channel.nonce < u16::MAX
            &&& sealing.action is Encrypt ==> sealing.action == ActionView::<A, K, F>::Encrypt(
                channel.completed_key_exchange->0,
                nonce_bytes(channel.nonce),
                m.message_body,
            )
        }),
{
}

/// A message that could not be encrypted is not sent, and takes no number: when the keys come
/// back the channel is as it was.
pub proof fn law_failed_encryption_sends_nothing<A, K, F>(
    s: ManagerView<A, K>,
    m: MessageView,
    id: u32,
    keys: K,
    failure: F,
    sent: MessageView,
)
    requires
        s.wf(),
        s.phase == (PhaseView::Encrypting { id, message: m }),
    ensures
        ({
            let (t, reaction) = step(s, EventView::<A, K, F>::Encrypted(keys, Err(failure)), 0);
            &&& !leaves(reaction, sent)
            &&& reaction.action == ActionView::<A, K, F>::Return(
                Err(ChannelError { kind: ChannelErrorKind::Cipher(failure) }),
            )
            &&& t == s.with_keys(id, Some(keys)).at(PhaseView::Idle)
        }),
{
}

/// The manager after some events, each with the identifier for a new channel.
pub open spec fn after_all<A, K, F>(
    s: ManagerView<A, K>,
    events: Seq<(EventView<A, K, F>, u32)>,
) -> ManagerView<A, K>
    decreases events.len(),
{
    if events.len() == 0 {
        s
    } else {
        step(after_all(s, events.drop_last()), events.last().0, events.last().1).0
    }
}

/// Whether a manager expects each of some events, and a channel stays the channel that it is
/// through all of them.
pub open spec fn kept_through<A, K, F>(
    s: ManagerView<A, K>,
    events: Seq<(EventView<A, K, F>, u32)>,
    channel: u32,
) -> bool
    decreases events.len(),
{
    events.len() == 0 || {
        &&& kept_through(s, events.drop_last(), channel)
        &&& after_all(s, events.drop_last()).expects(events.last().0)
        &&& keeps(after_all(s, events.drop_last()), events.last().0, channel)
    }
}

/// The number of a channel's next message never falls.
pub proof fn law_nonce_never_falls<A, K, F>(
    s: ManagerView<A, K>,
    events: Seq<(EventView<A, K, F>, u32)>,
    channel: u32,
)
    requires
        s.wf(),
        s.channels.contains_key(channel),
        kept_through(s, events, channel),
    ensures
        after_all(s, events).wf(),
        after_all(s, events).channels.contains_key(channel),
        after_all(s, events).channels[channel].nonce >= s.channels[channel].nonce,
    decreases events.len(),
{
    if events.len() > 0 {
        law_nonce_never_falls(s, events.drop_last(), channel);
    }
}

/// No two messages go through a channel under the same number, whatever happens in between:
/// their first two bytes differ.
pub proof fn law_no_number_is_used_twice<A, K, F>(
    s: ManagerView<A, K>,
    first: EventView<A, K, F>,
    between: Seq<(EventView<A, K, F>, u32)>,
    second: EventView<A, K, F>,
    channel: u32,
    m: MessageView,
    n: MessageView,
)
    requires
        s.wf(),
        s.phase matches PhaseView::Encrypting { id, message } && id == channel,
        s.expects(first),
        leaves(step(s, first, 0).1, m),
        kept_through(step(s, first, 0).0, between, channel),
        ({
            let t = after_all(step(s, first, 0).0, between);
            &&& t.phase matches PhaseView::Encrypting { id, message } && id == channel
            &&& t.expects(second)
            &&& leaves(step(t, second, 0).1, n)
        }),
    ensures
        m.message_body.take(2) != n.message_body.take(2),
        m.message_body != n.message_body,
{
    let t = after_all(step(s, first, 0).0, between);
    law_nonce_never_falls(step(s, first, 0).0, between, channel);
    law_nothing_leaves_in_the_clear(s, first, 0, m);
    law_nothing_leaves_in_the_clear(t, second, 0, n);
    assert(m.message_body.take(2) =~= nonce_bytes(s.channels[channel].nonce));
    assert(n.message_body.take(2) =~= nonce_bytes(t.channels[channel].nonce));
    law_nonce_bytes_differ(s.channels[channel].nonce, t.channels[channel].nonce);
}

/// A payload sent through a ready channel that leads to a ready channel of another manager comes
/// out there as it went in, if decryption gives back what was encrypted: same body, addressed to
/// whoever was named behind the channel, with a way back through the channel. On the way it is
/// `sealed`, the encrypted body, and its number. A channel that has used up its numbers is left
/// out: it sends nothing.
pub proof fn law_payload_crosses_channel<A, K, F>(
    near: ManagerView<A, K>,
    far: ManagerView<A, K>,
    m: MessageView,
    near_id: u32,
    far_id: u32,
    agreement: A,
    near_keys: K,
    far_keys: K,
    sealed: Seq<u8>,
    got: MessageView,
)
    requires
        near.wf(),
        near.phase is Receiving,
        far.wf(),
        far.phase is Receiving,
        m.onward_route.len() >= 2,
        m.message_type is Payload,
        near.lookup(m.onward_route[0]) == Some(near_id),
        near.channels[near_id].completed_key_exchange == Some(near_keys),
        near.channels[near_id].nonce < u16::MAX,
        near.channels[near_id].route.len() > 0,
        near.channels[near_id].route.last() == channel_address(far_id),
        far.channels.contains_key(far_id),
        far.channels[far_id].completed_key_exchange == Some(far_keys),
        far_id != 0,
        arrives(
            encrypted_message(
                m,
                near.channels[near_id].route,
                near.channels[near_id].nonce,
                sealed,
            ),
            got,
            2,
        ),
    ensures
        ({
            let nonce = near.channels[near_id].nonce;
            let (s, asking) = step::<A, K, F>(
                near,
                EventView::Command(ChannelCommandView::SendMessage(m)),
                0,
            );
            let (t, sealing) = step::<A, K, F>(s, EventView::Checked(agreement, true), 0);
            let (u, sending) = step::<A, K, F>(t, EventView::Encrypted(near_keys, Ok(sealed)), 0);
            &&& asking.action is Check
            &&& sealing.action == ActionView::<A, K, F>::Encrypt(
                near_keys,
                nonce_bytes(nonce),
                m.message_body,
            )
            &&& sending.action == ActionView::<A, K, F>::Send(
                RouterCommandView::SendMessage(
                    encrypted_message(m, near.channels[near_id].route, nonce, sealed),
                ),
            )
            &&& u.channels[near_id].nonce == nonce + 1
        }),
        ({
            let nonce = near.channels[near_id].nonce;
            let (s, opening) = step::<A, K, F>(
                far,
                EventView::Command(ChannelCommandView::ReceiveMessage(got)),
                0,
            );
            let (t, coming) = step::<A, K, F>(
                s,
                EventView::Decrypted(far_keys, Ok(m.message_body)),
                0,
            );
            let back = seq![m.onward_route[0]] + m.return_route;
            &&& opening.action == ActionView::<A, K, F>::Decrypt(
                far_keys,
                nonce_bytes(nonce),
                sealed,
            )
            &&& coming.action matches ActionView::Send(RouterCommandView::ReceiveMessage(out))
            &&& out.onward_route == seq![m.onward_route[1]]
            &&& out.message_type == m.message_type
            &&& out.message_body == m.message_body
            &&& out.return_route == got.return_route
            &&& out.return_route.skip(out.return_route.len() - back.len()) == back
        }),
{
    address::law_channel_id_is_text(channel_address(far_id).address, far_id);
    address::law_zero_channel_text(channel_address(far_id).address);
    let route = near.channels[near_id].route;
    let nonce = near.channels[near_id].nonce;
    assert(got.onward_route[0] == route.last());
    assert(got.onward_route[1] == m.onward_route[1]);
    assert(out_of_channel(got).onward_route =~= seq![m.onward_route[1]]);
    assert(got.message_body.take(2) =~= nonce_bytes(nonce));
    assert(got.message_body.skip(2) =~= sealed);
}

/// A payload that cannot be decrypted goes nowhere: the manager reports an error that is not the
/// one for a message it cannot read, and its channels are as they were.
pub proof fn law_undecryptable_payload_goes_nowhere<A, K, F>(
    s: ManagerView<A, K>,
    got: MessageView,
    id: u32,
    keys: K,
    failure: F,
)
    requires
        s.wf(),
        s.phase is Receiving,
        got.onward_route.len() > 0,
        got.onward_route[0].address.text() != "00000000"@,
        s.lookup(got.onward_route[0]) == Some(id),
        s.channels[id].completed_key_exchange == Some(keys),
        got.message_type is Payload,
        got.message_body.len() >= 2,
    ensures
        ({
            let (t, opening) = step::<A, K, F>(
                s,
                EventView::Command(ChannelCommandView::ReceiveMessage(got)),
                0,
            );
            let (u, failing) = step::<A, K, F>(t, EventView::Decrypted(keys, Err(failure)), 0);
            &&& opening.outbox.len() == 0 && opening.action is Decrypt
            &&& failing.outbox.len() == 0
            &&& failing.action == ActionView::<A, K, F>::Return(
                Err(ChannelError { kind: ChannelErrorKind::Cipher(failure) }),
            )
            &&& u.channels == s.channels
        }),
{
    let t = step::<A, K, F>(s, EventView::Command(ChannelCommandView::ReceiveMessage(got)), 0).0;
    assert(step::<A, K, F>(t, EventView::Decrypted(keys, Err(failure)), 0).0.channels
        =~= s.channels);
}

// ---------------------------------------------------------------------------
// The worker
// ---------------------------------------------------------------------------

/// A worker answers with its two greetings in turn.
pub proof fn law_greetings_alternate(w: WorkerView, m: MessageView, n: MessageView)
    requires
        m.message_type is Payload,
        n.message_type is Payload,
    ensures
        greeting(w.receive_step(m).0.toggle) != greeting(w.toggle),
        greeting(w.receive_step(m).0.receive_step(n).0.toggle) == greeting(w.toggle),
{
    reveal_strlit("Hello Ockam");
    reveal_strlit("Goodbye Ockam");
}

/// A worker that has been told of a channel sends through it what it was to send before, once,
/// and from then on goes by that channel.
pub proof fn law_kept_message_is_sent(w: WorkerView, m: MessageView, told: MessageView)
    requires
        told.message_type is Empty,
        told.return_route.len() == 1,
    ensures
        ({
            let (waiting, _) = w.request_step(m);
            let channel = told.return_route[0].address;
            let (ready, sent) = waiting.receive_step(told);
            &&& sent == Ok::<Option<DispatchView>, Seq<char>>(
                Some(
                    DispatchView {
                        command: RouterCommandView::SendMessage(
                            MessageView {
                                onward_route: seq![channel.routed(), far_worker().routed()],
                                return_route: seq![w.address.routed()],
                                message_type: MessageType::Payload,
                                message_body: m.message_body,
                            },
                        ),
                        on_failure: None,
                    },
                ),
            )
            &&& ready == (WorkerView { channel_address: channel, pending_message: None, ..w })
            &&& ready.receive_step(told).1 == Ok::<Option<DispatchView>, Seq<char>>(None)
        }),
{
}

/// A worker that has been told to stop says so when its queue is empty, whatever else was in
/// the queue behind the command.
pub proof fn law_stopped_worker_stays_stopped(w: WorkerView, event: WorkerEventView)
    requires
        w.expects(event),
        w.phase == (WorkerPhaseView::Receiving { keep_going: false }) || w.phase == (
        WorkerPhaseView::Sending { keep_going: false }),
    ensures
        ({
            let (next, reaction) = w.step(event);
            match next.phase {
                WorkerPhaseView::Receiving { keep_going } => !keep_going,
                WorkerPhaseView::Sending { keep_going } => !keep_going,
                WorkerPhaseView::Idle => reaction.action == WorkerActionView::Return(false),
            }
        }),
{
}

/// A worker cannot handle a message exactly if it is neither a payload nor the notice of a
/// channel with one return address, whatever the worker has been through; it then stays as it
/// is. Every message that it is to send it can handle.
pub proof fn law_worker_objects_to_bad_messages(w: WorkerView, m: MessageView, e: Seq<char>)
    ensures
        w.receive_step(m).1 == Err::<Option<DispatchView>, Seq<char>>(e)
            <==> WorkerCommandView::ReceiveMessage(m).objection() == Some(e),
        w.receive_step(m).1 is Err <==> !(m.message_type is Payload || (m.message_type is Empty
            && m.return_route.len() == 1)),
        w.receive_step(m).1 is Err ==> w.receive_step(m).0 == w,
        w.send_step(m).1 is Ok,
{
}

// ---------------------------------------------------------------------------
// From worker to worker
// ---------------------------------------------------------------------------

/// The first message that a worker without a channel is to send reaches the worker at the far
/// end: the request for a channel starts a key agreement, the notice of the channel makes the
/// worker send what it kept, that leaves encrypted, and comes out at the other manager with the
/// same body, addressed to the far worker, if decryption gives back what was encrypted. `told` is
/// the notice as the worker gets it, `sealed` the encrypted body and `got` the message as the far
/// manager gets it. A channel identifier of zero and a manager that keeps a channel zero are left
/// out.
pub proof fn law_first_message_reaches_far_worker<A, K, F>(
    near: ManagerView<A, K>,
    far: ManagerView<A, K>,
    w: WorkerView,
    m: MessageView,
    g: Agreement<A, K>,
    told: MessageView,
    agreement: A,
    sealed: Seq<u8>,
    got: MessageView,
)
    requires
        near.wf(),
        near.phase is Receiving,
        !near.channels.contains_key(0),
        far.wf(),
        far.phase is Receiving,
        w.lacks_channel(),
        g.asked == w.channel_request(m),
        g.near_id != 0,
        g.far_id != 0,
        g.delivered(),
        told == (MessageView {
            onward_route: told.onward_route,
            ..channel_notice(g.asked.return_route, g.near_id)
        }),
        arrives(
            encrypted_message(
                w.through(channel_address(g.near_id).address, WorkerView::kept(m)),
                g.m2.return_route,
                0,
                sealed,
            ),
            got,
            2,
        ),
    ensures
        w.send_step(m).1 == Ok::<Option<DispatchView>, Seq<char>>(
            Some(
                DispatchView {
                    command: RouterCommandView::SendMessage(g.asked),
                    on_failure: None,
                },
            ),
        ),
        ({
            let first = w.through(channel_address(g.near_id).address, WorkerView::kept(m));
            let (s, sealing) = step::<A, K, F>(
                step::<A, K, F>(
                    g.near_ready::<F>(near).0,
                    EventView::Command(ChannelCommandView::SendMessage(first)),
                    0,
                ).0,
                EventView::Checked(agreement, true),
                0,
            );
            let (t, sending) = step::<A, K, F>(s, EventView::Encrypted(g.near_keys, Ok(sealed)), 0);
            let (u, opening) = step::<A, K, F>(
                g.far_ready::<F>(far).0,
                EventView::Command(ChannelCommandView::ReceiveMessage(got)),
                0,
            );
            let (v, coming) = step::<A, K, F>(
                u,
                EventView::Decrypted(g.far_keys, Ok(m.message_body)),
                0,
            );
            &&& g.near_ready::<F>(near).2 == seq![
                RouterCommandView::ReceiveMessage(
                    channel_notice(g.asked.return_route, g.near_id),
                ),
            ]
            &&& w.send_step(m).0.receive_step(told).1 == Ok::<Option<DispatchView>, Seq<char>>(
                Some(
                    DispatchView {
                        command: RouterCommandView::SendMessage(first),
                        on_failure: None,
                    },
                ),
            )
            &&& sealing.action == ActionView::<A, K, F>::Encrypt(
                g.near_keys,
                nonce_bytes(0),
                m.message_body,
            )
            &&& sending.action == ActionView::<A, K, F>::Send(
                RouterCommandView::SendMessage(
                    encrypted_message(first, g.m2.return_route, 0, sealed),
                ),
            )
            &&& opening.action == ActionView::<A, K, F>::Decrypt(g.far_keys, nonce_bytes(0), sealed)
            &&& coming.action matches ActionView::Send(RouterCommandView::ReceiveMessage(out))
            &&& out.onward_route == seq![far_worker().routed()]
            &&& out.message_type is Payload
            &&& out.message_body == m.message_body
        }),
{
    let first = w.through(channel_address(g.near_id).address, WorkerView::kept(m));
    address::law_zero_channel_text(w.channel_address);
    address::law_channel_id_is_text(channel_address(g.near_id).address, g.near_id);
    assert(g.asked.onward_route[0] == w.channel_address.routed());
    law_key_agreement::<A, K, F>(near, far, g);
    law_payload_crosses_channel::<A, K, F>(
        g.near_ready::<F>(near).0,
        g.far_ready::<F>(far).0,
        first,
        g.near_id,
        g.far_id,
        agreement,
        g.near_keys,
        g.far_keys,
        sealed,
        got,
    );
}

} // verus!
