//! What a channel manager and a worker do, told by what goes in and what comes out: for every
//! message, where it goes, what it carries, what it leaves behind.

use vstd::prelude::*;
use vstd::utf8::encode_utf8;
use crate::address::{channel_address, AddressView, RouterAddressView};
use crate::address;
use crate::channel::ChannelView;
use crate::encoding::{hex_bytes, hex_text, le_bytes};
use crate::error::ChannelErrorKind;
use crate::laws;
use crate::laws::{arrives, Agreement};
use crate::message::{
    ChannelCommandView,
    MessageType,
    MessageView,
    RouterCommandView,
    WorkerCommandView,
};
use crate::protocol::{
    step,
    ActionView,
    EventView,
    ManagerView,
    Outcome,
    PhaseView,
};
use crate::worker::{
    DispatchView,
    WorkerActionView,
    WorkerEventView,
    WorkerPhaseView,
    WorkerView,
};

verus! {

// ---------------------------------------------------------------------------
// Words
// ---------------------------------------------------------------------------

/// `r` is all of `m`, in order, but for the first element.
pub open spec fn is_rest_of<T>(r: Seq<T>, m: Seq<T>) -> bool {
    &&& r.len() + 1 == m.len()
    &&& forall|i: int| #![trigger r[i]] 0 <= i < r.len() ==> r[i] == m[i + 1]
}

/// `r` is all of `m`, in order, behind `a`.
pub open spec fn is_behind<T>(r: Seq<T>, a: T, m: Seq<T>) -> bool {
    &&& r.len() == m.len() + 1
    &&& r[0] == a
    &&& forall|i: int| #![trigger m[i]] 0 <= i < m.len() ==> r[i + 1] == m[i]
}

/// `r` is all of `m`, in order, before `a`.
pub open spec fn is_before<T>(r: Seq<T>, m: Seq<T>, a: T) -> bool {
    &&& r.len() == m.len() + 1
    &&& forall|i: int| #![trigger m[i]] 0 <= i < m.len() ==> r[i] == m[i]
    &&& r[m.len() as int] == a
}

/// `r` is `a` and nothing else.
pub open spec fn is_only<T>(r: Seq<T>, a: T) -> bool {
    r.len() == 1 && r[0] == a
}

/// Two managers keep the same channels, but for one.
pub open spec fn same_but<A, K>(s: ManagerView<A, K>, t: ManagerView<A, K>, id: u32) -> bool {
    forall|k: u32|
        #![trigger t.channels.contains_key(k)]
        #![trigger t.channels[k]]
        k != id ==> {
            &&& t.channels.contains_key(k) <==> s.channels.contains_key(k)
            &&& s.channels.contains_key(k) ==> t.channels[k] == s.channels[k]
        }
}

/// The manager sends nothing and takes the next command.
pub open spec fn takes_next<A, K, F>(outcome: Outcome<A, K, F>) -> bool {
    &&& outcome.0.phase is Receiving
    &&& outcome.1.outbox.len() == 0
    &&& outcome.1.action is Receive
}

/// The manager sends nothing and reports an error.
pub open spec fn gives_up<A, K, F>(outcome: Outcome<A, K, F>, kind: ChannelErrorKind<F>) -> bool {
    &&& outcome.0.phase is Idle
    &&& outcome.1.outbox.len() == 0
    &&& outcome.1.action matches ActionView::Return(Err(error))
    &&& error.kind == kind
}

/// A worker's address as it stands in a route: with its own kind, and its length left open.
pub open spec fn stands_for(r: RouterAddressView, a: AddressView) -> bool {
    &&& r.address == a
    &&& r.length is None
    &&& a is ChannelAddress ==> r.a_type is Channel
    &&& a is UdpAddress ==> r.a_type is Udp
    &&& a is WorkerAddress ==> r.a_type is Worker
}

// ---------------------------------------------------------------------------
// Which channel
// ---------------------------------------------------------------------------

/// A channel is found by its printed address and by nothing else: an address leads to the kept
/// channel whose identifier prints like it, and to none if there is no such channel.
pub proof fn law_channel_is_found_by_print<A, K>(
    s: ManagerView<A, K>,
    a: RouterAddressView,
    id: u32,
)
    ensures
        s.lookup(a) == Some(id) <==> s.channels.contains_key(id) && a.address.text() == hex_text(
            le_bytes(id),
        ),
        s.lookup(a) is None <==> forall|k: u32| #[trigger]
            s.channels.contains_key(k) ==> a.address.text() != hex_text(le_bytes(k)),
{
    address::law_channel_id_is_text(a.address, id);
    assert forall|k: u32| s.lookup(a) is None && #[trigger] s.channels.contains_key(
        k,
    ) implies a.address.text() != hex_text(le_bytes(k)) by {
        address::law_channel_id_is_text(a.address, k);
    }
    if s.lookup(a) is Some {
        let k = s.lookup(a)->0;
        address::law_channel_id_is_text(a.address, k);
        assert(s.channels.contains_key(k));
    }
}

// ---------------------------------------------------------------------------
// Commands
// ---------------------------------------------------------------------------

/// A manager that is woken takes a command; with none there it reports `true`; told to stop it
/// forgets all channels and reports `true`; a command for somebody else is an error about the
/// first parameter. But for stopping, no channel changes.
pub proof fn law_plain_commands<A, K, F>(s: ManagerView<A, K>, id: u32)
    ensures
        s.phase is Idle ==> {
            let woken = step::<A, K, F>(s, EventView::Wake, id);
            &&& s.expects(EventView::<A, K, F>::Wake)
            &&& takes_next(woken) && woken.0.channels == s.channels
        },
        s.phase is Receiving ==> {
            let (t, r) = step::<A, K, F>(s, EventView::QueueEmpty, id);
            &&& t.phase is Idle && t.channels == s.channels
            &&& r.outbox.len() == 0 && r.action == ActionView::<A, K, F>::Return(Ok(true))
        },
        s.phase is Receiving ==> {
            let (t, r) = step::<A, K, F>(s, EventView::Command(ChannelCommandView::Stop), id);
            &&& t.phase is Idle && t.channels.dom() == Set::<u32>::empty()
            &&& r.outbox.len() == 0 && r.action == ActionView::<A, K, F>::Return(Ok(true))
        },
        s.phase is Receiving ==> {
            let refused = step::<A, K, F>(s, EventView::Command(ChannelCommandView::Foreign), id);
            &&& gives_up(refused, ChannelErrorKind::InvalidParam(0))
            &&& refused.0.channels == s.channels
        },
{
}

/// The identifier that is drawn names a new channel and does nothing else: it makes a difference
/// only for a message that opens a channel, to one that is not kept or to the zero channel.
pub proof fn law_identifier_names_new_channel<A, K, F>(
    s: ManagerView<A, K>,
    event: EventView<A, K, F>,
    id: u32,
    other: u32,
)
    requires
        s.wf(),
        s.expects(event),
        match event {
            EventView::Command(ChannelCommandView::SendMessage(m)) => {
                ||| m.onward_route.len() == 0
                ||| s.lookup(m.onward_route[0]) is Some
                ||| m.message_type != MessageType::Empty && m.message_type != MessageType::Payload
            },
            EventView::Command(ChannelCommandView::ReceiveMessage(m)) => {
                m.onward_route.len() == 0 || m.onward_route[0].address.text() != "00000000"@
            },
            _ => true,
        },
    ensures
        step(s, event, id) == step(s, event, other),
{
}

/// A message without an onward route is an error, another one for each direction, and changes
/// nothing.
pub proof fn law_route_is_needed<A, K, F>(s: ManagerView<A, K>, m: MessageView, id: u32)
    requires
        s.phase is Receiving,
        m.onward_route.len() == 0,
    ensures
        ({
            let out = step::<A, K, F>(s, EventView::Command(ChannelCommandView::SendMessage(m)), id);
            gives_up(out, ChannelErrorKind::CantSend) && out.0.channels == s.channels
        }),
        ({
            let back = step::<A, K, F>(
                s,
                EventView::Command(ChannelCommandView::ReceiveMessage(m)),
                id,
            );
            gives_up(back, ChannelErrorKind::RecvError) && back.0.channels == s.channels
        }),
{
}

/// Whatever an action can lead to is expected.
pub proof fn law_every_outcome_is_expected<A, K, F>(
    s: ManagerView<A, K>,
    event: EventView<A, K, F>,
    id: u32,
)
    requires
        s.wf(),
        s.expects(event),
    ensures
        ({
            let (t, r) = step(s, event, id);
            match r.action {
                ActionView::Receive => {
                    &&& t.expects(EventView::<A, K, F>::QueueEmpty)
                    &&& forall|c: ChannelCommandView| #[trigger]
                        t.expects(EventView::<A, K, F>::Command(c))
                },
                ActionView::CreateInitiator | ActionView::CreateResponder => forall|a: A| #[trigger]
                    t.expects(EventView::<A, K, F>::Created(a)),
                ActionView::Check(_, hops) => forall|a: A, complete: bool|
                    hops >= 2 || !complete ==> #[trigger] t.expects(
                        EventView::<A, K, F>::Checked(a, complete),
                    ),
                ActionView::Process(_, _) => forall|a: A, result: Result<Seq<u8>, F>| #[trigger]
                    t.expects(EventView::Processed(a, result)),
                ActionView::Finalize(_) => forall|a: A, result: Result<K, F>| #[trigger]
                    t.expects(EventView::Finalized(a, result)),
                ActionView::Encrypt(_, _, _) => forall|k: K, result: Result<Seq<u8>, F>| #[trigger]
                    t.expects(EventView::Encrypted(k, result)),
                ActionView::Decrypt(_, _, _) => forall|k: K, result: Result<Seq<u8>, F>| #[trigger]
                    t.expects(EventView::Decrypted(k, result)),
                ActionView::Send(_) => forall|sent: bool| #[trigger]
                    t.expects(EventView::<A, K, F>::Sent(sent)),
                ActionView::Return(_) => t.expects(EventView::<A, K, F>::Wake),
            }
        }),
{
}

// ---------------------------------------------------------------------------
// Opening a channel
// ---------------------------------------------------------------------------

/// A message without content, or a payload, to a channel that is not kept opens one. Its key
/// agreement is asked for its first message, with no data. That message leaves along the way that
/// was asked for: all the addresses of the request but the first, in order, and then the zero
/// channel; its way back is the new channel and then all of the way back of the request. When it
/// has left, an empty notice waits on the channel, to whoever asked, from the channel. Nothing else
/// leaves, and no other channel changes.
pub proof fn law_request_opens_channel<A, K, F>(
    s: ManagerView<A, K>,
    m: MessageView,
    id: u32,
    first: A,
    second: A,
    body: Seq<u8>,
)
    requires
        s.wf(),
        s.phase is Receiving,
        m.onward_route.len() > 0,
        forall|k: u32| #[trigger]
            s.channels.contains_key(k) ==> m.onward_route[0].address.text() != hex_text(
                le_bytes(k),
            ),
        m.message_type == MessageType::Empty || m.message_type == MessageType::Payload,
    ensures
        ({
            let (s1, r1) = step::<A, K, F>(
                s,
                EventView::Command(ChannelCommandView::SendMessage(m)),
                id,
            );
            let (s2, r2) = step::<A, K, F>(s1, EventView::Created(first), 0);
            let (s3, r3) = step::<A, K, F>(s2, EventView::Processed(second, Ok(body)), 0);
            let (s4, r4) = step::<A, K, F>(s3, EventView::Sent(true), 0);
            &&& s1.channels == s.channels && r1.outbox.len() == 0 && r1.action is CreateInitiator
            &&& s2.channels == s.channels && r2.outbox.len() == 0
            &&& r2.action matches ActionView::Process(asked, data) && asked == first && data.len()
                == 0
            &&& r3.outbox.len() == 0
            &&& r3.action matches ActionView::Send(RouterCommandView::SendMessage(sent)) && {
                &&& sent.onward_route.len() == m.onward_route.len()
                &&& forall|i: int|
                    #![trigger sent.onward_route[i]]
                    0 <= i < m.onward_route.len() - 1 ==> sent.onward_route[i]
                        == m.onward_route[i + 1]
                &&& sent.onward_route.last() == channel_address(0)
                &&& is_behind(sent.return_route, channel_address(id), m.return_route)
                &&& sent.message_type == MessageType::KeyAgreementM1
                &&& sent.message_body == body
            }
            &&& same_but(s, s3, id) && s3.channels.contains_key(id)
            &&& s3.channels[id].id == id
            &&& s3.channels[id].agreement == Some(second)
            &&& s3.channels[id].completed_key_exchange is None
            &&& s3.channels[id].nonce == 0
            &&& s3.channels[id].route.len() == 0
            &&& s3.channels[id].pending is None
            &&& takes_next((s4, r4)) && same_but(s, s4, id) && s4.channels.contains_key(id)
            &&& s4.channels[id].pending matches Some(notice) && {
                &&& notice.onward_route == m.return_route
                &&& is_only(notice.return_route, channel_address(id))
                &&& notice.message_type == MessageType::Empty
                &&& notice.message_body.len() == 0
            }
            &&& s4.channels[id].id == id
            &&& s4.channels[id].agreement == Some(second)
            &&& s4.channels[id].completed_key_exchange is None
            &&& s4.channels[id].nonce == 0
            &&& s4.channels[id].route.len() == 0
        }),
{
    law_channel_is_found_by_print(s, m.onward_route[0], id);
}

/// A request fails as its key agreement does, and then opens no channel; where the router does
/// not take the first message the channel stays, with nobody to tell.
pub proof fn law_request_can_fail<A, K, F>(
    s: ManagerView<A, K>,
    m: MessageView,
    id: u32,
    first: A,
    second: A,
    body: Seq<u8>,
    failure: F,
)
    requires
        s.wf(),
        s.phase is Receiving,
        m.onward_route.len() > 0,
        s.lookup(m.onward_route[0]) is None,
    ensures
        ({
            let asked = step::<A, K, F>(
                s,
                EventView::Command(ChannelCommandView::SendMessage(m)),
                id,
            );
            let s2 = step::<A, K, F>(asked.0, EventView::Created(first), 0).0;
            let failed = step::<A, K, F>(s2, EventView::Processed(second, Err(failure)), 0);
            let s3 = step::<A, K, F>(s2, EventView::Processed(second, Ok(body)), 0).0;
            let unsent = step::<A, K, F>(s3, EventView::Sent(false), 0);
            if m.message_type == MessageType::Empty || m.message_type == MessageType::Payload {
                &&& gives_up(failed, ChannelErrorKind::KeyAgreement(failure))
                &&& failed.0.channels == s.channels
                &&& gives_up(unsent, ChannelErrorKind::CantSend)
                &&& unsent.0.channels == s3.channels
            } else {
                gives_up(asked, ChannelErrorKind::State) && asked.0.channels == s.channels
            }
        }),
{
}

// ---------------------------------------------------------------------------
// Through a channel
// ---------------------------------------------------------------------------

/// What a worker sends to a channel that is kept goes through it when its key agreement is
/// complete. The agreement is asked with the number of onward addresses; the whole body is
/// encrypted under the channel's keys and its next number; what leaves has as onward route all of
/// the channel's route, in order, and then the address named behind the channel, as way back the
/// channel's address as it was named and then all of the way back of the message, the same type,
/// and as body the two bytes of the number, least significant first, and then all that encryption
/// made. The channel has its agreement and its keys again and its number is one higher; nothing
/// else changes.
pub proof fn law_message_goes_through_channel<A, K, F>(
    s: ManagerView<A, K>,
    m: MessageView,
    id: u32,
    keys: K,
    agreement: A,
    back: K,
    sealed: Seq<u8>,
)
    requires
        s.wf(),
        s.phase is Receiving,
        m.onward_route.len() >= 2,
        s.channels.contains_key(id),
        m.onward_route[0].address.text() == hex_text(le_bytes(id)),
        s.channels[id].completed_key_exchange == Some(keys),
        s.channels[id].nonce < u16::MAX,
    ensures
        ({
            let before = s.channels[id];
            let (s1, r1) = step::<A, K, F>(
                s,
                EventView::Command(ChannelCommandView::SendMessage(m)),
                0,
            );
            let (s2, r2) = step::<A, K, F>(s1, EventView::Checked(agreement, true), 0);
            let (s3, r3) = step::<A, K, F>(s2, EventView::Encrypted(back, Ok(sealed)), 0);
            &&& r1.outbox.len() == 0 && same_but(s, s1, id)
            &&& r1.action matches ActionView::Check(asked, hops) && Some(asked) == before.agreement
                && hops == m.onward_route.len()
            &&& r2.outbox.len() == 0 && same_but(s, s2, id)
            &&& r2.action matches ActionView::Encrypt(under, number, data) && {
                &&& under == keys
                &&& number.len() == 2 && number[0] + 256 * number[1] == before.nonce
                &&& data == m.message_body
            }
            &&& r3.outbox.len() == 0
            &&& r3.action matches ActionView::Send(RouterCommandView::SendMessage(sent)) && {
                &&& is_before(sent.onward_route, before.route, m.onward_route[1])
                &&& is_behind(sent.return_route, m.onward_route[0], m.return_route)
                &&& sent.message_type == m.message_type
                &&& sent.message_body.len() == sealed.len() + 2
                &&& sent.message_body[0] + 256 * sent.message_body[1] == before.nonce
                &&& forall|i: int|
                    #![trigger sealed[i]]
                    0 <= i < sealed.len() ==> sent.message_body[i + 2] == sealed[i]
            }
            &&& s3.phase is Sending
            &&& same_but(s, s3, id) && s3.channels.contains_key(id)
            &&& s3.channels[id].id == id
            &&& s3.channels[id].agreement == Some(agreement)
            &&& s3.channels[id].completed_key_exchange == Some(back)
            &&& s3.channels[id].nonce == before.nonce + 1
            &&& s3.channels[id].route == before.route
            &&& s3.channels[id].pending == before.pending
        }),
{
    law_channel_is_found_by_print(s, m.onward_route[0], id);
}

/// What does not go through a channel that is kept: a message that comes before the key agreement
/// is complete is dropped; without keys, or with no number left, and where encryption fails, the
/// manager gives up. The channel then is as it was, with its agreement and keys back.
pub proof fn law_message_stays_behind<A, K, F>(
    s: ManagerView<A, K>,
    m: MessageView,
    id: u32,
    agreement: A,
    back: K,
    failure: F,
)
    requires
        s.wf(),
        s.phase is Receiving,
        m.onward_route.len() >= 1,
        s.channels.contains_key(id),
        m.onward_route[0].address.text() == hex_text(le_bytes(id)),
    ensures
        ({
            let before = s.channels[id];
            let s1 = step::<A, K, F>(
                s,
                EventView::Command(ChannelCommandView::SendMessage(m)),
                0,
            ).0;
            let early = step::<A, K, F>(s1, EventView::Checked(agreement, false), 0);
            let late = step::<A, K, F>(s1, EventView::Checked(agreement, true), 0);
            let failed = step::<A, K, F>(late.0, EventView::Encrypted(back, Err(failure)), 0);
            let able = before.completed_key_exchange is Some && before.nonce < u16::MAX;
            let same = ChannelView { agreement: Some(agreement), ..before };
            &&& takes_next(early) && same_but(s, early.0, id)
            &&& early.0.channels.contains_key(id) && early.0.channels[id] == same
            &&& !able ==> {
                &&& gives_up(late, ChannelErrorKind::State) && same_but(s, late.0, id)
                &&& late.0.channels.contains_key(id) && late.0.channels[id] == same
            }
            &&& able ==> {
                &&& gives_up(failed, ChannelErrorKind::Cipher(failure))
                &&& same_but(s, failed.0, id) && failed.0.channels.contains_key(id)
                &&& failed.0.channels[id] == (ChannelView {
                    completed_key_exchange: Some(back),
                    ..same
                })
            }
        }),
{
    law_channel_is_found_by_print(s, m.onward_route[0], id);
}

/// A message that is on its way to the router changes nothing more: taken, the manager goes on;
/// not taken, it reports that it cannot send.
pub proof fn law_sending_ends<A, K, F>(s: ManagerView<A, K>, sent: bool)
    requires
        s.phase is Sending,
    ensures
        ({
            let after = step::<A, K, F>(s, EventView::Sent(sent), 0);
            &&& after.0.channels == s.channels
            &&& sent ==> takes_next(after)
            &&& !sent ==> gives_up(after, ChannelErrorKind::CantSend)
        }),
{
}

// ---------------------------------------------------------------------------
// Coming in
// ---------------------------------------------------------------------------

/// The manager when a message has come in: at the channel that it names, or, for the zero
/// channel, at a new channel `id` for which the key agreement `made` has been made.
pub open spec fn come_in<A, K, F>(
    s: ManagerView<A, K>,
    m: MessageView,
    id: u32,
    made: A,
) -> Outcome<A, K, F> {
    let first = step::<A, K, F>(s, EventView::Command(ChannelCommandView::ReceiveMessage(m)), id);
    if m.onward_route[0].address.text() == "00000000"@ {
        step(first.0, EventView::Created(made), 0)
    } else {
        first
    }
}

/// The channel that a message is for: the kept one that prints like its first address, or, for
/// the zero channel, a blank one.
pub open spec fn channel_for<A, K>(s: ManagerView<A, K>, m: MessageView, id: u32, made: A) -> ChannelView<
    A,
    K,
> {
    if m.onward_route[0].address.text() == "00000000"@ {
        ChannelView {
            completed_key_exchange: None,
            id,
            agreement: Some(made),
            nonce: 0,
            route: Seq::empty(),
            pending: None,
        }
    } else {
        s.channels[id]
    }
}

/// A message for the zero channel asks for a key agreement that answers, and does nothing else
/// yet; one for a channel that is not kept is dropped.
pub proof fn law_message_without_channel<A, K, F>(s: ManagerView<A, K>, m: MessageView, id: u32)
    requires
        s.wf(),
        s.phase is Receiving,
        m.onward_route.len() > 0,
    ensures
        ({
            let (t, r) = step::<A, K, F>(
                s,
                EventView::Command(ChannelCommandView::ReceiveMessage(m)),
                id,
            );
            &&& m.onward_route[0].address.text() == "00000000"@ ==> {
                t.channels == s.channels && r.outbox.len() == 0 && r.action is CreateResponder
            }
            &&& (m.onward_route[0].address.text() != "00000000"@ && forall|k: u32| #[trigger]
                s.channels.contains_key(k) ==> m.onward_route[0].address.text() != hex_text(
                    le_bytes(k),
                )) ==> takes_next((t, r)) && t.channels == s.channels
        }),
{
    law_channel_is_found_by_print(s, m.onward_route[0], id);
}

/// A key agreement message that comes in is given to the key agreement of its channel, with its
/// whole body, and nothing is sent yet.
pub proof fn law_agreement_gets_whole_message<A, K, F>(
    s: ManagerView<A, K>,
    m: MessageView,
    id: u32,
    made: A,
)
    requires
        s.wf(),
        s.phase is Receiving,
        m.onward_route.len() > 0,
        m.message_type == MessageType::KeyAgreementM1 || m.message_type
            == MessageType::KeyAgreementM2 || m.message_type == MessageType::KeyAgreementM3,
        m.onward_route[0].address.text() == "00000000"@ || (s.channels.contains_key(id)
            && m.onward_route[0].address.text() == hex_text(le_bytes(id))),
    ensures
        ({
            let channel = channel_for(s, m, id, made);
            let (t, r) = come_in::<A, K, F>(s, m, id, made);
            &&& r.outbox.len() == 0
            &&& r.action == ActionView::<A, K, F>::Process(channel.agreement->0, m.message_body)
            &&& t.phase == (PhaseView::Processing { id, message: m })
            &&& same_but(s, t, id) && t.channels.contains_key(id)
            &&& t.channels[id] == (ChannelView { agreement: None, ..channel })
        }),
{
    law_channel_is_found_by_print(s, m.onward_route[0], id);
}

/// A first message that has been processed is answered by a second: along all of the way that the
/// first came, from the channel, with the body that the agreement made. A second one is answered
/// by a third: along all of the way that the second came, from the address that it was sent to,
/// and the keys are asked for. A third one is answered by nothing; the keys are asked for, if there
/// are none. Where the agreement fails, so does the manager.
pub proof fn law_processed_message_is_answered<A, K, F>(
    s: ManagerView<A, K>,
    id: u32,
    m: MessageView,
    agreement: A,
    body: Seq<u8>,
    failure: F,
)
    requires
        s.wf(),
        s.phase == (PhaseView::Processing { id, message: m }),
    ensures
        ({
            let (t, r) = step::<A, K, F>(s, EventView::Processed(agreement, Ok(body)), 0);
            let back = ChannelView { agreement: Some(agreement), ..s.channels[id] };
            let asks_keys = r.action == ActionView::<A, K, F>::Finalize(agreement) && t.channels
                == s.channels && t.phase == (PhaseView::Finalizing { id, message: m });
            let goes_on = r.action is Receive && t.phase is Receiving && same_but(s, t, id)
                && t.channels.contains_key(id) && t.channels[id] == back;
            &&& m.message_type == MessageType::KeyAgreementM1 ==> {
                &&& r.outbox.len() == 1
                &&& r.outbox[0] matches RouterCommandView::SendMessage(m2) && {
                    &&& m2.onward_route == m.return_route
                    &&& is_only(m2.return_route, channel_address(id))
                    &&& m2.message_type == MessageType::KeyAgreementM2
                    &&& m2.message_body == body
                }
                &&& goes_on
            }
            &&& m.message_type == MessageType::KeyAgreementM2 ==> {
                &&& r.outbox.len() == 1
                &&& r.outbox[0] matches RouterCommandView::SendMessage(m3) && {
                    &&& m3.onward_route == m.return_route
                    &&& is_only(m3.return_route, m.onward_route[0])
                    &&& m3.message_type == MessageType::KeyAgreementM3
                    &&& m3.message_body == body
                }
                &&& asks_keys
            }
            &&& m.message_type == MessageType::KeyAgreementM3 ==> {
                &&& r.outbox.len() == 0
                &&& s.channels[id].completed_key_exchange is None ==> asks_keys
                &&& s.channels[id].completed_key_exchange is Some ==> goes_on
            }
        }),
        ({
            let failed = step::<A, K, F>(s, EventView::Processed(agreement, Err(failure)), 0);
            &&& gives_up(failed, ChannelErrorKind::KeyAgreement(failure))
            &&& same_but(s, failed.0, id) && failed.0.channels.contains_key(id)
            &&& failed.0.channels[id] == (ChannelView {
                agreement: Some(agreement),
                ..s.channels[id]
            })
        }),
{
}

/// Keys make a channel ready: it has them and leads all of the way back that the message that
/// completed it came. What waits on it is handed inwards, from the channel, after a second
/// message, and is sent as it is after a third, and then waits no more. Where the agreement gives
/// no keys the manager gives up, and the channel is as it was.
pub proof fn law_keys_make_channel_ready<A, K, F>(
    s: ManagerView<A, K>,
    id: u32,
    m: MessageView,
    agreement: A,
    keys: K,
    failure: F,
)
    requires
        s.wf(),
        s.phase == (PhaseView::Finalizing { id, message: m }),
    ensures
        ({
            let before = s.channels[id];
            let (t, r) = step::<A, K, F>(s, EventView::Finalized(agreement, Ok(keys)), 0);
            let second = m.message_type == MessageType::KeyAgreementM2;
            &&& r.action is Receive && t.phase is Receiving
            &&& same_but(s, t, id) && t.channels.contains_key(id)
            &&& t.channels[id].id == id
            &&& t.channels[id].agreement == Some(agreement)
            &&& t.channels[id].completed_key_exchange == Some(keys)
            &&& t.channels[id].route == m.return_route
            &&& t.channels[id].nonce == before.nonce
            &&& t.channels[id].pending == if second {
                before.pending
            } else {
                None
            }
            &&& before.pending is None ==> r.outbox.len() == 0
            &&& before.pending matches Some(p) ==> r.outbox.len() == 1 && if second {
                &&& r.outbox[0] matches RouterCommandView::ReceiveMessage(told)
                &&& told.onward_route == p.onward_route
                &&& is_only(told.return_route, channel_address(id))
                &&& told.message_type == p.message_type
                &&& told.message_body == p.message_body
            } else {
                r.outbox[0] == RouterCommandView::SendMessage(p)
            }
        }),
        ({
            let failed = step::<A, K, F>(s, EventView::Finalized(agreement, Err(failure)), 0);
            &&& gives_up(failed, ChannelErrorKind::KeyAgreement(failure))
            &&& same_but(s, failed.0, id) && failed.0.channels.contains_key(id)
            &&& failed.0.channels[id] == (ChannelView {
                agreement: Some(agreement),
                ..s.channels[id]
            })
        }),
{
}

/// A payload that comes in is handed on inwards: all of its onward route but the channel, its
/// whole way back, its type. On a channel with keys all of the body behind its first two bytes is
/// decrypted, with those two as number, and what comes of it is the body that is handed on; on one
/// without keys the body is handed on whole. A body without two bytes cannot be read, and what
/// cannot be decrypted goes nowhere. The channel has its keys again and is as it was.
pub proof fn law_payload_is_handed_on<A, K, F>(
    s: ManagerView<A, K>,
    m: MessageView,
    id: u32,
    made: A,
    back: K,
    plain: Seq<u8>,
    failure: F,
)
    requires
        s.wf(),
        s.phase is Receiving,
        m.onward_route.len() > 0,
        m.message_type == MessageType::Payload,
        m.onward_route[0].address.text() == "00000000"@ || (s.channels.contains_key(id)
            && m.onward_route[0].address.text() == hex_text(le_bytes(id))),
    ensures
        ({
            let channel = channel_for(s, m, id, made);
            let (t, r) = come_in::<A, K, F>(s, m, id, made);
            let (u, opened) = step::<A, K, F>(t, EventView::Decrypted(back, Ok(plain)), 0);
            let failed = step::<A, K, F>(t, EventView::Decrypted(back, Err(failure)), 0);
            let kept = ChannelView { completed_key_exchange: Some(back), ..channel };
            &&& same_but(s, t, id) && t.channels.contains_key(id) && r.outbox.len() == 0
            &&& m.message_body.len() < 2 ==> {
                gives_up((t, r), ChannelErrorKind::RecvError) && t.channels[id] == channel
            }
            &&& m.message_body.len() >= 2 && channel.completed_key_exchange is None ==> {
                &&& t.channels[id] == channel && t.phase is Sending
                &&& r.action matches ActionView::Send(RouterCommandView::ReceiveMessage(out))
                &&& is_rest_of(out.onward_route, m.onward_route)
                &&& out.return_route == m.return_route
                &&& out.message_type == MessageType::Payload
                &&& out.message_body == m.message_body
            }
            &&& m.message_body.len() >= 2 && channel.completed_key_exchange is Some ==> {
                &&& r.action matches ActionView::Decrypt(keys, number, data) && {
                    &&& Some(keys) == channel.completed_key_exchange
                    &&& number.len() == 2
                    &&& number[0] == m.message_body[0] && number[1] == m.message_body[1]
                    &&& data.len() + 2 == m.message_body.len()
                    &&& forall|i: int|
                        #![trigger data[i]]
                        0 <= i < data.len() ==> data[i] == m.message_body[i + 2]
                }
                &&& same_but(s, u, id) && u.channels.contains_key(id) && u.channels[id] == kept
                &&& opened.outbox.len() == 0 && u.phase is Sending
                &&& opened.action matches ActionView::Send(
                    RouterCommandView::ReceiveMessage(out),
                ) && {
                    &&& is_rest_of(out.onward_route, m.onward_route)
                    &&& out.return_route == m.return_route
                    &&& out.message_type == MessageType::Payload
                    &&& out.message_body == plain
                }
                &&& gives_up(failed, ChannelErrorKind::Cipher(failure))
                &&& same_but(s, failed.0, id) && failed.0.channels.contains_key(id)
                &&& failed.0.channels[id] == kept
            }
        }),
{
    law_channel_is_found_by_print(s, m.onward_route[0], id);
}

/// A message that comes in for a channel and is neither a payload nor part of a key agreement is
/// dropped.
pub proof fn law_other_message_is_dropped<A, K, F>(
    s: ManagerView<A, K>,
    m: MessageView,
    id: u32,
    made: A,
)
    requires
        s.wf(),
        s.phase is Receiving,
        m.onward_route.len() > 0,
        m.message_type is Empty || m.message_type is Other,
        m.onward_route[0].address.text() == "00000000"@ || (s.channels.contains_key(id)
            && m.onward_route[0].address.text() == hex_text(le_bytes(id))),
    ensures
        ({
            let after = come_in::<A, K, F>(s, m, id, made);
            &&& takes_next(after) && same_but(s, after.0, id) && after.0.channels.contains_key(id)
            &&& after.0.channels[id] == channel_for(s, m, id, made)
        }),
{
    law_channel_is_found_by_print(s, m.onward_route[0], id);
}

// ---------------------------------------------------------------------------
// From manager to manager
// ---------------------------------------------------------------------------

/// Where two managers run a key agreement, and `m1`, `m2` and `m3`, the three messages that they
/// send, arrive, each agreement is asked to process just what the other one has made, and both ends
/// have the keys that their agreements gave, on channels that lead to each other. An identifier of
/// zero is left out: messages to it would open yet another channel.
pub proof fn law_agreements_hear_each_other<A, K, F>(
    near: ManagerView<A, K>,
    far: ManagerView<A, K>,
    g: Agreement<A, K>,
    m1: MessageView,
    m2: MessageView,
    m3: MessageView,
)
    requires
        near.wf(),
        near.phase is Receiving,
        far.wf(),
        far.phase is Receiving,
        g.asked.onward_route.len() > 0,
        forall|k: u32| #[trigger]
            near.channels.contains_key(k) ==> g.asked.onward_route[0].address.text() != hex_text(
                le_bytes(k),
            ),
        g.asked.message_type == MessageType::Empty || g.asked.message_type == MessageType::Payload,
        g.near_id != 0,
        g.far_id != 0,
        g.near_opened::<F>(near).1 == ActionView::<A, K, F>::Send(
            RouterCommandView::SendMessage(m1),
        ),
        arrives(m1, g.m1, 1),
        g.far_answered::<F>(far).1.len() == 1,
        g.far_answered::<F>(far).1[0] == RouterCommandView::SendMessage(m2),
        arrives(m2, g.m2, 1 + g.asked.return_route.len()),
        g.near_ready::<F>(near).1.len() == 1,
        g.near_ready::<F>(near).1[0] == RouterCommandView::SendMessage(m3),
        arrives(m3, g.m3, 1),
    ensures
        ({
            let made = step::<A, K, F>(
                far,
                EventView::Command(ChannelCommandView::ReceiveMessage(g.m1)),
                g.far_id,
            ).0;
            step::<A, K, F>(made, EventView::Created(g.far_states.0), 0).1.action
                == ActionView::<A, K, F>::Process(g.far_states.0, g.bodies.0)
        }),
        step::<A, K, F>(
            g.near_opened::<F>(near).0,
            EventView::Command(ChannelCommandView::ReceiveMessage(g.m2)),
            0,
        ).1.action == ActionView::<A, K, F>::Process(g.near_states.1, g.bodies.1),
        step::<A, K, F>(
            g.far_answered::<F>(far).0,
            EventView::Command(ChannelCommandView::ReceiveMessage(g.m3)),
            0,
        ).1.action == ActionView::<A, K, F>::Process(g.far_states.1, g.bodies.2),
        ({
            let s = g.near_ready::<F>(near).0;
            &&& s.channels.contains_key(g.near_id)
            &&& s.channels[g.near_id].completed_key_exchange == Some(g.near_keys)
            &&& s.channels[g.near_id].route == g.m2.return_route
            &&& s.channels[g.near_id].route.last() == channel_address(g.far_id)
        }),
        ({
            let t = g.far_ready::<F>(far).0;
            &&& t.channels.contains_key(g.far_id)
            &&& t.channels[g.far_id].completed_key_exchange == Some(g.far_keys)
            &&& t.channels[g.far_id].route == g.m3.return_route
            &&& t.channels[g.far_id].route.last() == channel_address(g.near_id)
        }),
{
    let near_address = channel_address(g.near_id).address;
    let far_address = channel_address(g.far_id).address;
    address::law_channel_id_is_text(near_address, g.near_id);
    address::law_channel_id_is_text(far_address, g.far_id);
    address::law_zero_channel_text(near_address);
    address::law_zero_channel_text(far_address);
    address::law_channel_id_is_text(channel_address(0).address, 0);
    address::law_zero_channel_text(channel_address(0).address);
    law_channel_is_found_by_print(near, g.asked.onward_route[0], g.near_id);
    laws::law_channel_opens_on_demand::<A, K, F>(
        near,
        g.asked,
        g.near_id,
        g.near_states.0,
        g.near_states.1,
        g.bodies.0,
    );
    assert(g.m1.onward_route[0] == channel_address(0));
    laws::law_first_message_is_answered::<A, K, F>(
        far,
        g.m1,
        g.far_id,
        g.far_states.0,
        g.far_states.1,
        g.bodies.1,
    );
    let home = g.m1.return_route;
    let tail = home.skip(home.len() - m1.return_route.len());
    assert(tail[0] == channel_address(g.near_id));
    assert(g.m2.onward_route[0] == tail[0]);
    laws::law_second_message_completes::<A, K, F>(
        g.near_opened::<F>(near).0,
        g.m2,
        g.near_id,
        g.near_states.2,
        g.bodies.2,
        g.near_states.3,
        g.near_keys,
    );
    assert(g.delivered());
    laws::law_key_agreement::<A, K, F>(near, far, g);
    assert(g.m3.onward_route[0] == g.m2.return_route.last());
}

/// What one manager sends through a channel, and another gets at the channel that it leads to,
/// is decrypted there whole, under the keys of that channel and the number that it was encrypted
/// with; and what comes of that goes to whoever was named behind the channel, and to nobody else,
/// with a way back that ends in the channel and all of the way back of the message.
pub proof fn law_what_is_sent_comes_out<A, K, F>(
    near: ManagerView<A, K>,
    far: ManagerView<A, K>,
    m: MessageView,
    near_id: u32,
    far_id: u32,
    agreement: A,
    near_keys: K,
    far_keys: K,
    sealed: Seq<u8>,
    plain: Seq<u8>,
    sent: MessageView,
    got: MessageView,
)
    requires
        near.wf(),
        near.phase is Receiving,
        far.wf(),
        far.phase is Receiving,
        m.onward_route.len() >= 2,
        m.message_type == MessageType::Payload,
        near.channels.contains_key(near_id),
        m.onward_route[0].address.text() == hex_text(le_bytes(near_id)),
        near.channels[near_id].completed_key_exchange == Some(near_keys),
        near.channels[near_id].nonce < u16::MAX,
        near.channels[near_id].route.len() > 0,
        near.channels[near_id].route.last() == channel_address(far_id),
        far.channels.contains_key(far_id),
        far.channels[far_id].completed_key_exchange == Some(far_keys),
        far_id != 0,
        ({
            let s1 = step::<A, K, F>(
                near,
                EventView::Command(ChannelCommandView::SendMessage(m)),
                0,
            ).0;
            let s2 = step::<A, K, F>(s1, EventView::Checked(agreement, true), 0).0;
            step::<A, K, F>(s2, EventView::Encrypted(near_keys, Ok(sealed)), 0).1.action
                == ActionView::<A, K, F>::Send(RouterCommandView::SendMessage(sent))
        }),
        arrives(sent, got, 2),
    ensures
        ({
            let (t, r) = step::<A, K, F>(
                far,
                EventView::Command(ChannelCommandView::ReceiveMessage(got)),
                0,
            );
            let opened = step::<A, K, F>(t, EventView::Decrypted(far_keys, Ok(plain)), 0).1;
            &&& r.action matches ActionView::Decrypt(keys, number, data) && {
                &&& keys == far_keys
                &&& number.len() == 2 && number[0] + 256 * number[1]
                    == near.channels[near_id].nonce
                &&& data == sealed
            }
            &&& opened.outbox.len() == 0
            &&& opened.action matches ActionView::Send(RouterCommandView::ReceiveMessage(out)) && {
                let over = out.return_route.len() - m.return_route.len();
                &&& is_only(out.onward_route, m.onward_route[1])
                &&& out.message_type == MessageType::Payload
                &&& out.message_body == plain
                &&& over >= 1 && out.return_route[over - 1] == m.onward_route[0]
                &&& forall|i: int|
                    #![trigger m.return_route[i]]
                    0 <= i < m.return_route.len() ==> out.return_route[over + i]
                        == m.return_route[i]
            }
        }),
{
    let route = near.channels[near_id].route;
    address::law_channel_id_is_text(channel_address(far_id).address, far_id);
    address::law_zero_channel_text(channel_address(far_id).address);
    law_message_goes_through_channel::<A, K, F>(
        near,
        m,
        near_id,
        near_keys,
        agreement,
        near_keys,
        sealed,
    );
    assert(route.last() == route[route.len() - 1]);
    assert(got.onward_route[0] == sent.onward_route[route.len() - 1]);
    assert(got.onward_route[1] == sent.onward_route[route.len() as int]);
    law_payload_is_handed_on::<A, K, F>(
        far,
        got,
        far_id,
        agreement,
        far_keys,
        plain,
        arbitrary(),
    );
    let t = step::<A, K, F>(far, EventView::Command(ChannelCommandView::ReceiveMessage(got)), 0);
    assert(t == come_in::<A, K, F>(far, got, far_id, agreement));
    assert(t.1.action->Decrypt_2 =~= sealed) by {
        assert forall|i: int| 0 <= i < sealed.len() implies t.1.action->Decrypt_2[i] == sealed[i] by {
            assert(t.1.action->Decrypt_2[i] == got.message_body[i + 2]);
        }
    }
    let over = got.return_route.len() - m.return_route.len();
    let tail = got.return_route.skip(got.return_route.len() - sent.return_route.len());
    assert(tail[0] == got.return_route[over - 1]);
    assert forall|i: int|
        #![trigger m.return_route[i]]
        0 <= i < m.return_route.len() implies got.return_route[over + i] == m.return_route[i] by {
        assert(tail[i + 1] == got.return_route[over + i]);
    }
}

// ---------------------------------------------------------------------------
// The worker
// ---------------------------------------------------------------------------

/// A worker is made with an address of its own, with the channel that it is given or else the
/// zero channel, with nothing kept and no greeting given.
pub proof fn law_new_worker(channel: AddressView)
    ensures
        ({
            let w = WorkerView::initial(Some(channel));
            let v = WorkerView::initial(None);
            &&& w.address == AddressView::WorkerAddress(seq![0u8, 1u8, 2u8, 3u8])
            &&& w.channel_address == channel
            &&& w.pending_message is None && w.toggle == 0 && w.phase is Idle
            &&& v == (WorkerView { channel_address: v.channel_address, ..w })
            &&& v.channel_address == AddressView::ChannelAddress(seq![0u8, 0u8, 0u8, 0u8])
        }),
{
}

/// A worker that has a channel sends every message to it and to nobody else, with the type and the
/// body that it was given, and its own address before all of the way back; it stays as it is.
pub proof fn law_worker_sends_to_its_channel(w: WorkerView, m: MessageView)
    requires
        w.channel_address.text() != "00000000"@,
    ensures
        w.send_step(m).0 == w,
        w.send_step(m).1 matches Ok(Some(d)) && {
            &&& d.on_failure == Some("handle_send failed in TestWorker"@)
            &&& d.command matches RouterCommandView::SendMessage(sent)
            &&& sent.onward_route.len() == 1
            &&& stands_for(sent.onward_route[0], w.channel_address)
            &&& is_behind(sent.return_route, sent.return_route[0], m.return_route)
            &&& stands_for(sent.return_route[0], w.address)
            &&& sent.message_type == m.message_type
            &&& sent.message_body == m.message_body
        },
{
}

/// A worker without a channel asks for one: an empty message goes to the channel that is not there
/// and then all of the way of the message, with the worker's own address before all of the way
/// back. The body of the message is kept whole, as a payload, in place of what was kept before.
/// The worker changes in nothing else, and so where it is asked for a channel outright.
pub proof fn law_worker_asks_for_channel(w: WorkerView, m: MessageView)
    ensures
        w.channel_address.text() == "00000000"@ ==> w.send_step(m) == w.request_step(m),
        w.request_step(m).1 matches Ok(Some(d)) && {
            &&& d.on_failure is None
            &&& d.command matches RouterCommandView::SendMessage(sent)
            &&& is_behind(sent.onward_route, sent.onward_route[0], m.onward_route)
            &&& stands_for(sent.onward_route[0], w.channel_address)
            &&& is_behind(sent.return_route, sent.return_route[0], m.return_route)
            &&& stands_for(sent.return_route[0], w.address)
            &&& sent.message_type == MessageType::Empty
            &&& sent.message_body.len() == 0
        },
        w.request_step(m).0.pending_message matches Some(kept) && {
            &&& kept.onward_route.len() == 0
            &&& kept.return_route == m.return_route
            &&& kept.message_type == MessageType::Payload
            &&& kept.message_body == m.message_body
        },
        w.request_step(m).0 == (WorkerView {
            pending_message: w.request_step(m).0.pending_message,
            ..w
        }),
{
}

/// A worker that is told of a channel, the one return address of an empty message, goes by it from
/// then on. What it kept leaves with its body and its type, to the channel and then the worker
/// `00010203` behind it, from the worker's own address, and is kept no more. Without exactly one
/// return address nothing happens but the error.
pub proof fn law_worker_is_told_of_channel(w: WorkerView, m: MessageView)
    ensures
        m.message_type == MessageType::Empty ==> w.receive_step(m) == w.channel_step(m),
        m.return_route.len() != 1 ==> w.channel_step(m) == (
            w,
            Err::<Option<DispatchView>, Seq<char>>("bad return route"@),
        ),
        m.return_route.len() == 1 ==> w.channel_step(m).0 == (WorkerView {
            channel_address: m.return_route[0].address,
            pending_message: None,
            ..w
        }),
        m.return_route.len() == 1 && w.pending_message is None ==> w.channel_step(m).1 == Ok::<
            Option<DispatchView>,
            Seq<char>,
        >(None),
        m.return_route.len() == 1 && w.pending_message is Some ==> {
            let kept = w.pending_message->0;
            &&& w.channel_step(m).1 matches Ok(Some(d))
            &&& d.on_failure is None
            &&& d.command matches RouterCommandView::SendMessage(sent)
            &&& sent.onward_route.len() == 2
            &&& stands_for(sent.onward_route[0], m.return_route[0].address)
            &&& stands_for(
                sent.onward_route[1],
                AddressView::WorkerAddress(seq![0u8, 1u8, 2u8, 3u8]),
            )
            &&& sent.return_route.len() == 1 && stands_for(sent.return_route[0], w.address)
            &&& sent.message_type == kept.message_type
            &&& sent.message_body == kept.message_body
        },
{
    reveal_strlit("00010203");
    assert(hex_bytes("00010203"@) =~= seq![0u8, 1u8, 2u8, 3u8]);
}

/// A worker answers a payload along all of the way that it came, from the worker `01020304`, with
/// one greeting on every even count and the other on every odd one; the count goes up by one, and
/// starts again at zero behind the last. Nothing else changes. A message of another type that is
/// not empty is an error.
pub proof fn law_worker_answers(w: WorkerView, m: MessageView)
    ensures
        m.message_type == MessageType::Payload ==> {
            &&& w.receive_step(m).0 == (WorkerView { toggle: w.receive_step(m).0.toggle, ..w })
            &&& w.toggle < u16::MAX ==> w.receive_step(m).0.toggle == w.toggle + 1
            &&& w.toggle == u16::MAX ==> w.receive_step(m).0.toggle == 0
            &&& w.receive_step(m).1 matches Ok(Some(d))
            &&& d.on_failure == Some("send to router failed in TestWorker"@)
            &&& d.command matches RouterCommandView::SendMessage(reply)
            &&& reply.onward_route == m.return_route
            &&& reply.return_route.len() == 1
            &&& stands_for(
                reply.return_route[0],
                AddressView::WorkerAddress(seq![1u8, 2u8, 3u8, 4u8]),
            )
            &&& reply.message_type == MessageType::Payload
            &&& w.toggle % 2 == 0 ==> reply.message_body == encode_utf8("Hello Ockam"@)
            &&& w.toggle % 2 == 1 ==> reply.message_body == encode_utf8("Goodbye Ockam"@)
        },
        m.message_type != MessageType::Payload && m.message_type != MessageType::Empty
            ==> w.receive_step(m) == (
            w,
            Err::<Option<DispatchView>, Seq<char>>("worker got bad message type"@),
        ),
{
    reveal_strlit("01020304");
    assert(hex_bytes("01020304"@) =~= seq![1u8, 2u8, 3u8, 4u8]);
}

/// What a worker has handled leaves at once, if nobody asks what becomes of it, and is otherwise
/// waited for; then it takes the next command. A command to stop is remembered until the queue is
/// empty, when the worker reports it; no other command changes whether it goes on.
pub proof fn law_worker_works_through_queue(w: WorkerView, command: WorkerCommandView, going: bool)
    requires
        command.accepted(),
        w.phase == (WorkerPhaseView::Receiving { keep_going: going }),
    ensures
        w.expects(WorkerEventView::Command(command)),
        w.expects(WorkerEventView::QueueEmpty),
        w.at(WorkerPhaseView::Sending { keep_going: going }).expects(WorkerEventView::Sent),
        w.at(WorkerPhaseView::Idle).expects(WorkerEventView::Wake),
        ({
            let (v, r) = w.step(WorkerEventView::Command(command));
            let quiet = r.outbox.len() == 0 && r.action is Receive;
            match command {
                WorkerCommandView::Test | WorkerCommandView::Foreign => quiet && v == w,
                WorkerCommandView::Stop => quiet && v == w.at(
                    WorkerPhaseView::Receiving { keep_going: false },
                ),
                WorkerCommandView::SendMessage(_) | WorkerCommandView::ReceiveMessage(_) => {
                    let (next, handled) = match command {
                        WorkerCommandView::SendMessage(m) => w.send_step(m),
                        WorkerCommandView::ReceiveMessage(m) => w.receive_step(m),
                        _ => arbitrary(),
                    };
                    &&& v.at(w.phase) == next
                    &&& handled matches Ok(dispatch)
                    &&& dispatch is None ==> quiet && v.phase == w.phase
                    &&& dispatch matches Some(d) ==> match d.on_failure {
                        None => v.phase == w.phase && r.action is Receive && is_only(
                            r.outbox,
                            d.command,
                        ),
                        Some(e) => {
                            &&& v.phase == (WorkerPhaseView::Sending { keep_going: going })
                            &&& r.outbox.len() == 0
                            &&& r.action == WorkerActionView::Send(d.command, e)
                        },
                    }
                },
            }
        }),
        ({
            let (v, r) = w.step(WorkerEventView::QueueEmpty);
            &&& v == w.at(WorkerPhaseView::Idle)
            &&& r.outbox.len() == 0 && r.action == WorkerActionView::Return(going)
        }),
        ({
            let (v, r) = w.at(WorkerPhaseView::Sending { keep_going: going }).step(
                WorkerEventView::Sent,
            );
            v == w && r.outbox.len() == 0 && r.action is Receive
        }),
        ({
            let (v, r) = w.at(WorkerPhaseView::Idle).step(WorkerEventView::Wake);
            &&& v == w.at(WorkerPhaseView::Receiving { keep_going: true })
            &&& r.outbox.len() == 0 && r.action is Receive
        }),
{
}

/// A worker can work on a command unless it is a message to it that is not text, or of a type
/// that is neither a payload nor empty, or empty without exactly one return address.
pub proof fn law_worker_accepts(command: WorkerCommandView)
    ensures
        command.accepted() <==> (command matches WorkerCommandView::ReceiveMessage(m) ==> {
            &&& vstd::utf8::valid_utf8(m.message_body)
            &&& m.message_type == MessageType::Payload || (m.message_type == MessageType::Empty
                && m.return_route.len() == 1)
        }),
        command matches WorkerCommandView::ReceiveMessage(m) ==> {
            &&& m.message_type == MessageType::Empty && m.return_route.len() != 1
                ==> command.objection() == Some("bad return route"@)
            &&& m.message_type != MessageType::Empty && m.message_type != MessageType::Payload
                ==> command.objection() == Some("worker got bad message type"@)
        },
{
}

} // verus!
