//! A worker that asks for a channel, sends one message through it, and answers messages.

use vstd::prelude::*;
use vstd::slice::slice_to_vec;
use vstd::utf8::encode_utf8;
use crate::address::{Address, AddressType, AddressView, Route, RouterAddress};
use crate::address;
use crate::encoding;
use crate::message::{
    Message,
    MessageType,
    MessageView,
    OckamCommand,
    RouterCommand,
    RouterCommandView,
    WorkerCommand,
    WorkerCommandView,
};

verus! {

// ---------------------------------------------------------------------------
// Types
// ---------------------------------------------------------------------------

/// A command for the router, with the error to report if the router does not take it. Without
/// such an error nobody asks what became of the command.
#[derive(Debug, PartialEq, Eq)]
pub struct Dispatch {
    pub command: RouterCommand,
    pub on_failure: Option<String>,
}

/// What a worker is told.
pub enum WorkerEvent {
    /// Check for work to be done.
    Wake,
    /// The queue held this command.
    Command(OckamCommand),
    /// The queue is empty or closed.
    QueueEmpty,
    /// The router took the command.
    Sent,
}

/// What a worker asks for.
#[derive(Debug, PartialEq, Eq)]
pub enum WorkerAction {
    /// Take the next command from the queue.
    Receive,
    /// Give the router a command. A worker cannot go on if the router does not take it: that is
    /// the error `on_failure`.
    Send { command: RouterCommand, on_failure: String },
    /// Work is done: report whether there will be more.
    Return(bool),
}

/// What a worker does on an event: it sends the commands in the outbox to the router,
/// whatever becomes of them, and then asks for an action.
#[derive(Debug, PartialEq, Eq)]
pub struct WorkerReaction {
    pub outbox: Vec<RouterCommand>,
    pub action: WorkerAction,
}

/// What a worker is in the middle of.
enum Phase {
    Idle,
    Receiving { keep_going: bool },
    Sending { keep_going: bool },
}

/// A worker. It has at most one message waiting for a channel.
pub struct TestWorker {
    address: Address,
    channel_address: Address,
    pending_message: Option<Message>,
    toggle: u16,
    phase: Phase,
}

// ---------------------------------------------------------------------------
// Model
// ---------------------------------------------------------------------------

/// What a [`Dispatch`] says.
pub struct DispatchView {
    pub command: RouterCommandView,
    pub on_failure: Option<Seq<char>>,
}

/// What a worker makes of a message: something to send, nothing, or an error.
pub type Handled = Result<Option<DispatchView>, Seq<char>>;

/// What a worker is told.
pub enum WorkerEventView {
    Wake,
    Command(WorkerCommandView),
    QueueEmpty,
    Sent,
}

/// What a worker asks for.
pub enum WorkerActionView {
    Receive,
    Send(RouterCommandView, Seq<char>),
    Return(bool),
}

/// What a worker does on an event.
pub struct WorkerReactionView {
    pub outbox: Seq<RouterCommandView>,
    pub action: WorkerActionView,
}

/// What a worker is in the middle of: nothing, waiting for a command, waiting for a message to
/// leave. `keep_going` says whether it has not been told to stop.
pub enum WorkerPhaseView {
    Idle,
    Receiving { keep_going: bool },
    Sending { keep_going: bool },
}

/// What a worker remembers.
pub struct WorkerView {
    pub address: AddressView,
    pub channel_address: AddressView,
    pub pending_message: Option<MessageView>,
    pub toggle: u16,
    pub phase: WorkerPhaseView,
}

/// What an optional text says.
pub open spec fn view_text(text: Option<String>) -> Option<Seq<char>> {
    match text {
        Some(t) => Some(t@),
        None => None,
    }
}

/// What a worker has made of a message.
pub open spec fn view_handled(handled: Result<Option<Dispatch>, String>) -> Handled {
    match handled {
        Ok(Some(d)) => Ok(Some(d@)),
        Ok(None) => Ok(None),
        Err(e) => Err(e@),
    }
}

impl View for Dispatch {
    type V = DispatchView;

    open spec fn view(&self) -> DispatchView {
        DispatchView { command: self.command@, on_failure: view_text(self.on_failure) }
    }
}

impl View for WorkerEvent {
    type V = WorkerEventView;

    open spec fn view(&self) -> WorkerEventView {
        match self {
            WorkerEvent::Wake => WorkerEventView::Wake,
            WorkerEvent::Command(command) => WorkerEventView::Command(command.to_worker()),
            WorkerEvent::QueueEmpty => WorkerEventView::QueueEmpty,
            WorkerEvent::Sent => WorkerEventView::Sent,
        }
    }
}

impl View for WorkerAction {
    type V = WorkerActionView;

    open spec fn view(&self) -> WorkerActionView {
        match self {
            WorkerAction::Receive => WorkerActionView::Receive,
            WorkerAction::Send { command, on_failure } => {
                WorkerActionView::Send(command@, on_failure@)
            },
            WorkerAction::Return(keep_going) => WorkerActionView::Return(*keep_going),
        }
    }
}

impl View for WorkerReaction {
    type V = WorkerReactionView;

    open spec fn view(&self) -> WorkerReactionView {
        WorkerReactionView {
            outbox: self.outbox@.map_values(|c: RouterCommand| c@),
            action: self.action@,
        }
    }
}

/// What a worker is told, asks for and dispatches is shown whole.
pub proof fn law_worker_exchange_is_shown_whole(
    event: WorkerEvent,
    reaction: WorkerReaction,
    dispatch: Dispatch,
    i: int,
)
    ensures
        reaction@.outbox.len() == reaction.outbox@.len(),
        0 <= i < reaction.outbox@.len() ==> reaction@.outbox[i] == reaction.outbox@[i]@,
        match reaction.action {
            WorkerAction::Receive => reaction@.action is Receive,
            WorkerAction::Send { command, on_failure } => {
                reaction@.action matches WorkerActionView::Send(c, e) && c == command@ && e
                    == on_failure@
            },
            WorkerAction::Return(keep_going) => {
                reaction@.action matches WorkerActionView::Return(b) && b == keep_going
            },
        },
        match event {
            WorkerEvent::Wake => event@ is Wake,
            WorkerEvent::Command(command) => {
                event@ matches WorkerEventView::Command(c) && c == command.to_worker()
            },
            WorkerEvent::QueueEmpty => event@ is QueueEmpty,
            WorkerEvent::Sent => event@ is Sent,
        },
        dispatch@.command == dispatch.command@,
        dispatch@.on_failure is Some <==> dispatch.on_failure is Some,
        dispatch.on_failure matches Some(e) ==> dispatch@.on_failure == Some(e@),
        view_handled(Ok(Some(dispatch))) == Ok::<Option<DispatchView>, Seq<char>>(Some(dispatch@)),
        view_handled(Ok(None)) == Ok::<Option<DispatchView>, Seq<char>>(None),
{
}

/// An error of a worker is shown whole.
pub proof fn law_worker_error_is_shown_whole(e: String)
    ensures
        view_handled(Err(e)) == Err::<Option<DispatchView>, Seq<char>>(e@),
{
}

impl View for Phase {
    type V = WorkerPhaseView;

    closed spec fn view(&self) -> WorkerPhaseView {
        match self {
            Phase::Idle => WorkerPhaseView::Idle,
            Phase::Receiving { keep_going } => {
                WorkerPhaseView::Receiving { keep_going: *keep_going }
            },
            Phase::Sending { keep_going } => WorkerPhaseView::Sending { keep_going: *keep_going },
        }
    }
}

impl View for TestWorker {
    type V = WorkerView;

    closed spec fn view(&self) -> WorkerView {
        WorkerView {
            address: self.address@,
            channel_address: self.channel_address@,
            pending_message: match self.pending_message {
                Some(m) => Some(m@),
                None => None,
            },
            toggle: self.toggle,
            phase: self.phase@,
        }
    }
}

/// The address that a worker gives itself.
pub open spec fn own_address() -> AddressView {
    AddressView::WorkerAddress(seq![0u8, 1u8, 2u8, 3u8])
}

/// The worker at the far end of a channel.
pub open spec fn far_worker() -> AddressView {
    AddressView::WorkerAddress(encoding::hex_bytes("00010203"@))
}

/// The worker that replies come from.
pub open spec fn reply_worker() -> AddressView {
    AddressView::WorkerAddress(encoding::hex_bytes("01020304"@))
}

/// What a worker answers: the two greetings in turn.
pub open spec fn greeting(toggle: u16) -> Seq<char> {
    if toggle % 2 == 0 {
        "Hello Ockam"@
    } else {
        "Goodbye Ockam"@
    }
}

/// The next value of a counter that starts again at zero after the last one.
pub open spec fn next_toggle(toggle: u16) -> u16 {
    ((toggle + 1) % 0x1_0000) as u16
}

impl WorkerView {
    /// A worker to which nothing has happened yet.
    pub open spec fn initial(channel_address: Option<AddressView>) -> Self {
        WorkerView {
            address: own_address(),
            channel_address: match channel_address {
                Some(a) => a,
                None => AddressView::ChannelAddress(seq![0u8, 0u8, 0u8, 0u8]),
            },
            pending_message: None,
            toggle: 0,
            phase: WorkerPhaseView::Idle,
        }
    }

    /// Whether the worker has no channel yet.
    pub open spec fn lacks_channel(self) -> bool {
        self.channel_address.text() == "00000000"@
    }

    /// The request for a channel that `m` makes necessary: an empty message along the way of
    /// `m`, through the channel that is not there yet.
    pub open spec fn channel_request(self, m: MessageView) -> MessageView {
        MessageView {
            onward_route: seq![self.channel_address.routed()] + m.onward_route,
            return_route: seq![self.address.routed()] + m.return_route,
            message_type: MessageType::Empty,
            message_body: Seq::empty(),
        }
    }

    /// What is kept of `m` until there is a channel.
    pub open spec fn kept(m: MessageView) -> MessageView {
        MessageView {
            onward_route: Seq::empty(),
            return_route: m.return_route,
            message_type: MessageType::Payload,
            message_body: m.message_body,
        }
    }

    /// `m`, sent to the channel.
    pub open spec fn to_channel(self, m: MessageView) -> MessageView {
        MessageView {
            onward_route: seq![self.channel_address.routed()],
            return_route: seq![self.address.routed()] + m.return_route,
            ..m
        }
    }

    /// The kept message `m`, sent through `channel` to the worker behind it.
    pub open spec fn through(self, channel: AddressView, m: MessageView) -> MessageView {
        MessageView {
            onward_route: seq![channel.routed(), far_worker().routed()],
            return_route: seq![self.address.routed()],
            ..m
        }
    }

    /// The reply to `m`.
    pub open spec fn reply(self, m: MessageView) -> MessageView {
        MessageView {
            onward_route: m.return_route,
            return_route: seq![reply_worker().routed()],
            message_type: MessageType::Payload,
            message_body: encode_utf8(greeting(self.toggle)),
        }
    }

    /// The worker asks for a channel for `m`, and keeps `m`.
    pub open spec fn request_step(self, m: MessageView) -> (Self, Handled) {
        (
            WorkerView { pending_message: Some(Self::kept(m)), ..self },
            Ok(
                Some(
                    DispatchView {
                        command: RouterCommandView::SendMessage(self.channel_request(m)),
                        on_failure: None,
                    },
                ),
            ),
        )
    }

    /// The worker is to send `m`.
    pub open spec fn send_step(self, m: MessageView) -> (Self, Handled) {
        if self.lacks_channel() {
            self.request_step(m)
        } else {
            (
                self,
                Ok(
                    Some(
                        DispatchView {
                            command: RouterCommandView::SendMessage(self.to_channel(m)),
                            on_failure: Some("handle_send failed in TestWorker"@),
                        },
                    ),
                ),
            )
        }
    }

    /// The worker is told of a channel by `m`, which names it as its one return address. What
    /// was kept is sent through it.
    pub open spec fn channel_step(self, m: MessageView) -> (Self, Handled) {
        if m.return_route.len() != 1 {
            (self, Err("bad return route"@))
        } else {
            let channel = m.return_route[0].address;
            (
                WorkerView { channel_address: channel, pending_message: None, ..self },
                match self.pending_message {
                    Some(p) => Ok(
                        Some(
                            DispatchView {
                                command: RouterCommandView::SendMessage(self.through(channel, p)),
                                on_failure: None,
                            },
                        ),
                    ),
                    None => Ok(None),
                },
            )
        }
    }

    /// The worker receives `m`.
    pub open spec fn receive_step(self, m: MessageView) -> (Self, Handled) {
        match m.message_type {
            MessageType::Empty => self.channel_step(m),
            MessageType::Payload => (
                WorkerView { toggle: next_toggle(self.toggle), ..self },
                Ok(
                    Some(
                        DispatchView {
                            command: RouterCommandView::SendMessage(self.reply(m)),
                            on_failure: Some("send to router failed in TestWorker"@),
                        },
                    ),
                ),
            ),
            _ => (self, Err("worker got bad message type"@)),
        }
    }

    /// Whether the event is the outcome of what the worker asked for last, and one on which it
    /// can go on: a command that it can work on, a router that takes what must leave.
    pub open spec fn expects(self, event: WorkerEventView) -> bool {
        match self.phase {
            WorkerPhaseView::Idle => event is Wake,
            WorkerPhaseView::Receiving { keep_going } => match event {
                WorkerEventView::Command(command) => command.accepted(),
                _ => event is QueueEmpty,
            },
            WorkerPhaseView::Sending { keep_going } => event is Sent,
        }
    }

    /// The worker in another phase.
    pub open spec fn at(self, phase: WorkerPhaseView) -> Self {
        WorkerView { phase, ..self }
    }

    /// Send `outbox` and go on with the next command.
    pub open spec fn go_on(self, outbox: Seq<RouterCommandView>, keep_going: bool) -> (
        Self,
        WorkerReactionView,
    ) {
        (
            self.at(WorkerPhaseView::Receiving { keep_going }),
            WorkerReactionView { outbox, action: WorkerActionView::Receive },
        )
    }

    /// What follows when a message has been handled.
    pub open spec fn after(self, dispatch: Option<DispatchView>, keep_going: bool) -> (
        Self,
        WorkerReactionView,
    ) {
        match dispatch {
            Some(d) => match d.on_failure {
                Some(on_failure) => (
                    self.at(WorkerPhaseView::Sending { keep_going }),
                    WorkerReactionView {
                        outbox: Seq::empty(),
                        action: WorkerActionView::Send(d.command, on_failure),
                    },
                ),
                None => self.go_on(seq![d.command], keep_going),
            },
            None => self.go_on(Seq::empty(), keep_going),
        }
    }

    /// What a worker becomes and does on an event that it expects.
    pub open spec fn step(self, event: WorkerEventView) -> (Self, WorkerReactionView) {
        match (self.phase, event) {
            (WorkerPhaseView::Idle, WorkerEventView::Wake) => self.go_on(Seq::empty(), true),
            (WorkerPhaseView::Receiving { keep_going }, WorkerEventView::Command(command)) => {
                match command {
                    WorkerCommandView::SendMessage(m) => {
                        let (next, handled) = self.send_step(m);
                        next.after(handled->Ok_0, keep_going)
                    },
                    WorkerCommandView::ReceiveMessage(m) => {
                        let (next, handled) = self.receive_step(m);
                        next.after(handled->Ok_0, keep_going)
                    },
                    WorkerCommandView::Stop => self.go_on(Seq::empty(), false),
                    WorkerCommandView::Test | WorkerCommandView::Foreign => {
                        self.go_on(Seq::empty(), keep_going)
                    },
                }
            },
            (WorkerPhaseView::Receiving { keep_going }, WorkerEventView::QueueEmpty) => (
                self.at(WorkerPhaseView::Idle),
                WorkerReactionView {
                    outbox: Seq::empty(),
                    action: WorkerActionView::Return(keep_going),
                },
            ),
            (WorkerPhaseView::Sending { keep_going }, WorkerEventView::Sent) => {
                self.go_on(Seq::empty(), keep_going)
            },
            _ => arbitrary(),
        }
    }
}

// ---------------------------------------------------------------------------
// Operations
// ---------------------------------------------------------------------------

impl TestWorker {
    /// What makes a worker the router's handler for all Worker address types.
    pub fn registration() -> (command: RouterCommand)
        ensures
            command@ == RouterCommandView::Register(AddressType::Worker),
    {
        RouterCommand::Register(AddressType::Worker)
    }

    /// A worker with the given channel, or without any.
    pub fn new(channel_address: Option<Address>) -> (worker: Self)
        ensures
            worker@ == WorkerView::initial(
                match channel_address {
                    Some(a) => Some(a@),
                    None => None,
                },
            ),
    {
        let channel = match channel_address {
            Some(a) => a,
            None => Address::ChannelAddress(vec![0u8, 0u8, 0u8, 0u8]),
        };
        let worker = TestWorker {
            address: Address::WorkerAddress(vec![0u8, 1u8, 2u8, 3u8]),
            channel_address: channel,
            pending_message: None,
            toggle: 0,
            phase: Phase::Idle,
        };
        assert(worker@.address->WorkerAddress_0 =~= seq![0u8, 1u8, 2u8, 3u8]);
        proof {
            if channel_address is None {
                assert(worker@.channel_address->ChannelAddress_0 =~= seq![0u8, 0u8, 0u8, 0u8]);
            }
        }
        worker
    }

    /// Asks for a channel for `m`, and keeps `m` until there is one.
    pub fn request_channel(&mut self, m: Message) -> (handled: Result<Option<Dispatch>, String>)
        ensures
            (final(self)@, view_handled(handled)) == old(self)@.request_step(m@),
    {
        let ghost message = m@;
        let mut m = m;
        let mut body: Vec<u8> = Vec::new();
        core::mem::swap(&mut body, &mut m.message_body);
        let kept = Message {
            onward_route: Route { addresses: Vec::new() },
            return_route: m.return_route.clone(),
            message_type: MessageType::Payload,
            message_body: body,
        };
        assert(kept@.onward_route =~= Seq::empty());
        assert(kept@ == WorkerView::kept(message));
        self.pending_message = Some(kept);
        m.onward_route.addresses.insert(
            0,
            RouterAddress::from_address(self.channel_address.clone()).unwrap(),
        );
        m.return_route.addresses.insert(
            0,
            RouterAddress::from_address(self.address.clone()).unwrap(),
        );
        m.message_type = MessageType::Empty;
        assert(m@.onward_route =~= old(self)@.channel_request(message).onward_route);
        assert(m@.return_route =~= old(self)@.channel_request(message).return_route);
        assert(m@.message_body =~= Seq::empty());
        Ok(Some(Dispatch { command: RouterCommand::SendMessage(m), on_failure: None }))
    }

    /// Sends `m` to the channel, or asks for one if there is none.
    pub fn handle_send(&mut self, m: Message) -> (handled: Result<Option<Dispatch>, String>)
        ensures
            (final(self)@, view_handled(handled)) == old(self)@.send_step(m@),
    {
        proof {
            address::law_zero_channel_text(self.channel_address@);
        }
        if let Some(0) = self.channel_address.channel_id() {
            return self.request_channel(m);
        }
        let ghost message = m@;
        let mut m = m;
        m.onward_route = Route::single(
            RouterAddress::from_address(self.channel_address.clone()).unwrap(),
        );
        m.return_route.addresses.insert(
            0,
            RouterAddress::from_address(self.address.clone()).unwrap(),
        );
        assert(m@.return_route =~= old(self)@.to_channel(message).return_route);
        Ok(
            Some(
                Dispatch {
                    command: RouterCommand::SendMessage(m),
                    on_failure: Some("handle_send failed in TestWorker".to_owned()),
                },
            ),
        )
    }

    /// Takes the channel that `m` names as its one return address, and sends through it what
    /// was kept.
    pub fn receive_channel(&mut self, m: Message) -> (handled: Result<Option<Dispatch>, String>)
        ensures
            (final(self)@, view_handled(handled)) == old(self)@.channel_step(m@),
    {
        // This should be an empty message with 1 return address, that being a secure channel
        if m.return_route.addresses.len() != 1 {
            return Err("bad return route".to_owned());
        }
        assert(m@.return_route[0] == m.return_route.addresses@[0]@);
        self.channel_address = m.return_route.addresses[0].address.clone();
        let pending = self.pending_message.take();
        match pending {
            Some(p) => {
                let ghost kept = p@;
                let mut p = p;
                let channel = RouterAddress::from_address(self.channel_address.clone()).unwrap();
                proof {
                    reveal_strlit("00010203");
                }
                let far = RouterAddress::worker_router_address_from_str("00010203").unwrap();
                p.onward_route = Route { addresses: vec![channel, far] };
                p.return_route = Route::single(
                    RouterAddress::from_address(self.address.clone()).unwrap(),
                );
                assert(p@.onward_route =~= old(self)@.through(
                    m@.return_route[0].address,
                    kept,
                ).onward_route);
                Ok(Some(Dispatch { command: RouterCommand::SendMessage(p), on_failure: None }))
            },
            None => Ok(None),
        }
    }

    /// Takes a channel, or answers a message.
    pub fn handle_receive(&mut self, m: Message) -> (handled: Result<Option<Dispatch>, String>)
        ensures
            (final(self)@, view_handled(handled)) == old(self)@.receive_step(m@),
    {
        match m.message_type {
            MessageType::Empty => self.receive_channel(m),
            MessageType::Payload => {
                let text: &str = if self.toggle % 2 == 0 {
                    "Hello Ockam"
                } else {
                    "Goodbye Ockam"
                };
                self.toggle = self.toggle.wrapping_add(1);
                proof {
                    reveal_strlit("01020304");
                }
                let from = RouterAddress::worker_router_address_from_str("01020304").unwrap();
                let reply = Message {
                    onward_route: m.return_route,
                    return_route: Route::single(from),
                    message_type: MessageType::Payload,
                    message_body: slice_to_vec(text.as_bytes()),
                };
                Ok(
                    Some(
                        Dispatch {
                            command: RouterCommand::SendMessage(reply),
                            on_failure: Some("send to router failed in TestWorker".to_owned()),
                        },
                    ),
                )
            },
            _ => Err("worker got bad message type".to_owned()),
        }
    }

    /// Sends a command, if there is one, and goes on with the next.
    fn go_on(&mut self, command: Option<RouterCommand>, keep_going: bool) -> (reaction:
        WorkerReaction)
        ensures
            (final(self)@, reaction@) == old(self)@.go_on(
                match command {
                    Some(c) => seq![c@],
                    None => Seq::empty(),
                },
                keep_going,
            ),
    {
        self.phase = Phase::Receiving { keep_going };
        let outbox: Vec<RouterCommand> = match command {
            Some(c) => vec![c],
            None => Vec::new(),
        };
        let reaction = WorkerReaction { outbox, action: WorkerAction::Receive };
        assert(reaction@.outbox =~= match command {
            Some(c) => seq![c@],
            None => Seq::empty(),
        });
        reaction
    }

    /// Asks for an action, with nothing else to send.
    fn ask(&mut self, phase: Phase, action: WorkerAction) -> (reaction: WorkerReaction)
        ensures
            final(self)@ == old(self)@.at(phase@),
            reaction@ == (WorkerReactionView { outbox: Seq::empty(), action: action@ }),
    {
        self.phase = phase;
        let reaction = WorkerReaction { outbox: Vec::new(), action };
        assert(reaction@.outbox =~= Seq::empty());
        reaction
    }

    /// Goes on from what became of a message.
    fn after(&mut self, dispatch: Option<Dispatch>, keep_going: bool) -> (reaction: WorkerReaction)
        ensures
            (final(self)@, reaction@) == old(self)@.after(
                view_handled(Ok(dispatch))->Ok_0,
                keep_going,
            ),
    {
        match dispatch {
            Some(d) => match d.on_failure {
                Some(on_failure) => self.ask(
                    Phase::Sending { keep_going },
                    WorkerAction::Send { command: d.command, on_failure },
                ),
                None => self.go_on(Some(d.command), keep_going),
            },
            None => self.go_on(None, keep_going),
        }
    }

    /// What a worker has against a command, if anything. A message with such a fault is one that
    /// [`TestWorker::handle_receive`] answers with this error.
    pub fn objection(command: &OckamCommand) -> (fault: Option<String>)
        ensures
            view_text(fault) == command.to_worker().objection(),
    {
        match command {
            OckamCommand::Worker(WorkerCommand::ReceiveMessage(m)) => match m.message_type {
                MessageType::Payload => None,
                MessageType::Empty => {
                    if m.return_route.addresses.len() == 1 {
                        None
                    } else {
                        Some("bad return route".to_owned())
                    }
                },
                _ => Some("worker got bad message type".to_owned()),
            },
            _ => None,
        }
    }

    /// Does the work in the queue, one event at a time: the first is [`WorkerEvent::Wake`],
    /// each later one the outcome of the action asked for last, until that is
    /// [`WorkerAction::Return`]. On a message that is not text, on a command that
    /// [`TestWorker::objection`] names a fault of, and on a router that is gone, a worker cannot
    /// go on.
    pub fn poll(&mut self, event: WorkerEvent) -> (reaction: WorkerReaction)
        requires
            old(self)@.expects(event@),
        ensures
            (final(self)@, reaction@) == old(self)@.step(event@),
    {
        let ghost before = self@;
        let mut phase = Phase::Idle;
        core::mem::swap(&mut phase, &mut self.phase);
        assert(self@ == before.at(WorkerPhaseView::Idle));
        match (phase, event) {
            (Phase::Receiving { keep_going }, WorkerEvent::Command(command)) => match command {
                OckamCommand::Worker(WorkerCommand::SendMessage(m)) => {
                    let dispatch = self.handle_send(m).unwrap();
                    self.after(dispatch, keep_going)
                },
                OckamCommand::Worker(WorkerCommand::ReceiveMessage(m)) => {
                    let dispatch = self.handle_receive(m).unwrap();
                    self.after(dispatch, keep_going)
                },
                OckamCommand::Worker(WorkerCommand::Stop) => self.go_on(None, false),
                _ => self.go_on(None, keep_going),
            },
            (Phase::Receiving { keep_going }, _) => {
                self.ask(Phase::Idle, WorkerAction::Return(keep_going))
            },
            (Phase::Sending { keep_going }, _) => self.go_on(None, keep_going),
            (Phase::Idle, _) => self.go_on(None, true),
        }
    }
}

} // verus!
