//! Messages and the commands that carry them between components.

use vstd::prelude::*;
use vstd::utf8::valid_utf8;
use crate::address::{AddressType, Route, RouteView};

verus! {

/// What a message is for.
#[derive(Debug, Clone, Copy, PartialEq, Eq, Structural)]
pub enum MessageType {
    /// First message of a key agreement.
    KeyAgreementM1,
    /// Second message of a key agreement.
    KeyAgreementM2,
    /// Third message of a key agreement.
    KeyAgreementM3,
    /// A message that carries nothing but its routes.
    Empty,
    /// Application data.
    Payload,
    /// A type that neither channels nor workers read, by its code.
    Other(u8),
}

/// A message on its way.
#[derive(Debug, PartialEq, Eq)]
pub struct Message {
    pub onward_route: Route,
    pub return_route: Route,
    pub message_type: MessageType,
    pub message_body: Vec<u8>,
}

/// What a [`Message`] says.
pub struct MessageView {
    pub onward_route: RouteView,
    pub return_route: RouteView,
    pub message_type: MessageType,
    pub message_body: Seq<u8>,
}

impl View for Message {
    type V = MessageView;

    open spec fn view(&self) -> MessageView {
        MessageView {
            onward_route: self.onward_route@,
            return_route: self.return_route@,
            message_type: self.message_type,
            message_body: self.message_body@,
        }
    }
}

/// What a message says is both its routes, its type and its body, whole.
pub proof fn law_message_says_all(m: Message)
    ensures
        m@.onward_route == m.onward_route@,
        m@.return_route == m.return_route@,
        m@.message_type == m.message_type,
        m@.message_body == m.message_body@,
{
}

impl Clone for Message {
    fn clone(&self) -> (copy: Self)
        ensures
            copy@ == self@,
    {
        let copy = Message {
            onward_route: self.onward_route.clone(),
            return_route: self.return_route.clone(),
            message_type: self.message_type,
            message_body: self.message_body.clone(),
        };
        assert(copy.message_body@ =~= self.message_body@);
        copy
    }
}

/// A request to the router.
#[derive(Debug, PartialEq, Eq)]
pub enum RouterCommand {
    /// Hand everything addressed to this kind of address to the sender of the command.
    Register(AddressType),
    /// Route a message outwards.
    SendMessage(Message),
    /// Route a message inwards.
    ReceiveMessage(Message),
}

/// A request to the channel manager.
#[derive(Debug, PartialEq, Eq)]
pub enum ChannelCommand {
    Stop,
    SendMessage(Message),
    ReceiveMessage(Message),
}

/// A request to a worker.
#[derive(Debug, PartialEq, Eq)]
pub enum WorkerCommand {
    Test,
    Stop,
    SendMessage(Message),
    ReceiveMessage(Message),
}

/// A request to some component of the node.
#[derive(Debug, PartialEq, Eq)]
pub enum OckamCommand {
    Router(RouterCommand),
    Channel(ChannelCommand),
    Worker(WorkerCommand),
    /// A request to any other component.
    Other,
}

/// What a [`RouterCommand`] says.
pub enum RouterCommandView {
    Register(AddressType),
    SendMessage(MessageView),
    ReceiveMessage(MessageView),
}

/// What an [`OckamCommand`] says to a channel manager.
pub enum ChannelCommandView {
    Stop,
    SendMessage(MessageView),
    ReceiveMessage(MessageView),
    /// The command is for another component.
    Foreign,
}

/// What an [`OckamCommand`] says to a worker.
pub enum WorkerCommandView {
    Test,
    Stop,
    SendMessage(MessageView),
    ReceiveMessage(MessageView),
    /// The command is for another component.
    Foreign,
}

impl WorkerCommandView {
    /// Whether a worker can read what it is told: the body of a message to it is text in UTF-8.
    pub open spec fn readable(self) -> bool {
        self matches WorkerCommandView::ReceiveMessage(m) ==> valid_utf8(m.message_body)
    }

    /// What a worker has against a command, if anything. A message to it is a payload or the
    /// notice of a channel, which names the channel as its one return address.
    pub open spec fn objection(self) -> Option<Seq<char>> {
        match self {
            WorkerCommandView::ReceiveMessage(m) => match m.message_type {
                MessageType::Payload => None,
                MessageType::Empty => if m.return_route.len() == 1 {
                    None
                } else {
                    Some("bad return route"@)
                },
                _ => Some("worker got bad message type"@),
            },
            _ => None,
        }
    }

    /// Whether a worker can work on a command.
    pub open spec fn accepted(self) -> bool {
        self.readable() && self.objection() is None
    }
}

impl View for RouterCommand {
    type V = RouterCommandView;

    open spec fn view(&self) -> RouterCommandView {
        match self {
            RouterCommand::Register(a_type) => RouterCommandView::Register(*a_type),
            RouterCommand::SendMessage(m) => RouterCommandView::SendMessage(m@),
            RouterCommand::ReceiveMessage(m) => RouterCommandView::ReceiveMessage(m@),
        }
    }
}

impl OckamCommand {
    /// The command as a channel manager reads it.
    pub open spec fn to_channel(&self) -> ChannelCommandView {
        match self {
            OckamCommand::Channel(ChannelCommand::Stop) => ChannelCommandView::Stop,
            OckamCommand::Channel(ChannelCommand::SendMessage(m)) => {
                ChannelCommandView::SendMessage(m@)
            },
            OckamCommand::Channel(ChannelCommand::ReceiveMessage(m)) => {
                ChannelCommandView::ReceiveMessage(m@)
            },
            _ => ChannelCommandView::Foreign,
        }
    }

    /// The command as a worker reads it.
    pub open spec fn to_worker(&self) -> WorkerCommandView {
        match self {
            OckamCommand::Worker(WorkerCommand::Test) => WorkerCommandView::Test,
            OckamCommand::Worker(WorkerCommand::Stop) => WorkerCommandView::Stop,
            OckamCommand::Worker(WorkerCommand::SendMessage(m)) => {
                WorkerCommandView::SendMessage(m@)
            },
            OckamCommand::Worker(WorkerCommand::ReceiveMessage(m)) => {
                WorkerCommandView::ReceiveMessage(m@)
            },
            _ => WorkerCommandView::Foreign,
        }
    }
}

/// A command says to a component what it is meant to say to it, with the whole message, and to
/// every other one that it is not for it.
pub proof fn law_command_says_what_it_is(command: OckamCommand, router: RouterCommand)
    ensures
        match command {
            OckamCommand::Channel(ChannelCommand::Stop) => command.to_channel() is Stop,
            OckamCommand::Channel(ChannelCommand::SendMessage(m)) => {
                command.to_channel() == ChannelCommandView::SendMessage(m@)
            },
            OckamCommand::Channel(ChannelCommand::ReceiveMessage(m)) => {
                command.to_channel() == ChannelCommandView::ReceiveMessage(m@)
            },
            _ => command.to_channel() is Foreign,
        },
        match command {
            OckamCommand::Worker(WorkerCommand::Test) => command.to_worker() is Test,
            OckamCommand::Worker(WorkerCommand::Stop) => command.to_worker() is Stop,
            OckamCommand::Worker(WorkerCommand::SendMessage(m)) => {
                command.to_worker() == WorkerCommandView::SendMessage(m@)
            },
            OckamCommand::Worker(WorkerCommand::ReceiveMessage(m)) => {
                command.to_worker() == WorkerCommandView::ReceiveMessage(m@)
            },
            _ => command.to_worker() is Foreign,
        },
        match router {
            RouterCommand::Register(kind) => router@ == RouterCommandView::Register(kind),
            RouterCommand::SendMessage(m) => router@ == RouterCommandView::SendMessage(m@),
            RouterCommand::ReceiveMessage(m) => router@ == RouterCommandView::ReceiveMessage(m@),
        },
{
}

} // verus!
