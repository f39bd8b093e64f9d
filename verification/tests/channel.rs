use ockam_channel::address::{Address, AddressType, Route, RouterAddress};
use ockam_channel::channel::Channel;
use ockam_channel::error::{ChannelError, ChannelErrorKind};
use ockam_channel::manager::{ChannelAction, ChannelEvent, ChannelManager, Reaction};
use ockam_channel::message::{
    ChannelCommand, Message, MessageType, OckamCommand, RouterCommand, WorkerCommand,
};
use ockam_channel::worker::TestWorker;
use std::collections::VecDeque;

/// A key agreement that marks its messages and counts what it has processed.
#[derive(Debug, Clone, PartialEq, Eq)]
struct Exchange {
    initiator: bool,
    processed: u8,
    finalized: u8,
    fail_process: bool,
    fail_finalize: bool,
}

type Manager = ChannelManager<Exchange, String>;

impl Exchange {
    fn new(initiator: bool) -> Exchange {
        Exchange {
            initiator,
            processed: 0,
            finalized: 0,
            fail_process: false,
            fail_finalize: false,
        }
    }

    fn is_complete(&self) -> bool {
        self.finalized > 0
    }

    fn process(&mut self, data: &[u8]) -> Result<Vec<u8>, String> {
        if self.fail_process {
            return Err("process".to_string());
        }
        self.processed += 1;
        let mut reply = vec![b'<'];
        reply.extend_from_slice(data);
        reply.push(b'>');
        Ok(reply)
    }

    fn finalize(&mut self) -> Result<String, String> {
        if self.fail_finalize {
            return Err("finalize".to_string());
        }
        self.finalized += 1;
        Ok(format!("keys {}", self.initiator))
    }
}

/// What encryption makes of a body: every byte turned, and one byte more by which the number and
/// the keys are recognised.
fn sealed(nonce: u16, body: &[u8]) -> Vec<u8> {
    sealed_with(&nonce.to_le_bytes(), body)
}

fn sealed_with(nonce: &[u8], body: &[u8]) -> Vec<u8> {
    let mut out: Vec<u8> = body.iter().map(|b| b ^ 0x55).collect();
    out.push(nonce[0] ^ 0xa5);
    out
}

/// What travels between the two ends of a channel.
fn numbered(nonce: u16, body: &[u8]) -> Vec<u8> {
    let mut out = nonce.to_le_bytes().to_vec();
    out.extend(sealed(nonce, body));
    out
}

fn unsealed(nonce: &[u8], data: &[u8]) -> Result<Vec<u8>, String> {
    match data.split_last() {
        Some((tag, body)) if *tag == nonce[0] ^ 0xa5 => {
            Ok(body.iter().map(|b| b ^ 0x55).collect())
        }
        _ => Err("decrypt".to_string()),
    }
}

/// What stands around a manager in these tests.
struct Node {
    manager: Manager,
    queue: VecDeque<OckamCommand>,
    sent: Vec<RouterCommand>,
    router_up: bool,
    fail_process: bool,
    fail_finalize: bool,
    fail_encrypt: bool,
    short_encrypt: bool,
    ciphered: Vec<(String, Vec<u8>, Vec<u8>)>,
}

impl Node {
    fn new() -> Node {
        Node {
            manager: Manager::new::<String>(true).unwrap(),
            queue: VecDeque::new(),
            sent: Vec::new(),
            router_up: true,
            fail_process: false,
            fail_finalize: false,
            fail_encrypt: false,
            short_encrypt: false,
            ciphered: Vec::new(),
        }
    }

    fn perform(&mut self, reaction: Reaction<Exchange, String, String>) -> Result<bool, ChannelError<String>> {
        let mut reaction = reaction;
        loop {
            for command in reaction.outbox {
                if self.router_up {
                    self.sent.push(command);
                }
            }
            let event = match reaction.action {
                ChannelAction::Receive => match self.queue.pop_front() {
                    Some(command) => ChannelEvent::Command(command),
                    None => ChannelEvent::QueueEmpty,
                },
                ChannelAction::CreateInitiator => {
                    let mut exchange = Exchange::new(true);
                    exchange.fail_process = self.fail_process;
                    exchange.fail_finalize = self.fail_finalize;
                    ChannelEvent::Created(exchange)
                }
                ChannelAction::CreateResponder => {
                    let mut exchange = Exchange::new(false);
                    exchange.fail_process = self.fail_process;
                    exchange.fail_finalize = self.fail_finalize;
                    ChannelEvent::Created(exchange)
                }
                ChannelAction::Check { agreement, hops } => {
                    let complete = agreement.is_complete();
                    assert!(!complete || hops >= 2);
                    ChannelEvent::Checked(agreement, complete)
                }
                ChannelAction::Process { mut agreement, data } => {
                    let result = agreement.process(&data);
                    ChannelEvent::Processed(agreement, result)
                }
                ChannelAction::Finalize { mut agreement } => {
                    let result = agreement.finalize();
                    ChannelEvent::Finalized(agreement, result)
                }
                ChannelAction::Encrypt { keys, nonce, data } => {
                    let result = if self.fail_encrypt {
                        Err("encrypt".to_string())
                    } else if self.short_encrypt {
                        Ok(data[1..].to_vec())
                    } else {
                        Ok(sealed_with(&nonce, &data))
                    };
                    self.ciphered.push((keys.clone(), nonce, data));
                    ChannelEvent::Encrypted(keys, result)
                }
                ChannelAction::Decrypt { keys, nonce, data } => {
                    let result = unsealed(&nonce, &data);
                    self.ciphered.push((keys.clone(), nonce, data));
                    ChannelEvent::Decrypted(keys, result)
                }
                ChannelAction::Send(command) => {
                    if self.router_up {
                        self.sent.push(command);
                    }
                    ChannelEvent::Sent(self.router_up)
                }
                ChannelAction::Return(result) => return result,
            };
            reaction = self.manager.poll(event);
        }
    }

    fn poll(&mut self) -> Result<bool, ChannelError<String>> {
        let reaction = self.manager.poll(ChannelEvent::Wake);
        self.perform(reaction)
    }

    fn send(&mut self, m: Message) -> Result<bool, ChannelError<String>> {
        self.queue
            .push_back(OckamCommand::Channel(ChannelCommand::SendMessage(m)));
        self.poll()
    }

    fn receive(&mut self, m: Message) -> Result<bool, ChannelError<String>> {
        self.queue
            .push_back(OckamCommand::Channel(ChannelCommand::ReceiveMessage(m)));
        self.poll()
    }

    fn take(&mut self) -> Vec<RouterCommand> {
        std::mem::take(&mut self.sent)
    }
}

/// A router that knows who handles which kind of address.
struct Router {
    queue: VecDeque<RouterCommand>,
    registered: Vec<AddressType>,
}

impl Router {
    fn poll(&mut self, channels: &mut VecDeque<OckamCommand>) -> bool {
        while let Some(command) = self.queue.pop_front() {
            match command {
                RouterCommand::Register(kind) => self.registered.push(kind),
                RouterCommand::SendMessage(m) => {
                    let kind = m.onward_route.addresses[0].a_type;
                    if kind == AddressType::Channel && self.registered.contains(&kind) {
                        channels.push_back(OckamCommand::Channel(ChannelCommand::SendMessage(m)));
                    }
                }
                RouterCommand::ReceiveMessage(m) => {
                    channels.push_back(OckamCommand::Channel(ChannelCommand::ReceiveMessage(m)));
                }
            }
        }
        true
    }
}

fn channel(text: &str) -> RouterAddress {
    RouterAddress::channel_router_address_from_str(text).unwrap()
}

fn worker(text: &str) -> RouterAddress {
    RouterAddress::worker_router_address_from_str(text).unwrap()
}

fn route(addresses: Vec<RouterAddress>) -> Route {
    Route { addresses }
}

fn message(
    onward: Vec<RouterAddress>,
    back: Vec<RouterAddress>,
    message_type: MessageType,
    body: &[u8],
) -> Message {
    Message {
        onward_route: route(onward),
        return_route: route(back),
        message_type,
        message_body: body.to_vec(),
    }
}

fn sent_message(command: &RouterCommand) -> Message {
    match command {
        RouterCommand::SendMessage(m) => m.clone(),
        _ => panic!("not sent outwards"),
    }
}

fn received_message(command: &RouterCommand) -> Message {
    match command {
        RouterCommand::ReceiveMessage(m) => m.clone(),
        _ => panic!("not sent inwards"),
    }
}

fn kind_of(result: Result<bool, ChannelError<String>>) -> ChannelErrorKind<String> {
    result.unwrap_err().kind
}

/// Two nodes after a key agreement, with the addresses of their channels.
fn connected() -> (Node, Node, RouterAddress, RouterAddress) {
    let mut near = Node::new();
    let mut far = Node::new();
    let asked = message(vec![channel("00000000")], vec![worker("00010203")], MessageType::Empty, &[]);
    assert!(near.send(asked).unwrap());
    let m1 = sent_message(&near.take()[0]);
    let near_channel = m1.return_route.addresses[0].clone();
    assert!(far.receive(m1).unwrap());
    let m2 = sent_message(&far.take()[0]);
    let far_channel = m2.return_route.addresses[0].clone();
    assert!(near.receive(m2).unwrap());
    let m3 = sent_message(&near.take()[0]);
    assert!(far.receive(m3).unwrap());
    far.take();
    (near, far, near_channel, far_channel)
}

#[test]
fn new_channel_initiator() {
    let mut router = Router { queue: VecDeque::new(), registered: Vec::new() };
    router.queue.push_back(Manager::registration());
    let mut node = Node::new();
    router
        .queue
        .push_back(RouterCommand::Register(AddressType::Channel));

    let message = Message {
        onward_route: Route {
            addresses: vec![RouterAddress::channel_router_address_from_str("deadbeef").unwrap()],
        },
        return_route: Route { addresses: vec![] },
        message_type: MessageType::Payload,
        message_body: b"Hello Bob".to_vec(),
    };

    router.queue.push_back(RouterCommand::SendMessage(message));
    assert!(router.poll(&mut node.queue));
    assert_eq!(node.queue.len(), 1);
    let res = node.poll();
    assert!(res.is_ok());
    assert!(res.unwrap());

    let m1 = sent_message(&node.take()[0]);
    assert_eq!(m1.message_type, MessageType::KeyAgreementM1);
    assert_eq!(m1.onward_route, route(vec![channel("00000000")]));
    assert_eq!(m1.return_route.addresses.len(), 1);
    assert_eq!(m1.message_body, b"<>".to_vec());
}

#[test]
fn registration_decides_on_a_manager() {
    assert_eq!(Manager::registration(), RouterCommand::Register(AddressType::Channel));
    assert!(Manager::new::<String>(true).is_ok());
    match Manager::new::<String>(false) {
        Ok(_) => panic!("made without a router"),
        Err(e) => assert_eq!(e.kind, ChannelErrorKind::CantSend),
    }
}

#[test]
fn channel_address_is_its_identifier() {
    let c: Channel<u8, u8> = Channel::new(0x0403_0201, 7);
    assert_eq!(c.as_address(), Address::ChannelAddress(vec![1, 2, 3, 4]));
    assert_eq!(c.id, 0x0403_0201);
    assert_eq!(c.agreement, Some(7));
    assert_eq!(c.completed_key_exchange, None);
    assert_eq!(c.nonce, 0);
    assert_eq!(c.route, route(vec![]));
    assert_eq!(c.pending, None);
}

#[test]
fn empty_queue_is_done() {
    let mut node = Node::new();
    assert!(node.poll().unwrap());
    assert!(node.take().is_empty());
}

#[test]
fn three_messages_make_a_channel() {
    let mut near = Node::new();
    let mut far = Node::new();
    let asked = message(
        vec![channel("00000000"), worker("aa")],
        vec![worker("00010203")],
        MessageType::Empty,
        &[],
    );
    assert!(near.send(asked).unwrap());
    let sent = near.take();
    assert_eq!(sent.len(), 1);
    let m1 = sent_message(&sent[0]);
    assert_eq!(m1.message_type, MessageType::KeyAgreementM1);
    assert_eq!(m1.onward_route, route(vec![worker("aa"), channel("00000000")]));
    let near_channel = m1.return_route.addresses[0].clone();
    assert_eq!(near_channel.a_type, AddressType::Channel);
    assert_eq!(m1.return_route, route(vec![near_channel.clone(), worker("00010203")]));
    assert_eq!(m1.message_body, b"<>".to_vec());

    // On the way the message passes `aa`.
    let arrived = message(
        vec![channel("00000000")],
        vec![worker("bb"), near_channel.clone(), worker("00010203")],
        MessageType::KeyAgreementM1,
        b"<>",
    );
    assert!(far.receive(arrived.clone()).unwrap());
    let sent = far.take();
    assert_eq!(sent.len(), 1);
    let m2 = sent_message(&sent[0]);
    assert_eq!(m2.message_type, MessageType::KeyAgreementM2);
    assert_eq!(m2.onward_route, arrived.return_route);
    let far_channel = m2.return_route.addresses[0].clone();
    assert_eq!(m2.return_route, route(vec![far_channel.clone()]));
    assert_eq!(m2.message_body, b"<<>>".to_vec());

    let arrived = message(
        vec![near_channel.clone(), worker("00010203")],
        vec![worker("cc"), far_channel.clone()],
        MessageType::KeyAgreementM2,
        b"<<>>",
    );
    assert!(near.receive(arrived).unwrap());
    let sent = near.take();
    assert_eq!(sent.len(), 2);
    assert_eq!(
        sent_message(&sent[0]),
        message(
            vec![worker("cc"), far_channel.clone()],
            vec![near_channel.clone()],
            MessageType::KeyAgreementM3,
            b"<<<>>>",
        )
    );
    assert_eq!(
        received_message(&sent[1]),
        message(
            vec![worker("00010203")],
            vec![near_channel.clone()],
            MessageType::Empty,
            &[],
        )
    );

    let m3 = message(
        vec![far_channel.clone()],
        vec![near_channel.clone()],
        MessageType::KeyAgreementM3,
        b"<<<>>>",
    );
    assert!(far.receive(m3).unwrap());
    assert!(far.take().is_empty());

    // Now the near channel leads, through `cc`, to the far one.
    let payload = message(
        vec![near_channel.clone(), worker("00010203")],
        vec![worker("dd")],
        MessageType::Payload,
        b"hi",
    );
    assert!(near.send(payload).unwrap());
    assert_eq!(
        sent_message(&near.take()[0]),
        message(
            vec![worker("cc"), far_channel, worker("00010203")],
            vec![near_channel, worker("dd")],
            MessageType::Payload,
            &numbered(0, b"hi"),
        )
    );
}

#[test]
fn payload_crosses_channel() {
    let (mut near, mut far, near_channel, far_channel) = connected();
    let payload = message(
        vec![near_channel.clone(), worker("00010203")],
        vec![worker("0a")],
        MessageType::Payload,
        b"Hello Bob",
    );
    assert!(near.send(payload).unwrap());
    let crossing = sent_message(&near.take()[0]);
    assert_eq!(crossing.onward_route, route(vec![far_channel, worker("00010203")]));
    assert_eq!(crossing.message_body, numbered(0, b"Hello Bob"));
    assert_eq!(
        near.ciphered,
        vec![("keys true".to_string(), vec![0, 0], b"Hello Bob".to_vec())]
    );
    assert!(far.receive(crossing).unwrap());
    assert_eq!(
        far.ciphered,
        vec![("keys false".to_string(), vec![0, 0], sealed(0, b"Hello Bob"))]
    );
    assert_eq!(
        received_message(&far.take()[0]),
        message(
            vec![worker("00010203")],
            vec![near_channel, worker("0a")],
            MessageType::Payload,
            b"Hello Bob",
        )
    );
}

#[test]
fn payload_leaves_encrypted() {
    let (mut near, _far, near_channel, _) = connected();
    for (number, body) in [(0u16, b"".to_vec()), (1, b"a".to_vec()), (2, b"Hello Bob".to_vec())] {
        let m = message(
            vec![near_channel.clone(), worker("01")],
            vec![],
            MessageType::Payload,
            &body,
        );
        assert!(near.send(m).unwrap());
        let sent = near.take();
        assert_eq!(sent.len(), 1);
        let left = sent_message(&sent[0]).message_body;
        assert_eq!(left, numbered(number, &body));
        assert_ne!(left, body);
    }
}

#[test]
fn no_number_is_used_twice() {
    let (mut near, mut far, near_channel, _) = connected();
    let mut seen: Vec<Vec<u8>> = Vec::new();
    for _ in 0..300 {
        let m = message(
            vec![near_channel.clone(), worker("01")],
            vec![],
            MessageType::Payload,
            b"same",
        );
        assert!(near.send(m).unwrap());
        let crossing = sent_message(&near.take()[0]);
        seen.push(crossing.message_body[..2].to_vec());
        assert!(far.receive(crossing).unwrap());
        assert_eq!(received_message(&far.take()[0]).message_body, b"same".to_vec());
    }
    assert_eq!(seen[0], vec![0, 0]);
    assert_eq!(seen[255], vec![255, 0]);
    assert_eq!(seen[256], vec![0, 1]);
    assert_eq!(seen[299], vec![43, 1]);
    seen.sort();
    seen.dedup();
    assert_eq!(seen.len(), 300);
}

#[test]
fn channel_without_numbers_sends_nothing() {
    let (mut near, _far, near_channel, _) = connected();
    let m = message(vec![near_channel, worker("01")], vec![], MessageType::Payload, b"ab");
    for _ in 0..u16::MAX {
        assert!(near.send(m.clone()).unwrap());
    }
    let sent = near.take();
    assert_eq!(sent.len(), 65535);
    assert_eq!(sent_message(&sent[65534]).message_body, numbered(65534, b"ab"));
    for _ in 0..2 {
        assert_eq!(kind_of(near.send(m.clone())), ChannelErrorKind::State);
        assert!(near.take().is_empty());
    }
}

#[test]
fn failed_encryption_sends_nothing_and_takes_no_number() {
    let (mut near, _far, near_channel, _) = connected();
    let m = message(vec![near_channel, worker("01")], vec![], MessageType::Payload, b"ab");
    near.fail_encrypt = true;
    assert_eq!(
        kind_of(near.send(m.clone())),
        ChannelErrorKind::Cipher("encrypt".to_string())
    );
    near.fail_encrypt = false;
    assert!(near.take().is_empty());
    assert!(near.send(m).unwrap());
    assert_eq!(sent_message(&near.take()[0]).message_body, numbered(0, b"ab"));
    assert_eq!(near.ciphered.len(), 2);
    for (keys, nonce, data) in &near.ciphered {
        assert_eq!(keys, "keys true");
        assert_eq!(nonce, &vec![0, 0]);
        assert_eq!(data, &b"ab".to_vec());
    }
}

#[test]
fn whatever_encryption_gives_is_sent() {
    let (mut near, _far, near_channel, _) = connected();
    let m = message(vec![near_channel, worker("01")], vec![], MessageType::Payload, b"abc");
    near.short_encrypt = true;
    assert!(near.send(m.clone()).unwrap());
    assert_eq!(sent_message(&near.take()[0]).message_body, b"\0\0bc".to_vec());
    near.short_encrypt = false;
    assert!(near.send(m).unwrap());
    assert_eq!(sent_message(&near.take()[0]).message_body, numbered(1, b"abc"));
}

#[test]
fn undecryptable_payload_goes_nowhere() {
    let (_near, mut far, _, far_channel) = connected();
    let mut body = numbered(0, b"ab");
    body[0] = 9;
    let bad = message(vec![far_channel.clone(), worker("01")], vec![], MessageType::Payload, &body);
    assert_eq!(kind_of(far.receive(bad)), ChannelErrorKind::Cipher("decrypt".to_string()));
    assert!(far.take().is_empty());
    // The channel is as it was.
    let body = numbered(0, b"ab");
    let good = message(vec![far_channel, worker("01")], vec![], MessageType::Payload, &body);
    assert!(far.receive(good).unwrap());
    assert_eq!(received_message(&far.take()[0]).message_body, b"ab".to_vec());
}

#[test]
fn channel_without_keys_encrypts_nothing() {
    // The agreement says that it is complete before it has given keys.
    let mut manager = Manager::new::<String>(true).unwrap();
    let _: Reaction<Exchange, String, String> = manager.poll(ChannelEvent::Wake);
    let asked = message(vec![channel("00000000")], vec![], MessageType::Empty, &[]);
    let _: Reaction<Exchange, String, String> = manager.initiate_key_exchange_as(asked, 1);
    let _: Reaction<Exchange, String, String> =
        manager.poll(ChannelEvent::Created(Exchange::new(true)));
    let _: Reaction<Exchange, String, String> =
        manager.poll(ChannelEvent::Processed(Exchange::new(true), Ok(vec![1])));
    let _: Reaction<Exchange, String, String> = manager.poll(ChannelEvent::Sent(true));
    let m = message(vec![channel("01000000"), worker("01")], vec![], MessageType::Payload, b"ab");
    let r: Reaction<Exchange, String, String> = manager.poll(ChannelEvent::Command(
        OckamCommand::Channel(ChannelCommand::SendMessage(m)),
    ));
    assert!(matches!(r.action, ChannelAction::Check { hops: 2, .. }));
    let r: Reaction<Exchange, String, String> =
        manager.poll(ChannelEvent::Checked(Exchange::new(true), true));
    assert!(r.outbox.is_empty());
    match r.action {
        ChannelAction::Return(result) => assert_eq!(kind_of(result), ChannelErrorKind::State),
        _ => panic!("went on without keys"),
    }
}

#[test]
fn payload_for_a_channel_without_keys_is_handed_on_as_it_is() {
    let mut node = Node::new();
    let m = message(
        vec![channel("00000000"), worker("01")],
        vec![worker("02")],
        MessageType::Payload,
        b"ab",
    );
    assert!(node.receive(m).unwrap());
    assert_eq!(
        node.take(),
        vec![RouterCommand::ReceiveMessage(message(
            vec![worker("01")],
            vec![worker("02")],
            MessageType::Payload,
            b"ab",
        ))]
    );
    assert!(node.ciphered.is_empty());
}

#[test]
fn keys_come_back_to_their_channel() {
    let (mut near, _far, near_channel, _) = connected();
    let m = message(vec![near_channel, worker("01")], vec![], MessageType::Payload, b"ab");
    let _: Reaction<Exchange, String, String> = near.manager.poll(ChannelEvent::Wake);
    let _: Reaction<Exchange, String, String> = near.manager.poll(ChannelEvent::Command(
        OckamCommand::Channel(ChannelCommand::SendMessage(m.clone())),
    ));
    let mut exchange = Exchange::new(true);
    exchange.finalized = 1;
    let r: Reaction<Exchange, String, String> =
        near.manager.poll(ChannelEvent::Checked(exchange, true));
    match r.action {
        ChannelAction::Encrypt { keys, nonce, data } => {
            assert_eq!(keys, "keys true");
            assert_eq!(nonce, vec![0, 0]);
            assert_eq!(data, b"ab".to_vec());
        }
        _ => panic!("not encrypted"),
    }
    let r: Reaction<Exchange, String, String> =
        near.manager.poll(ChannelEvent::Encrypted("marked".to_string(), Ok(vec![7, 8, 9])));
    assert!(near.perform(r).unwrap());
    assert_eq!(sent_message(&near.take()[0]).message_body, vec![0, 0, 7, 8, 9]);
    assert!(near.send(m).unwrap());
    assert_eq!(near.ciphered, vec![("marked".to_string(), vec![1, 0], b"ab".to_vec())]);
}

#[test]
fn second_message_is_made_or_the_failure_reported() {
    let m1 = message(vec![channel("00000000")], vec![worker("02")], MessageType::KeyAgreementM1, b"x");
    let (command, if_not_taken) =
        Manager::send_ka_m2::<String>(0x0403_0201, m1.clone(), Ok(b"y".to_vec())).unwrap();
    assert_eq!(
        sent_message(&command),
        message(vec![worker("02")], vec![channel("01020304")], MessageType::KeyAgreementM2, b"y")
    );
    assert_eq!(if_not_taken.kind, ChannelErrorKind::CantSend);
    match Manager::send_ka_m2::<String>(1, m1, Err("process".to_string())) {
        Ok(_) => panic!("nothing to send"),
        Err(e) => assert_eq!(e.kind, ChannelErrorKind::KeyAgreement("process".to_string())),
    }
}

#[test]
fn poll_handles_each_command_in_order() {
    let (mut near, mut far, near_channel, _) = connected();
    for body in [b"one".as_slice(), b"two", b"three"] {
        let m = message(
            vec![near_channel.clone(), worker("01")],
            vec![],
            MessageType::Payload,
            body,
        );
        near.queue
            .push_back(OckamCommand::Channel(ChannelCommand::SendMessage(m)));
    }
    assert!(near.poll().unwrap());
    assert!(near.queue.is_empty());
    let sent = near.take();
    assert_eq!(sent.len(), 3);
    for command in &sent {
        far.queue
            .push_back(OckamCommand::Channel(ChannelCommand::ReceiveMessage(sent_message(command))));
    }
    assert!(far.poll().unwrap());
    assert!(far.queue.is_empty());
    let bodies: Vec<Vec<u8>> = far.take().iter().map(|c| received_message(c).message_body).collect();
    assert_eq!(bodies, vec![b"one".to_vec(), b"two".to_vec(), b"three".to_vec()]);
}

#[test]
fn channels_can_be_looked_at() {
    let (mut near, _far, near_channel, far_channel) = connected();
    let id = near_channel.address.channel_id().unwrap();
    assert_eq!(near.manager.ids(), vec![id]);
    let c = near.manager.channel(id).unwrap();
    assert_eq!(c.as_address(), near_channel.address);
    assert_eq!(c.completed_key_exchange, Some("keys true".to_string()));
    assert_eq!(c.route, route(vec![far_channel]));
    assert_eq!(c.nonce, 0);
    let m = message(vec![near_channel, worker("01")], vec![], MessageType::Payload, b"ab");
    assert!(near.send(m).unwrap());
    assert_eq!(near.manager.channel(id).unwrap().nonce, 1);
    assert!(near.manager.channel(id.wrapping_add(1)).is_none());
    near.queue
        .push_back(OckamCommand::Channel(ChannelCommand::Stop));
    assert!(near.poll().unwrap());
    assert!(near.manager.ids().is_empty());
}

#[test]
fn both_ends_lead_to_each_other() {
    let (mut near, mut far, near_channel, far_channel) = connected();
    let there = message(vec![near_channel.clone(), worker("01")], vec![], MessageType::Payload, b"ab");
    assert!(near.send(there).unwrap());
    assert_eq!(
        sent_message(&near.take()[0]).onward_route,
        route(vec![far_channel.clone(), worker("01")])
    );
    let back = message(vec![far_channel, worker("02")], vec![], MessageType::Payload, b"ab");
    assert!(far.send(back).unwrap());
    assert_eq!(
        sent_message(&far.take()[0]).onward_route,
        route(vec![near_channel, worker("02")])
    );
}

#[test]
fn message_type_is_kept_on_the_way() {
    let (mut near, _far, near_channel, _) = connected();
    let odd = message(vec![near_channel, worker("01")], vec![], MessageType::Other(9), b"");
    assert!(near.send(odd).unwrap());
    assert_eq!(sent_message(&near.take()[0]).message_type, MessageType::Other(9));
}

#[test]
fn unfinished_channel_drops_messages() {
    let mut node = Node::new();
    let asked = message(vec![channel("00000000")], vec![], MessageType::Empty, &[]);
    assert!(node.send(asked).unwrap());
    let near_channel = sent_message(&node.take()[0]).return_route.addresses[0].clone();
    let payload = message(vec![near_channel], vec![], MessageType::Payload, b"too early");
    assert!(node.send(payload).unwrap());
    assert!(node.take().is_empty());
}

#[test]
fn no_route_is_an_error() {
    let mut node = Node::new();
    let lost = message(vec![], vec![], MessageType::Payload, b"ab");
    assert_eq!(kind_of(node.send(lost.clone())), ChannelErrorKind::CantSend);
    assert_eq!(kind_of(node.receive(lost)), ChannelErrorKind::RecvError);
    assert!(node.take().is_empty());
}

#[test]
fn key_agreement_to_unknown_channel_is_refused() {
    let mut node = Node::new();
    for t in [
        MessageType::KeyAgreementM1,
        MessageType::KeyAgreementM2,
        MessageType::KeyAgreementM3,
        MessageType::Other(0),
    ] {
        let m = message(vec![channel("deadbeef")], vec![], t, b"ab");
        assert_eq!(kind_of(node.send(m)), ChannelErrorKind::State);
    }
    assert!(node.take().is_empty());
}

#[test]
fn foreign_command_is_refused() {
    let mut node = Node::new();
    for command in [
        OckamCommand::Worker(WorkerCommand::Test),
        OckamCommand::Router(RouterCommand::Register(AddressType::Udp)),
        OckamCommand::Other,
    ] {
        node.queue.push_back(command);
        assert_eq!(kind_of(node.poll()), ChannelErrorKind::InvalidParam(0));
    }
}

#[test]
fn error_leaves_the_rest_of_the_queue() {
    let mut node = Node::new();
    node.queue.push_back(OckamCommand::Other);
    let asked = message(vec![channel("00000000")], vec![], MessageType::Empty, &[]);
    node.queue
        .push_back(OckamCommand::Channel(ChannelCommand::SendMessage(asked)));
    assert_eq!(kind_of(node.poll()), ChannelErrorKind::InvalidParam(0));
    assert_eq!(node.queue.len(), 1);
    assert!(node.poll().unwrap());
    assert_eq!(node.take().len(), 1);
}

#[test]
fn received_for_unknown_channel_is_dropped() {
    let mut node = Node::new();
    let m = message(vec![channel("deadbeef")], vec![], MessageType::Payload, b"ab");
    assert!(node.receive(m).unwrap());
    assert!(node.take().is_empty());
}

#[test]
fn short_payload_is_refused() {
    let (_near, mut far, _, far_channel) = connected();
    let short = message(vec![far_channel.clone(), worker("01")], vec![], MessageType::Payload, b"a");
    assert_eq!(kind_of(far.receive(short)), ChannelErrorKind::RecvError);
    let bare = message(vec![far_channel.clone(), worker("01")], vec![], MessageType::Payload, b"ab");
    assert_eq!(kind_of(far.receive(bare)), ChannelErrorKind::Cipher("decrypt".to_string()));
    assert!(far.take().is_empty());
    let enough = message(
        vec![far_channel, worker("01")],
        vec![],
        MessageType::Payload,
        &numbered(0, b""),
    );
    assert!(far.receive(enough).unwrap());
    assert_eq!(received_message(&far.take()[0]).message_body, b"".to_vec());
}

#[test]
fn other_types_are_dropped_by_a_channel() {
    let (_near, mut far, _, far_channel) = connected();
    for t in [MessageType::Empty, MessageType::Other(3)] {
        let m = message(vec![far_channel.clone()], vec![], t, b"abc");
        assert!(far.receive(m).unwrap());
    }
    assert!(far.take().is_empty());
}

#[test]
fn worker_address_with_the_same_bytes_names_the_channel() {
    let (_near, mut far, _, far_channel) = connected();
    let bytes = match far_channel.address {
        Address::ChannelAddress(bytes) => bytes,
        _ => panic!("not a channel"),
    };
    let alias = RouterAddress::from_address(Address::WorkerAddress(bytes)).unwrap();
    let body = numbered(3, b"ab");
    let m = message(vec![alias, worker("01")], vec![], MessageType::Payload, &body);
    assert!(far.receive(m).unwrap());
    assert_eq!(received_message(&far.take()[0]).onward_route, route(vec![worker("01")]));
}

#[test]
fn failing_agreement_is_reported() {
    let mut node = Node::new();
    node.fail_process = true;
    let asked = message(vec![channel("00000000")], vec![], MessageType::Empty, &[]);
    assert_eq!(
        kind_of(node.send(asked)),
        ChannelErrorKind::KeyAgreement("process".to_string())
    );
    let m1 = message(vec![channel("00000000")], vec![worker("01")], MessageType::KeyAgreementM1, b"x");
    assert_eq!(
        kind_of(node.receive(m1)),
        ChannelErrorKind::KeyAgreement("process".to_string())
    );
    assert!(node.take().is_empty());
}

#[test]
fn failing_keys_are_reported_after_the_third_message() {
    let mut near = Node::new();
    near.fail_finalize = true;
    let asked = message(vec![channel("00000000")], vec![], MessageType::Empty, &[]);
    assert!(near.send(asked).unwrap());
    let near_channel = sent_message(&near.take()[0]).return_route.addresses[0].clone();
    let m2 = message(
        vec![near_channel.clone()],
        vec![channel("01020304")],
        MessageType::KeyAgreementM2,
        b"x",
    );
    assert_eq!(
        kind_of(near.receive(m2)),
        ChannelErrorKind::KeyAgreement("finalize".to_string())
    );
    let sent = near.take();
    assert_eq!(sent.len(), 1);
    assert_eq!(sent_message(&sent[0]).message_type, MessageType::KeyAgreementM3);
    // The channel is not ready.
    let payload = message(vec![near_channel, worker("01")], vec![], MessageType::Payload, b"ab");
    assert!(near.send(payload).unwrap());
    assert!(near.take().is_empty());
}

#[test]
fn broken_router_is_reported() {
    let mut node = Node::new();
    node.router_up = false;
    let asked = message(vec![channel("00000000")], vec![], MessageType::Empty, &[]);
    assert_eq!(kind_of(node.send(asked)), ChannelErrorKind::CantSend);

    let (mut near, mut far, near_channel, far_channel) = connected();
    near.router_up = false;
    far.router_up = false;
    let out = message(vec![near_channel, worker("01")], vec![], MessageType::Payload, b"ab");
    assert_eq!(kind_of(near.send(out)), ChannelErrorKind::CantSend);
    let body = numbered(0, b"ab");
    let inward = message(vec![far_channel, worker("01")], vec![], MessageType::Payload, &body);
    assert_eq!(kind_of(far.receive(inward)), ChannelErrorKind::CantSend);
    // Answers of a key agreement are sent without asking what becomes of them.
    let m1 = message(vec![channel("00000000")], vec![worker("01")], MessageType::KeyAgreementM1, b"x");
    assert!(far.receive(m1).unwrap());
}

#[test]
fn announcing_failure_leaves_nobody_to_tell() {
    let mut node = Node::new();
    node.router_up = false;
    let reaction: Reaction<Exchange, String, String> = node.manager.poll(ChannelEvent::Wake);
    assert!(matches!(reaction.action, ChannelAction::Receive));
    let asked = message(vec![channel("00000000")], vec![worker("01")], MessageType::Empty, &[]);
    let reaction = node.manager.initiate_key_exchange_as(asked, 0x0403_0201);
    assert_eq!(kind_of(node.perform(reaction)), ChannelErrorKind::CantSend);
    node.router_up = true;
    let m2 = message(
        vec![channel("01020304")],
        vec![channel("05060708")],
        MessageType::KeyAgreementM2,
        b"x",
    );
    assert!(node.receive(m2).unwrap());
    // The third message leaves; no notice does.
    assert_eq!(node.take().len(), 1);
}

#[test]
fn given_identifier_is_used() {
    let mut node = Node::new();
    let _: Reaction<Exchange, String, String> = node.manager.poll(ChannelEvent::Wake);
    let asked = message(vec![channel("00000000")], vec![worker("01")], MessageType::Empty, &[]);
    let reaction = node.manager.initiate_key_exchange_as(asked, 0x0403_0201);
    assert!(node.perform(reaction).unwrap());
    assert_eq!(
        sent_message(&node.take()[0]).return_route,
        route(vec![channel("01020304"), worker("01")])
    );

    let mut node = Node::new();
    let _: Reaction<Exchange, String, String> = node.manager.poll(ChannelEvent::Wake);
    let m1 = message(vec![channel("00000000")], vec![worker("02")], MessageType::KeyAgreementM1, b"x");
    let reaction = node.manager.create_new_responder_as(m1, 0xefbe_adde);
    assert!(node.perform(reaction).unwrap());
    assert_eq!(
        sent_message(&node.take()[0]),
        message(
            vec![worker("02")],
            vec![channel("deadbeef")],
            MessageType::KeyAgreementM2,
            b"<x>",
        )
    );
}

#[test]
fn identifiers_are_drawn_anew() {
    let mut node = Node::new();
    let mut seen = Vec::new();
    for _ in 0..8 {
        let asked = message(vec![channel("00000000")], vec![], MessageType::Empty, &[]);
        assert!(node.send(asked).unwrap());
        let first = sent_message(&node.take()[0]).return_route.addresses[0].clone();
        assert!(first.address.channel_id().is_some());
        if !seen.contains(&first) {
            seen.push(first);
        }
    }
    assert!(seen.len() > 1);
}

#[test]
fn third_message_changes_nothing_on_a_ready_channel() {
    let (mut near, mut far, near_channel, far_channel) = connected();
    let again = message(
        vec![far_channel.clone()],
        vec![worker("ee")],
        MessageType::KeyAgreementM3,
        b"x",
    );
    assert!(far.receive(again).unwrap());
    assert!(far.take().is_empty());
    let back = message(vec![far_channel, worker("02")], vec![], MessageType::Payload, b"ab");
    assert!(far.send(back).unwrap());
    assert_eq!(
        sent_message(&far.take()[0]).onward_route,
        route(vec![near_channel, worker("02")])
    );
    assert!(near.take().is_empty());
}

#[test]
fn stop_forgets_channels_and_the_rest_waits() {
    let (mut near, _far, near_channel, _) = connected();
    near.queue
        .push_back(OckamCommand::Channel(ChannelCommand::Stop));
    let payload = message(vec![near_channel.clone(), worker("01")], vec![], MessageType::Other(1), b"ab");
    near.queue
        .push_back(OckamCommand::Channel(ChannelCommand::SendMessage(payload)));
    assert!(near.poll().unwrap());
    assert_eq!(near.queue.len(), 1);
    assert_eq!(kind_of(near.poll()), ChannelErrorKind::State);
}

#[test]
fn channels_do_not_disturb_each_other() {
    let (mut near, _far, near_channel, far_channel) = connected();
    let asked = message(vec![channel("00000000")], vec![worker("05")], MessageType::Empty, &[]);
    assert!(near.send(asked).unwrap());
    near.take();
    let payload = message(vec![near_channel, worker("01")], vec![], MessageType::Payload, b"ab");
    assert!(near.send(payload).unwrap());
    assert_eq!(
        sent_message(&near.take()[0]).onward_route,
        route(vec![far_channel, worker("01")])
    );
}

#[test]
fn first_message_reaches_the_far_worker() {
    let mut near = Node::new();
    let mut far = Node::new();
    let mut w = TestWorker::new(None);

    // The worker is to send; it asks for a channel.
    let m = message(vec![], vec![], MessageType::Payload, b"Hello Ockam");
    let request = sent_message(&w.handle_send(m).unwrap().unwrap().command);
    assert!(near.send(request).unwrap());

    // The managers agree on keys.
    let m1 = sent_message(&near.take()[0]);
    assert!(far.receive(m1).unwrap());
    let m2 = sent_message(&far.take()[0]);
    assert!(near.receive(m2).unwrap());
    let sent = near.take();
    assert!(far.receive(sent_message(&sent[0])).unwrap());
    assert!(far.take().is_empty());

    // The worker is told of the channel and sends through it.
    let told = received_message(&sent[1]);
    assert_eq!(told.onward_route, route(vec![worker("00010203")]));
    let first = sent_message(&w.handle_receive(told).unwrap().unwrap().command);
    assert!(near.send(first).unwrap());
    assert!(far.receive(sent_message(&near.take()[0])).unwrap());

    // The message comes out for the far worker.
    let out = received_message(&far.take()[0]);
    assert_eq!(out.onward_route, route(vec![worker("00010203")]));
    assert_eq!(out.message_type, MessageType::Payload);
    assert_eq!(out.message_body, b"Hello Ockam".to_vec());
}

#[test]
fn a_command_takes_three_actions_at_most() {
    let mut manager = Manager::new::<String>(true).unwrap();
    let r: Reaction<Exchange, String, String> = manager.poll(ChannelEvent::Wake);
    assert!(matches!(r.action, ChannelAction::Receive));
    let asked = message(vec![channel("00000000")], vec![], MessageType::Empty, &[]);
    let r: Reaction<Exchange, String, String> = manager.poll(ChannelEvent::Command(OckamCommand::Channel(
        ChannelCommand::SendMessage(asked),
    )));
    assert!(matches!(r.action, ChannelAction::CreateInitiator));
    let r: Reaction<Exchange, String, String> = manager.poll(ChannelEvent::Created(Exchange::new(true)));
    match r.action {
        ChannelAction::Process { agreement, data } => {
            assert_eq!(agreement, Exchange::new(true));
            assert!(data.is_empty());
        }
        _ => panic!("nothing to process"),
    }
    let r: Reaction<Exchange, String, String> =
        manager.poll(ChannelEvent::Processed(Exchange::new(true), Ok(vec![1])));
    assert!(matches!(r.action, ChannelAction::Send(_)));
    let r: Reaction<Exchange, String, String> = manager.poll(ChannelEvent::Sent(true));
    assert!(matches!(r.action, ChannelAction::Receive));
}

#[test]
fn agreement_comes_back_to_its_channel() {
    let mut manager = Manager::new::<String>(true).unwrap();
    let _: Reaction<Exchange, String, String> = manager.poll(ChannelEvent::Wake);
    let m1 = message(vec![channel("00000000")], vec![worker("01")], MessageType::KeyAgreementM1, b"x");
    let _: Reaction<Exchange, String, String> = manager.create_new_responder_as(m1, 1);
    let _: Reaction<Exchange, String, String> = manager.poll(ChannelEvent::Created(Exchange::new(false)));
    let mut marked = Exchange::new(false);
    marked.processed = 42;
    let r: Reaction<Exchange, String, String> =
        manager.poll(ChannelEvent::Processed(marked.clone(), Ok(vec![2])));
    assert_eq!(r.outbox.len(), 1);
    let m3 = message(vec![channel("01000000")], vec![worker("01")], MessageType::KeyAgreementM3, b"y");
    let r: Reaction<Exchange, String, String> = manager.poll(ChannelEvent::Command(OckamCommand::Channel(
        ChannelCommand::ReceiveMessage(m3),
    )));
    match r.action {
        ChannelAction::Process { agreement, data } => {
            assert_eq!(agreement, marked);
            assert_eq!(data, b"y".to_vec());
        }
        _ => panic!("nothing to process"),
    }
}
