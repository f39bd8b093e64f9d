use ockam_channel::address::{Address, AddressType, Route, RouterAddress};
use ockam_channel::message::{Message, MessageType, OckamCommand, RouterCommand, WorkerCommand};
use ockam_channel::worker::{Dispatch, TestWorker, WorkerAction, WorkerEvent};

fn channel(text: &str) -> RouterAddress {
    RouterAddress::channel_router_address_from_str(text).unwrap()
}

fn worker(text: &str) -> RouterAddress {
    RouterAddress::worker_router_address_from_str(text).unwrap()
}

fn message(
    onward: Vec<RouterAddress>,
    back: Vec<RouterAddress>,
    message_type: MessageType,
    body: &[u8],
) -> Message {
    Message {
        onward_route: Route { addresses: onward },
        return_route: Route { addresses: back },
        message_type,
        message_body: body.to_vec(),
    }
}

fn quietly(m: Message) -> Result<Option<Dispatch>, String> {
    Ok(Some(Dispatch { command: RouterCommand::SendMessage(m), on_failure: None }))
}

fn or_fail(m: Message, text: &str) -> Result<Option<Dispatch>, String> {
    Ok(Some(Dispatch {
        command: RouterCommand::SendMessage(m),
        on_failure: Some(text.to_string()),
    }))
}

#[test]
fn registers_for_workers() {
    assert_eq!(TestWorker::registration(), RouterCommand::Register(AddressType::Worker));
}

#[test]
fn without_channel_asks_for_one() {
    for start in [None, Some(Address::ChannelAddress(vec![0, 0, 0, 0]))] {
        let mut w = TestWorker::new(start);
        let m = message(vec![worker("0a")], vec![worker("0b")], MessageType::Payload, b"hi");
        assert_eq!(
            w.handle_send(m),
            quietly(message(
                vec![channel("00000000"), worker("0a")],
                vec![worker("00010203"), worker("0b")],
                MessageType::Empty,
                &[],
            ))
        );
    }
}

#[test]
fn kept_message_goes_through_the_new_channel() {
    let mut w = TestWorker::new(None);
    let m = message(vec![worker("0a")], vec![worker("0b")], MessageType::Payload, b"hi");
    assert!(w.request_channel(m).is_ok());
    let told = message(vec![], vec![channel("deadbeef")], MessageType::Empty, &[]);
    assert_eq!(
        w.handle_receive(told.clone()),
        quietly(message(
            vec![channel("deadbeef"), worker("00010203")],
            vec![worker("00010203")],
            MessageType::Payload,
            b"hi",
        ))
    );
    // Only once.
    assert_eq!(w.receive_channel(told), Ok(None));
}

#[test]
fn with_channel_sends_to_it() {
    let mut w = TestWorker::new(Some(Address::ChannelAddress(vec![0xde, 0xad, 0xbe, 0xef])));
    let m = message(vec![worker("0a")], vec![worker("0b")], MessageType::Other(4), b"hi");
    assert_eq!(
        w.handle_send(m),
        or_fail(
            message(
                vec![channel("deadbeef")],
                vec![worker("00010203"), worker("0b")],
                MessageType::Other(4),
                b"hi",
            ),
            "handle_send failed in TestWorker",
        )
    );
}

#[test]
fn channel_notice_needs_one_return_address() {
    let mut w = TestWorker::new(None);
    let none = message(vec![], vec![], MessageType::Empty, &[]);
    assert_eq!(w.handle_receive(none), Err("bad return route".to_string()));
    let two = message(vec![], vec![channel("01"), channel("02")], MessageType::Empty, &[]);
    assert_eq!(w.receive_channel(two), Err("bad return route".to_string()));
}

#[test]
fn greetings_alternate() {
    let mut w = TestWorker::new(None);
    for expected in ["Hello Ockam", "Goodbye Ockam", "Hello Ockam"] {
        let m = message(vec![], vec![channel("deadbeef"), worker("0c")], MessageType::Payload, b"x");
        assert_eq!(
            w.handle_receive(m),
            or_fail(
                message(
                    vec![channel("deadbeef"), worker("0c")],
                    vec![worker("01020304")],
                    MessageType::Payload,
                    expected.as_bytes(),
                ),
                "send to router failed in TestWorker",
            )
        );
    }
}

#[test]
fn greetings_alternate_past_the_last_count() {
    let mut w = TestWorker::new(None);
    let mut last = Vec::new();
    for _ in 0..65_538u32 {
        let m = message(vec![], vec![], MessageType::Payload, b"x");
        let body = match w.handle_receive(m) {
            Ok(Some(d)) => match d.command {
                RouterCommand::SendMessage(m) => m.message_body,
                _ => panic!("not sent"),
            },
            _ => panic!("not handled"),
        };
        assert_ne!(body, last);
        last = body;
    }
}

#[test]
fn other_types_are_refused() {
    let mut w = TestWorker::new(None);
    for t in [MessageType::KeyAgreementM1, MessageType::Other(7)] {
        let m = message(vec![], vec![], t, b"x");
        assert_eq!(w.handle_receive(m), Err("worker got bad message type".to_string()));
    }
}

#[test]
fn poll_works_through_the_queue() {
    let mut w = TestWorker::new(None);
    assert_eq!(w.poll(WorkerEvent::Wake).action, WorkerAction::Receive);
    let r = w.poll(WorkerEvent::Command(OckamCommand::Worker(WorkerCommand::Test)));
    assert_eq!(r.action, WorkerAction::Receive);
    let m = message(vec![worker("0a")], vec![], MessageType::Payload, b"hi");
    let r = w.poll(WorkerEvent::Command(OckamCommand::Worker(WorkerCommand::SendMessage(m))));
    assert_eq!(r.outbox.len(), 1);
    assert_eq!(r.action, WorkerAction::Receive);
    let m = message(vec![], vec![worker("0c")], MessageType::Payload, b"x");
    let r = w.poll(WorkerEvent::Command(OckamCommand::Worker(WorkerCommand::ReceiveMessage(m))));
    assert!(r.outbox.is_empty());
    assert!(matches!(r.action, WorkerAction::Send { .. }));
    assert_eq!(w.poll(WorkerEvent::Sent).action, WorkerAction::Receive);
    assert_eq!(w.poll(WorkerEvent::Command(OckamCommand::Other)).action, WorkerAction::Receive);
    assert_eq!(w.poll(WorkerEvent::QueueEmpty).action, WorkerAction::Return(true));
}

#[test]
fn stopped_worker_says_so_in_the_end() {
    let mut w = TestWorker::new(None);
    w.poll(WorkerEvent::Wake);
    let r = w.poll(WorkerEvent::Command(OckamCommand::Worker(WorkerCommand::Stop)));
    assert_eq!(r.action, WorkerAction::Receive);
    let r = w.poll(WorkerEvent::Command(OckamCommand::Worker(WorkerCommand::Test)));
    assert_eq!(r.action, WorkerAction::Receive);
    assert_eq!(w.poll(WorkerEvent::QueueEmpty).action, WorkerAction::Return(false));
    // The next poll starts afresh.
    w.poll(WorkerEvent::Wake);
    assert_eq!(w.poll(WorkerEvent::QueueEmpty).action, WorkerAction::Return(true));
}

#[test]
fn what_must_leave_names_its_failure() {
    let mut w = TestWorker::new(None);
    w.poll(WorkerEvent::Wake);
    let m = message(vec![], vec![worker("0c")], MessageType::Payload, b"x");
    let r = w.poll(WorkerEvent::Command(OckamCommand::Worker(WorkerCommand::ReceiveMessage(m))));
    match r.action {
        WorkerAction::Send { on_failure, .. } => {
            assert_eq!(on_failure, "send to router failed in TestWorker")
        }
        _ => panic!("no reply"),
    }
    let mut w = TestWorker::new(Some(channel("01020304").address));
    w.poll(WorkerEvent::Wake);
    let m = message(vec![], vec![], MessageType::Payload, b"x");
    let r = w.poll(WorkerEvent::Command(OckamCommand::Worker(WorkerCommand::SendMessage(m))));
    match r.action {
        WorkerAction::Send { on_failure, .. } => {
            assert_eq!(on_failure, "handle_send failed in TestWorker")
        }
        _ => panic!("not sent"),
    }
}

#[test]
fn worker_objects_to_what_it_cannot_handle() {
    let back = || vec![channel("01020304")];
    let bad = [
        (message(vec![], vec![], MessageType::Empty, &[]), "bad return route"),
        (
            message(vec![], vec![worker("01"), worker("02")], MessageType::Empty, &[]),
            "bad return route",
        ),
        (message(vec![], back(), MessageType::KeyAgreementM1, &[]), "worker got bad message type"),
        (message(vec![], back(), MessageType::Other(0), &[]), "worker got bad message type"),
    ];
    for (m, text) in bad {
        let mut w = TestWorker::new(None);
        assert_eq!(w.handle_receive(m.clone()), Err(text.to_string()));
        assert_eq!(
            TestWorker::objection(&OckamCommand::Worker(WorkerCommand::ReceiveMessage(m.clone()))),
            Some(text.to_string())
        );
        // To send it is another matter.
        assert_eq!(
            TestWorker::objection(&OckamCommand::Worker(WorkerCommand::SendMessage(m))),
            None
        );
    }
    for m in [
        message(vec![], vec![], MessageType::Payload, b"x"),
        message(vec![], back(), MessageType::Empty, &[]),
    ] {
        let mut w = TestWorker::new(None);
        assert!(w.handle_receive(m.clone()).is_ok());
        assert_eq!(
            TestWorker::objection(&OckamCommand::Worker(WorkerCommand::ReceiveMessage(m))),
            None
        );
    }
    for command in [OckamCommand::Worker(WorkerCommand::Stop), OckamCommand::Other] {
        assert_eq!(TestWorker::objection(&command), None);
    }
}

#[test]
fn worker_handles_each_command_in_order() {
    let receive = |body: &[u8]| {
        let m = message(vec![], vec![worker("0c")], MessageType::Payload, body);
        OckamCommand::Worker(WorkerCommand::ReceiveMessage(m))
    };
    for (queue, keep_going) in [
        (vec![receive(b"a"), OckamCommand::Other, receive(b"b")], true),
        (vec![receive(b"a"), OckamCommand::Worker(WorkerCommand::Stop), receive(b"b")], false),
    ] {
        let mut w = TestWorker::new(None);
        let mut queue = queue.into_iter();
        let mut replies = Vec::new();
        let mut action = w.poll(WorkerEvent::Wake).action;
        let result = loop {
            let event = match action {
                WorkerAction::Receive => match queue.next() {
                    Some(command) => WorkerEvent::Command(command),
                    None => WorkerEvent::QueueEmpty,
                },
                WorkerAction::Send { command: RouterCommand::SendMessage(m), .. } => {
                    replies.push(m.message_body);
                    WorkerEvent::Sent
                }
                WorkerAction::Send { .. } => panic!("not a reply"),
                WorkerAction::Return(result) => break result,
            };
            action = w.poll(event).action;
        };
        assert_eq!(result, keep_going);
        assert!(queue.next().is_none());
        assert_eq!(replies, vec![b"Hello Ockam".to_vec(), b"Goodbye Ockam".to_vec()]);
    }
}
