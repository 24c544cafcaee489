use bubble::controller::{
    Controller, Declared, DiscoveryPlan, EntryStep, JoinOutcome, Phase, Publication,
};
use bubble::message::{inbound, Message};
use bubble::notice::{ErrorKind, Notice};
use bubble::presence::PresenceSet;

const ALL: Declared = Declared { subscriber: true, publisher: true, responder: true };
const NONE: Declared = Declared { subscriber: false, publisher: false, responder: false };

fn servers(items: &[&str]) -> Vec<String> {
    items.iter().map(|s| s.to_string()).collect()
}

/// A client that has entered `room` over a fresh session.
fn client_in(room: &str) -> Controller {
    let mut c = Controller::new(250);
    match c.enter_room(room, &servers(&["tcp/127.0.0.1:7447"])) {
        EntryStep::OpenSession { endpoints } => assert_eq!(endpoints.len(), 1),
        other => panic!("unexpected step {other:?}"),
    }
    assert_eq!(c.session_opened(true), Ok(Some(format!("bubble/message/{room}"))));
    assert!(c.joined(ALL).entered);
    c
}

#[test]
fn a_new_controller_is_idle_without_a_session() {
    let c = Controller::new(250);
    assert_eq!(c.phase(), &Phase::Idle);
    assert!(!c.has_session());
}

#[test]
fn entering_goes_from_idle_through_entering_to_active() {
    let mut c = Controller::new(250);
    let step = c.enter_room("lobby", &servers(&["tcp/127.0.0.1:7447"]));
    assert!(matches!(step, EntryStep::OpenSession { .. }));
    assert_eq!(c.phase(), &Phase::Entering("lobby".to_string()));
    assert!(!c.has_session());
    assert_eq!(c.session_opened(true), Ok(Some("bubble/message/lobby".to_string())));
    assert!(c.has_session());
    assert_eq!(c.phase(), &Phase::Entering("lobby".to_string()));
    let outcome = c.joined(ALL);
    assert_eq!(outcome, JoinOutcome { entered: true, release: NONE, error: None });
    assert_eq!(c.phase(), &Phase::Active("lobby".to_string()));
}

#[test]
fn a_message_sent_in_a_room_reaches_the_other_member_once() {
    let a = client_in("lobby");
    let b = client_in("lobby");
    let publication = a.send_message("A", "hi").unwrap();
    assert_eq!(publication.topic, "bubble/message/lobby");
    // B listens on the topic of its own room, which is the same one.
    assert_eq!(b.send_message("B", "").unwrap().topic, publication.topic);
    let events: Vec<Message> = [publication.payload].iter().filter_map(|p| inbound(p)).collect();
    assert_eq!(events.len(), 1);
    assert_eq!(events[0].name(), "A");
    assert_eq!(events[0].message(), "hi");
}

#[test]
fn sending_without_a_room_gives_a_notice_and_no_traffic() {
    let c = Controller::new(250);
    let r = c.send_message("A", "hi");
    assert_eq!(r, Err(ErrorKind::NotInRoom));
    assert_eq!(ErrorKind::NotInRoom.notice(), Some(Notice::new("Not in a room.")));
    assert_eq!(c.phase(), &Phase::Idle);
}

#[test]
fn sending_while_entering_is_refused_too() {
    let mut c = Controller::new(250);
    c.enter_room("lobby", &servers(&["tcp/127.0.0.1:7447"]));
    assert_eq!(c.send_message("A", "hi"), Err(ErrorKind::NotInRoom));
    c.session_opened(true).unwrap();
    assert_eq!(c.send_message("A", "hi"), Err(ErrorKind::NotInRoom));
}

#[test]
fn an_unparseable_endpoint_keeps_the_client_idle() {
    let mut c = Controller::new(250);
    let step = c.enter_room("lobby", &servers(&["not an endpoint"]));
    assert_eq!(step, EntryStep::Refused(ErrorKind::Configuration));
    assert_eq!(c.phase(), &Phase::Idle);
    assert!(!c.has_session());
    assert_eq!(
        ErrorKind::Configuration.notice(),
        Some(Notice::new("Cannot connect to server."))
    );
    assert_eq!(ErrorKind::Configuration.notice(), ErrorKind::Connection.notice());
}

#[test]
fn no_endpoints_at_all_keeps_the_client_idle() {
    let mut c = Controller::new(250);
    assert_eq!(c.enter_room("lobby", &Vec::new()), EntryStep::Refused(ErrorKind::Configuration));
    assert_eq!(c.phase(), &Phase::Idle);
}

#[test]
fn invalid_endpoints_are_dropped_when_a_valid_one_is_there() {
    let mut c = Controller::new(250);
    let step = c.enter_room("lobby", &servers(&["junk", "tcp/10.0.0.1:7447", "tcp/"]));
    match step {
        EntryStep::OpenSession { endpoints } => {
            assert_eq!(endpoints.len(), 1);
            assert_eq!(endpoints[0].as_str(), "tcp/10.0.0.1:7447");
        },
        other => panic!("unexpected step {other:?}"),
    }
}

#[test]
fn plan_session_says_which_endpoints_to_open() {
    let c = Controller::new(250);
    let plan = c.plan_session(&servers(&["tcp/a:1", "x", "tcp/b:2"])).unwrap();
    let texts: Vec<&str> = plan.iter().map(|e| e.as_str()).collect();
    assert_eq!(texts, vec!["tcp/a:1", "tcp/b:2"]);
    assert_eq!(c.plan_session(&servers(&["x", "y"])), Err(ErrorKind::Configuration));
    assert_eq!(c.plan_session(&Vec::new()), Err(ErrorKind::Configuration));
}

#[test]
fn a_second_session_is_refused() {
    let mut c = client_in("lobby");
    assert_eq!(c.plan_session(&servers(&["tcp/a:1"])), Err(ErrorKind::AlreadyInitialized));
    assert_eq!(c.session_opened(true), Err(ErrorKind::AlreadyInitialized));
    assert_eq!(c.session_opened(false), Err(ErrorKind::AlreadyInitialized));
    assert!(c.has_session());
    assert_eq!(c.phase(), &Phase::Active("lobby".to_string()));
}

#[test]
fn a_session_opened_at_startup_needs_no_room() {
    let mut c = Controller::new(250);
    assert_eq!(c.session_opened(true), Ok(None));
    assert!(c.has_session());
    assert_eq!(c.phase(), &Phase::Idle);
    let step = c.enter_room("lobby", &Vec::new());
    assert_eq!(step, EntryStep::Join { leave: None, topic: "bubble/message/lobby".to_string() });
}

#[test]
fn a_failed_connection_aborts_the_entry() {
    let mut c = Controller::new(250);
    c.enter_room("lobby", &servers(&["tcp/127.0.0.1:7447"]));
    assert_eq!(c.session_opened(false), Err(ErrorKind::Connection));
    assert_eq!(c.phase(), &Phase::Idle);
    assert!(!c.has_session());
    // Nothing is retried by itself, but the user may ask again.
    assert!(matches!(
        c.enter_room("lobby", &servers(&["tcp/127.0.0.1:7447"])),
        EntryStep::OpenSession { .. }
    ));
}

#[test]
fn a_partial_join_is_released_and_aborts_the_entry() {
    for declared in [
        Declared { subscriber: true, publisher: false, responder: false },
        Declared { subscriber: true, publisher: true, responder: false },
        Declared { subscriber: false, publisher: true, responder: true },
        NONE,
    ] {
        let mut c = Controller::new(250);
        c.enter_room("lobby", &servers(&["tcp/127.0.0.1:7447"]));
        c.session_opened(true).unwrap();
        let outcome = c.joined(declared);
        assert_eq!(
            outcome,
            JoinOutcome { entered: false, release: declared, error: Some(ErrorKind::Subscription) }
        );
        assert_eq!(c.phase(), &Phase::Idle);
        assert!(c.has_session());
    }
}

#[test]
fn a_join_that_nobody_asked_for_is_released() {
    let mut c = Controller::new(250);
    let outcome = c.joined(ALL);
    assert_eq!(outcome, JoinOutcome { entered: false, release: ALL, error: Some(ErrorKind::Subscription) });
    assert_eq!(c.phase(), &Phase::Idle);

    let mut c = client_in("lobby");
    let outcome = c.joined(ALL);
    assert!(!outcome.entered);
    assert_eq!(outcome.release, ALL);
    assert_eq!(c.phase(), &Phase::Active("lobby".to_string()));
}

#[test]
fn a_join_before_the_session_is_released() {
    let mut c = Controller::new(250);
    c.enter_room("lobby", &servers(&["tcp/127.0.0.1:7447"]));
    let outcome = c.joined(ALL);
    assert!(!outcome.entered);
    assert_eq!(outcome.release, ALL);
    assert_eq!(c.phase(), &Phase::Idle);
}

#[test]
fn entering_while_entering_is_refused() {
    let mut c = Controller::new(250);
    c.enter_room("lobby", &servers(&["tcp/127.0.0.1:7447"]));
    assert_eq!(
        c.enter_room("den", &servers(&["tcp/127.0.0.1:7447"])),
        EntryStep::Refused(ErrorKind::Busy)
    );
    assert_eq!(c.phase(), &Phase::Entering("lobby".to_string()));
}

#[test]
fn switching_rooms_releases_the_old_room_first() {
    let mut c = client_in("lobby");
    let step = c.enter_room("den", &servers(&["ignored"]));
    assert_eq!(
        step,
        EntryStep::Join {
            leave: Some("bubble/message/lobby".to_string()),
            topic: "bubble/message/den".to_string(),
        }
    );
    assert_eq!(c.phase(), &Phase::Entering("den".to_string()));
    assert_eq!(c.send_message("A", "hi"), Err(ErrorKind::NotInRoom));
    assert!(c.joined(ALL).entered);
    assert_eq!(c.send_message("A", "hi").unwrap().topic, "bubble/message/den");
}

#[test]
fn leaving_returns_to_idle() {
    let mut c = client_in("lobby");
    assert_eq!(c.leave(), Some("bubble/message/lobby".to_string()));
    assert_eq!(c.phase(), &Phase::Idle);
    assert!(c.has_session());
    assert_eq!(c.leave(), None);
    assert_eq!(c.send_message("A", "hi"), Err(ErrorKind::NotInRoom));

    let mut c = Controller::new(250);
    c.enter_room("lobby", &servers(&["tcp/127.0.0.1:7447"]));
    assert_eq!(c.leave(), None);
    assert_eq!(c.phase(), &Phase::Idle);
}

#[test]
fn send_message_encodes_for_the_active_room() {
    let c = client_in("lobby");
    let expected = Publication {
        topic: "bubble/message/lobby".to_string(),
        payload: Message::new("A", "hi").unwrap().encode(),
    };
    assert_eq!(c.send_message("A", "hi"), Ok(expected));
}

#[test]
fn discovery_needs_a_session() {
    let c = Controller::new(250);
    assert_eq!(c.discover(), Err(ErrorKind::Connection));
    let c = client_in("lobby");
    assert_eq!(
        c.discover(),
        Ok(DiscoveryPlan { topic: "bubble/rooms".to_string(), timeout_ms: 250 })
    );
    assert_eq!(Controller::new(0).discover(), Err(ErrorKind::Connection));
}

#[test]
fn only_a_member_answers_presence_queries() {
    let idle = Controller::new(250);
    assert_eq!(idle.answer_query("bubble/rooms"), None);
    let mut entering = Controller::new(250);
    entering.enter_room("lobby", &servers(&["tcp/127.0.0.1:7447"]));
    assert_eq!(entering.answer_query("bubble/rooms"), None);
    let member = client_in("lobby");
    let reply = member.answer_query("bubble/rooms").unwrap();
    assert_eq!(reply.key, "bubble/rooms");
    assert_eq!(reply.payload, b"lobby".to_vec());
}

#[test]
fn a_third_client_discovers_both_rooms() {
    let first = client_in("a");
    let second = client_in("b");
    let mut third = Controller::new(250);
    third.session_opened(true).unwrap();
    let plan = third.discover().unwrap();
    let replies: Vec<Vec<u8>> = [&first, &second, &third]
        .iter()
        .filter_map(|peer| peer.answer_query(&plan.topic))
        .map(|reply| reply.payload)
        .collect();
    let found = PresenceSet::collect(&replies);
    assert_eq!(found.rooms(), &vec!["a".to_string(), "b".to_string()]);
}

#[test]
fn discovery_twice_gives_the_same_rooms() {
    let peers = [client_in("a"), client_in("b"), client_in("a")];
    let round = |order: &[usize]| {
        let replies: Vec<Vec<u8>> = order
            .iter()
            .filter_map(|&i| peers[i].answer_query("bubble/rooms"))
            .map(|reply| reply.payload)
            .collect();
        PresenceSet::collect(&replies)
    };
    let first = round(&[0, 1, 2]);
    let second = round(&[0, 1, 2]);
    assert_eq!(first, second);
    let reordered = round(&[2, 1, 0, 1]);
    assert_eq!(reordered.len(), 2);
    assert!(reordered.contains("a") && reordered.contains("b"));
}

#[test]
fn every_kind_of_failure_has_its_notice_but_one() {
    let text = |kind: ErrorKind| kind.notice().map(|n| n.message);
    assert_eq!(text(ErrorKind::Configuration).as_deref(), Some("Cannot connect to server."));
    assert_eq!(text(ErrorKind::Connection).as_deref(), Some("Cannot connect to server."));
    assert_eq!(text(ErrorKind::AlreadyInitialized).as_deref(), Some("Cannot connect to server."));
    assert_eq!(text(ErrorKind::Subscription).as_deref(), Some("Cannot enter the room."));
    assert_eq!(text(ErrorKind::Send).as_deref(), Some("Cannot send the message."));
    assert_eq!(text(ErrorKind::NotInRoom).as_deref(), Some("Not in a room."));
    assert_eq!(text(ErrorKind::Busy).as_deref(), Some("Already entering a room."));
    assert_eq!(text(ErrorKind::Decode), None);
}

#[test]
fn notice_new_keeps_the_text() {
    assert_eq!(Notice::new("Cannot connect to server.").message, "Cannot connect to server.");
    assert_eq!(Notice::new("").message, "");
}

#[test]
fn plan_session_to_wants_an_endpoint_and_no_session() {
    let e = bubble::endpoint::Endpoint::parse("tcp/a:1").unwrap();
    let c = Controller::new(250);
    assert_eq!(c.plan_session_to(Vec::new()), Err(ErrorKind::Configuration));
    assert_eq!(c.plan_session_to(vec![e.duplicate()]), Ok(vec![e.duplicate()]));
    let c = client_in("lobby");
    assert_eq!(c.plan_session_to(vec![e]), Err(ErrorKind::AlreadyInitialized));
    assert_eq!(c.plan_session_to(Vec::new()), Err(ErrorKind::AlreadyInitialized));
}

#[test]
fn enter_room_over_parsed_endpoints() {
    let e = bubble::endpoint::Endpoint::parse("tcp/a:1").unwrap();
    let mut c = Controller::new(250);
    assert_eq!(c.enter_room_over("lobby", Vec::new()), EntryStep::Refused(ErrorKind::Configuration));
    assert_eq!(c.phase(), &Phase::Idle);
    assert_eq!(
        c.enter_room_over("lobby", vec![e.duplicate()]),
        EntryStep::OpenSession { endpoints: vec![e.duplicate()] }
    );
    assert_eq!(c.phase(), &Phase::Entering("lobby".to_string()));
    assert_eq!(c.enter_room_over("den", vec![e]), EntryStep::Refused(ErrorKind::Busy));
}
