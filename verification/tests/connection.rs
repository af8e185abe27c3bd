use rustirc::codec::{greeting_frame, ProtocolError};
use rustirc::connection::{Action, Connection, Event, State};
use rustirc::store::{Identify, Message, User};

fn fresh() -> Connection {
    Connection::accept(String::from("127.0.0.1:5000")).0
}

fn identified() -> Connection {
    let mut connection = fresh();
    connection.handle(Event::SessionStored(user("alice", "tok")));
    connection
}

fn user(name: &str, token: &str) -> User {
    User {
        username: String::from(name),
        pem: String::from("x"),
        uuid: String::from(token),
        addr: String::from("00"),
        banned: false,
    }
}

fn shown(actions: Vec<Action>) -> Vec<String> {
    actions
        .into_iter()
        .map(|action| match action {
            Action::Send(frame) => format!("send {}", frame),
            Action::Publish(event) => format!("publish {}", event),
            Action::DecodeIdentify(payload) => format!("identify {}", payload),
            Action::DecodeMessage(payload) => format!("message {}", payload),
            Action::StoreSession(identify) => {
                format!("store {} {}", identify.username, identify.pem)
            }
        })
        .collect()
}

#[test]
fn accept_greets() {
    let (connection, actions) = Connection::accept(String::from("10.0.0.1:9"));
    assert_eq!(connection.state, State::PreIdentify);
    assert_eq!(connection.peer, "10.0.0.1:9");
    assert!(!connection.is_closed());
    assert_eq!(shown(actions), vec![format!("send {}", greeting_frame())]);
}

#[test]
fn identify_scenario() {
    let mut connection = fresh();
    let actions = connection.handle(Event::Line(String::from(
        "FN<>::Identify {\"username\":\"alice\",\"pem\":\"x\"}\r\n",
    )));
    assert_eq!(
        shown(actions),
        vec![String::from(
            "identify {\"username\":\"alice\",\"pem\":\"x\"}"
        )]
    );
    assert_eq!(connection.state, State::PreIdentify);

    let actions = connection.handle(Event::IdentifyDecoded(Some(Identify {
        username: String::from("alice"),
        pem: String::from("x"),
    })));
    assert_eq!(
        shown(actions),
        vec![
            String::from("send OK::Connection verified. Your session is being prepared. Please wait for an ACK response before sending any messages.\r\n"),
            String::from("store alice x"),
        ]
    );
    assert_eq!(connection.state, State::PreIdentify);

    let token = "67e55044-10b1-426f-9247-bb680e5fe0c8";
    let actions = connection.handle(Event::SessionStored(user("alice", token)));
    assert_eq!(
        shown(actions),
        vec![
            String::from("send OK::Connection Established. Your user profile has been created and you are now ready for chat! Use your user id to send a message.\r\n"),
            String::from("send UUID::67e55044-10b1-426f-9247-bb680e5fe0c8\r\n"),
            String::from("publish JOIN::alice joined just now."),
        ]
    );
    assert_eq!(connection.state, State::Identified);

    let actions = connection.handle(Event::Broadcast(String::from(
        "JOIN::alice joined just now.",
    )));
    assert_eq!(
        shown(actions),
        vec![String::from("send UMSG::JOIN::alice joined just now.\r\n")]
    );
}

#[test]
fn message_scenario() {
    let mut connection = identified();
    let actions = connection.handle(Event::Line(String::from(
        "FN<>::Message {\"uuid\":\"tok\",\"content\":\"hi\"}\r\n",
    )));
    assert_eq!(
        shown(actions),
        vec![String::from("message {\"uuid\":\"tok\",\"content\":\"hi\"}")]
    );
    let actions = connection.handle(Event::MessageDecoded(Some(Message::new("tok", "hi"))));
    assert_eq!(shown(actions), vec![String::from("publish tok: hi")]);
    assert_eq!(connection.state, State::Identified);
    let actions = connection.handle(Event::Broadcast(String::from("tok: hi")));
    assert_eq!(shown(actions), vec![String::from("send UMSG::tok: hi\r\n")]);
}

#[test]
fn message_before_identify_is_published() {
    let mut connection = fresh();
    let actions = connection.handle(Event::MessageDecoded(Some(Message::new("other", "yo"))));
    assert_eq!(shown(actions), vec![String::from("publish other: yo")]);
    assert_eq!(connection.state, State::PreIdentify);
}

#[test]
fn broadcast_is_relayed_before_identify() {
    let mut connection = fresh();
    let actions = connection.handle(Event::Broadcast(String::from("a: b")));
    assert_eq!(shown(actions), vec![String::from("send UMSG::a: b\r\n")]);
    assert_eq!(connection.state, State::PreIdentify);
}

#[test]
fn broadcasts_keep_their_order() {
    let mut connection = identified();
    let mut sent = Vec::new();
    for event in ["one", "two", "three"] {
        sent.extend(shown(connection.handle(Event::Broadcast(String::from(event)))));
    }
    assert_eq!(
        sent,
        vec![
            String::from("send UMSG::one\r\n"),
            String::from("send UMSG::two\r\n"),
            String::from("send UMSG::three\r\n"),
        ]
    );
}

#[test]
fn malformed_lines_close_with_one_error_frame() {
    let cases = [
        ("no separator\r\n", ProtocolError::MissingSeparator),
        ("FN::Identify {}\r\n", ProtocolError::MissingMarker),
        ("XX<>::Identify {}\r\n", ProtocolError::UnsupportedMarker),
        ("FN<>::Dance {}\r\n", ProtocolError::UnknownIdentifier),
    ];
    for (line, error) in cases {
        for mut connection in [fresh(), identified()] {
            let actions = connection.handle(Event::Line(String::from(line)));
            assert_eq!(
                shown(actions),
                vec![format!("send ERR::{}\r\n", error.message())]
            );
            assert_eq!(connection.state, State::Closed);
            assert!(connection.is_closed());
        }
    }
}

#[test]
fn error_frames_word_for_word() {
    let mut connection = fresh();
    assert_eq!(
        shown(connection.handle(Event::Line(String::from("junk")))),
        vec![String::from("send ERR::Your ACK is not supported or broken.\r\n")]
    );
    let mut connection = fresh();
    assert_eq!(
        shown(connection.handle(Event::Line(String::from("FN::x")))),
        vec![String::from(
            "send ERR::The message doesn't contain an identifier.\r\n"
        )]
    );
    let mut connection = fresh();
    assert_eq!(
        shown(connection.handle(Event::Line(String::from("FN<>::x")))),
        vec![String::from("send ERR::Your identifier is not supported.\r\n")]
    );
}

#[test]
fn undecoded_identify_closes() {
    let mut connection = fresh();
    let actions = connection.handle(Event::IdentifyDecoded(None));
    assert_eq!(
        shown(actions),
        vec![String::from("send ERR::The data is broken or unsupported.\r\n")]
    );
    assert_eq!(connection.state, State::Closed);
}

#[test]
fn undecoded_message_goes_on() {
    let mut connection = identified();
    let actions = connection.handle(Event::MessageDecoded(None));
    assert_eq!(
        shown(actions),
        vec![String::from("send ERR::The data is broken or unsupported.\r\n")]
    );
    assert_eq!(connection.state, State::Identified);
}

#[test]
fn failed_session_closes() {
    let mut connection = fresh();
    let actions = connection.handle(Event::SessionFailed);
    assert_eq!(
        shown(actions),
        vec![String::from(
            "send ERR::The session creation process fails. The link will be terminated.\r\n"
        )]
    );
    assert_eq!(connection.state, State::Closed);
}

#[test]
fn end_of_stream_and_read_failure_close_quietly() {
    let mut connection = fresh();
    assert!(connection.handle(Event::EndOfStream).is_empty());
    assert_eq!(connection.state, State::Closed);
    let mut connection = identified();
    assert!(connection.handle(Event::ReadFailed).is_empty());
    assert_eq!(connection.state, State::Closed);
}

#[test]
fn gap_is_passed_over() {
    let mut connection = identified();
    assert!(connection.handle(Event::BroadcastGap(3)).is_empty());
    assert_eq!(connection.state, State::Identified);
}

#[test]
fn closed_is_final() {
    let mut connection = fresh();
    connection.handle(Event::EndOfStream);
    let events = vec![
        Event::Line(String::from("FN<>::Message {}")),
        Event::Broadcast(String::from("x")),
        Event::SessionStored(user("a", "b")),
        Event::IdentifyDecoded(None),
        Event::MessageDecoded(Some(Message::new("a", "b"))),
        Event::SessionFailed,
        Event::BroadcastGap(1),
        Event::ReadFailed,
    ];
    for event in events {
        assert!(connection.handle(event).is_empty());
        assert_eq!(connection.state, State::Closed);
    }
}

#[test]
fn second_identify_keeps_the_connection_identified() {
    let mut connection = identified();
    let actions = connection.handle(Event::IdentifyDecoded(Some(Identify {
        username: String::from("bob"),
        pem: String::from("y"),
    })));
    assert_eq!(actions.len(), 2);
    assert_eq!(connection.state, State::Identified);
    connection.handle(Event::SessionStored(user("bob", "t2")));
    assert_eq!(connection.state, State::Identified);
}
