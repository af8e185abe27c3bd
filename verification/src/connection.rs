//! One connection's side of the protocol, as a state machine.
//!
//! The program owns the socket and the broadcast subscription. It hands
//! every happening to `Connection::handle` as an `Event` and carries out the
//! `Action`s that come back, in order. Decoding a payload and storing a
//! session are such actions: their outcome comes back as the next event.
//!
//! Policy on faults: a line that cannot be taken apart, or an `Identify`
//! payload that cannot be decoded, is answered with one `ERR` frame and
//! closes the connection. A `Message` payload that cannot be decoded is
//! answered with one `ERR` frame and the connection goes on. A read that
//! fails closes the connection; a write that fails does not: the frame is
//! lost and the connection goes on. A broadcast event is relayed in every
//! state but `Closed`, before the handshake too. A gap in the broadcast
//! events is not a fault and is passed over in silence. A chat message is
//! published under the token that it names: that this is the sender's own
//! token is not looked at.

use vstd::prelude::*;
use vstd::string::*;
use crate::codec::{
    chat_event, chat_text, decode_frame, err_frame, err_text, frame_of, greeting_frame,
    greeting_text, join_event, join_text, ok_frame, ok_text, relay_frame, relay_text,
    server_frame, token_frame, token_text, FrameKind, FrameView, ProtocolError, CHAT_INFIX,
    JOIN_PREFIX, JOIN_SUFFIX, TAG_EVENT, TEXT_ESTABLISHED, TEXT_SESSION_FAILED, TEXT_VERIFIED,
};
use crate::store::{Identify, IdentifyView, Message, MessageView, User, UserView};

verus! {

/// Where a connection stands. `Closed` is final.
#[derive(Clone, Copy, Debug, PartialEq, Eq, Structural)]
pub enum State {
    PreIdentify,
    Identified,
    Closed,
}

/// What happens to a connection.
#[derive(Debug)]
pub enum Event {
    /// A line was read from the socket.
    Line(String),
    /// The socket was read to its end.
    EndOfStream,
    /// Reading the socket failed.
    ReadFailed,
    /// Writing a frame to the socket failed.
    WriteFailed,
    /// The subscription yielded a broadcast event.
    Broadcast(String),
    /// The subscription fell behind and lost this many events.
    BroadcastGap(u64),
    /// An `Identify` payload was decoded, or could not be.
    IdentifyDecoded(Option<Identify>),
    /// A `Message` payload was decoded, or could not be.
    MessageDecoded(Option<Message>),
    /// The session's record was stored.
    SessionStored(User),
    /// The session's record could not be stored.
    SessionFailed,
}

/// An event as plain text.
pub enum EventView {
    Line(Seq<char>),
    EndOfStream,
    ReadFailed,
    WriteFailed,
    Broadcast(Seq<char>),
    BroadcastGap(u64),
    IdentifyDecoded(Option<IdentifyView>),
    MessageDecoded(Option<MessageView>),
    SessionStored(UserView),
    SessionFailed,
}

impl View for Event {
    type V = EventView;

    open spec fn view(&self) -> EventView {
        match self {
            Event::Line(line) => EventView::Line(line@),
            Event::EndOfStream => EventView::EndOfStream,
            Event::ReadFailed => EventView::ReadFailed,
            Event::WriteFailed => EventView::WriteFailed,
            Event::Broadcast(event) => EventView::Broadcast(event@),
            Event::BroadcastGap(lost) => EventView::BroadcastGap(*lost),
            Event::IdentifyDecoded(Some(identify)) => EventView::IdentifyDecoded(Some(identify@)),
            Event::IdentifyDecoded(None) => EventView::IdentifyDecoded(None),
            Event::MessageDecoded(Some(message)) => EventView::MessageDecoded(Some(message@)),
            Event::MessageDecoded(None) => EventView::MessageDecoded(None),
            Event::SessionStored(user) => EventView::SessionStored(user@),
            Event::SessionFailed => EventView::SessionFailed,
        }
    }
}

/// What the program is to do for a connection.
#[derive(Debug)]
pub enum Action {
    /// Write this frame to the socket.
    Send(String),
    /// Publish this event to every subscriber.
    Publish(String),
    /// Decode this payload as an `Identify` and come back with
    /// `Event::IdentifyDecoded`.
    DecodeIdentify(String),
    /// Decode this payload as a `Message` and come back with
    /// `Event::MessageDecoded`.
    DecodeMessage(String),
    /// Store a session for this peer and come back with
    /// `Event::SessionStored` or `Event::SessionFailed`.
    StoreSession(Identify),
}

/// An action as plain text.
pub enum ActionView {
    Send(Seq<char>),
    Publish(Seq<char>),
    DecodeIdentify(Seq<char>),
    DecodeMessage(Seq<char>),
    StoreSession(IdentifyView),
}

impl View for Action {
    type V = ActionView;

    open spec fn view(&self) -> ActionView {
        match self {
            Action::Send(frame) => ActionView::Send(frame@),
            Action::Publish(event) => ActionView::Publish(event@),
            Action::DecodeIdentify(payload) => ActionView::DecodeIdentify(payload@),
            Action::DecodeMessage(payload) => ActionView::DecodeMessage(payload@),
            Action::StoreSession(identify) => ActionView::StoreSession(identify@),
        }
    }
}

/// The views of `actions`, in order.
pub open spec fn action_views(actions: Seq<Action>) -> Seq<ActionView> {
    Seq::new(actions.len(), |i: int| actions[i]@)
}

/// What a connection that is not closed does with a client's line.
pub open spec fn react_to_line(state: State, line: Seq<char>) -> (State, Seq<ActionView>) {
    match frame_of(line) {
        Ok(frame) => match frame.kind {
            FrameKind::Identify => (state, seq![ActionView::DecodeIdentify(frame.payload)]),
            FrameKind::Message => (state, seq![ActionView::DecodeMessage(frame.payload)]),
        },
        Err(e) => (State::Closed, seq![ActionView::Send(err_text(e.text()))]),
    }
}

/// The state that follows `state` on `event`, and what is to be done.
pub open spec fn react(state: State, event: EventView) -> (State, Seq<ActionView>) {
    if state == State::Closed {
        (State::Closed, Seq::empty())
    } else {
        match event {
            EventView::Line(line) => react_to_line(state, line),
            EventView::EndOfStream => (State::Closed, Seq::empty()),
            EventView::ReadFailed => (State::Closed, Seq::empty()),
            EventView::WriteFailed => (state, Seq::empty()),
            EventView::Broadcast(event) => (state, seq![ActionView::Send(relay_text(event))]),
            EventView::BroadcastGap(_) => (state, Seq::empty()),
            EventView::IdentifyDecoded(None) => (
                State::Closed,
                seq![ActionView::Send(err_text(ProtocolError::BadPayload.text()))],
            ),
            EventView::IdentifyDecoded(Some(identify)) => (
                state,
                seq![
                    ActionView::Send(ok_text(TEXT_VERIFIED@)),
                    ActionView::StoreSession(identify),
                ],
            ),
            EventView::MessageDecoded(None) => (
                state,
                seq![ActionView::Send(err_text(ProtocolError::BadPayload.text()))],
            ),
            EventView::MessageDecoded(Some(message)) => (
                state,
                seq![ActionView::Publish(chat_text(message.uuid, message.content))],
            ),
            EventView::SessionStored(user) => (
                State::Identified,
                seq![
                    ActionView::Send(ok_text(TEXT_ESTABLISHED@)),
                    ActionView::Send(token_text(user.uuid)),
                    ActionView::Publish(join_text(user.username)),
                ],
            ),
            EventView::SessionFailed => (
                State::Closed,
                seq![ActionView::Send(err_text(TEXT_SESSION_FAILED@))],
            ),
        }
    }
}

/// One accepted connection: its peer's address and where it stands.
#[derive(Debug)]
pub struct Connection {
    pub peer: String,
    pub state: State,
}

impl Connection {
    /// The connection for a peer that was just accepted, and the greeting
    /// that is sent to it at once.
    pub fn accept(peer: String) -> (r: (Connection, Vec<Action>))
        ensures
            r.0.peer == peer,
            r.0.state == State::PreIdentify,
            action_views(r.1@) == seq![ActionView::Send(greeting_text())],
    {
        let mut actions: Vec<Action> = Vec::new();
        actions.push(Action::Send(greeting_frame()));
        assert(action_views(actions@) =~= seq![ActionView::Send(greeting_text())]);
        (Connection { peer, state: State::PreIdentify }, actions)
    }

    /// Whether the connection is closed.
    pub fn is_closed(&self) -> (b: bool)
        ensures
            b == (self.state == State::Closed),
    {
        self.state == State::Closed
    }

    /// Takes `event` in: moves to the state that follows and returns what is
    /// to be done, in order.
    pub fn handle(&mut self, event: Event) -> (actions: Vec<Action>)
        ensures
            (final(self).state, action_views(actions@)) == react(old(self).state, event@),
            actions@.len() == react(old(self).state, event@).1.len(),
            final(self).peer == old(self).peer,
    {
        let mut actions: Vec<Action> = Vec::new();
        if self.state == State::Closed {
            assert(action_views(actions@) =~= Seq::empty());
            return actions;
        }
        match event {
            Event::Line(line) => {
                match decode_frame(line.as_str()) {
                    Ok(frame) => {
                        match frame.kind {
                            FrameKind::Identify => {
                                actions.push(Action::DecodeIdentify(frame.payload));
                            },
                            FrameKind::Message => {
                                actions.push(Action::DecodeMessage(frame.payload));
                            },
                        }
                    },
                    Err(e) => {
                        actions.push(Action::Send(err_frame(e.message())));
                        self.state = State::Closed;
                    },
                }
            },
            Event::EndOfStream => {
                self.state = State::Closed;
            },
            Event::ReadFailed => {
                self.state = State::Closed;
            },
            Event::WriteFailed => {},
            Event::Broadcast(event) => {
                actions.push(Action::Send(relay_frame(event.as_str())));
            },
            Event::BroadcastGap(_) => {},
            Event::IdentifyDecoded(None) => {
                actions.push(Action::Send(err_frame(ProtocolError::BadPayload.message())));
                self.state = State::Closed;
            },
            Event::IdentifyDecoded(Some(identify)) => {
                actions.push(Action::Send(ok_frame(TEXT_VERIFIED)));
                actions.push(Action::StoreSession(identify));
            },
            Event::MessageDecoded(None) => {
                actions.push(Action::Send(err_frame(ProtocolError::BadPayload.message())));
            },
            Event::MessageDecoded(Some(message)) => {
                actions.push(
                    Action::Publish(chat_event(message.uuid.as_str(), message.content.as_str())),
                );
            },
            Event::SessionStored(user) => {
                actions.push(Action::Send(ok_frame(TEXT_ESTABLISHED)));
                actions.push(Action::Send(token_frame(user.uuid.as_str())));
                actions.push(Action::Publish(join_event(user.username.as_str())));
                self.state = State::Identified;
            },
            Event::SessionFailed => {
                actions.push(Action::Send(err_frame(TEXT_SESSION_FAILED)));
                self.state = State::Closed;
            },
        }
        assert(action_views(actions@) =~= react(old(self).state, event@).1);
        actions
    }
}

/// The state after the events `events`, taken in order from `state`, and all
/// that is to be done for them, in order.
pub open spec fn run(state: State, events: Seq<EventView>) -> (State, Seq<ActionView>)
    decreases events.len(),
{
    if events.len() == 0 {
        (state, Seq::empty())
    } else {
        let before = run(state, events.drop_last());
        let last = react(before.0, events.last());
        (last.0, before.1 + last.1)
    }
}

/// How far a state is along `PreIdentify`, `Identified`, `Closed`.
pub open spec fn rank(state: State) -> int {
    match state {
        State::PreIdentify => 0,
        State::Identified => 1,
        State::Closed => 2,
    }
}

/// A closed connection stays closed and nothing more is done for it.
pub proof fn closed_is_final(event: EventView)
    ensures
        react(State::Closed, event) == (State::Closed, Seq::<ActionView>::empty()),
{
}

/// A connection only moves forward: from `PreIdentify` to `Identified` to
/// `Closed`, never back.
pub proof fn state_moves_forward(state: State, event: EventView)
    ensures
        rank(state) <= rank(react(state, event).0),
{
}

/// Only a stored session makes a connection identified.
pub proof fn identified_by_stored_session_only(state: State, event: EventView)
    requires
        state == State::PreIdentify,
        react(state, event).0 == State::Identified,
    ensures
        event is SessionStored,
{
}

/// The handshake. A line that holds an `Identify` frame, the request that
/// its payload was decoded to, and the record that was stored for it take a
/// new connection to `Identified`. On the way the peer is sent the two
/// acknowledgements and then the record's token, which has 36 characters,
/// and the newcomer is announced to the subscribers.
pub proof fn handshake_reaches_identified(
    line: Seq<char>,
    payload: Seq<char>,
    identify: IdentifyView,
    user: UserView,
)
    requires
        frame_of(line) == Ok::<FrameView, ProtocolError>(
            FrameView { kind: FrameKind::Identify, payload },
        ),
        user.username == identify.username,
        crate::store::is_session_key(user.uuid),
    ensures
        run(
            State::PreIdentify,
            seq![
                EventView::Line(line),
                EventView::IdentifyDecoded(Some(identify)),
                EventView::SessionStored(user),
            ],
        ) == (
            State::Identified,
            seq![
                ActionView::DecodeIdentify(payload),
                ActionView::Send(ok_text(TEXT_VERIFIED@)),
                ActionView::StoreSession(identify),
                ActionView::Send(ok_text(TEXT_ESTABLISHED@)),
                ActionView::Send(token_text(user.uuid)),
                ActionView::Publish(join_text(identify.username)),
            ],
        ),
        user.uuid.len() == 36,
{
    let e0 = EventView::Line(line);
    let e1 = EventView::IdentifyDecoded(Some(identify));
    let e2 = EventView::SessionStored(user);
    let all = seq![e0, e1, e2];
    assert(all.drop_last() =~= seq![e0, e1]);
    assert(seq![e0, e1].drop_last() =~= seq![e0]);
    assert(seq![e0].drop_last() =~= Seq::<EventView>::empty());
    reveal_with_fuel(run, 4);
    let r0 = run(State::PreIdentify, Seq::<EventView>::empty());
    let r1 = run(State::PreIdentify, seq![e0]);
    let r2 = run(State::PreIdentify, seq![e0, e1]);
    let r3 = run(State::PreIdentify, all);
    assert(r1.0 == State::PreIdentify);
    assert(r1.1 =~= seq![ActionView::DecodeIdentify(payload)]);
    assert(r2.0 == State::PreIdentify);
    assert(r2.1 =~= seq![
        ActionView::DecodeIdentify(payload),
        ActionView::Send(ok_text(TEXT_VERIFIED@)),
        ActionView::StoreSession(identify),
    ]);
    assert(r3.1 =~= seq![
        ActionView::DecodeIdentify(payload),
        ActionView::Send(ok_text(TEXT_VERIFIED@)),
        ActionView::StoreSession(identify),
        ActionView::Send(ok_text(TEXT_ESTABLISHED@)),
        ActionView::Send(token_text(user.uuid)),
        ActionView::Publish(join_text(identify.username)),
    ]);
}

/// A line that cannot be taken apart closes the connection, and the peer is
/// sent one frame, an `ERR` frame with the fault's text, before that.
pub proof fn malformed_line_closes(state: State, line: Seq<char>)
    requires
        state != State::Closed,
        frame_of(line) is Err,
    ensures
        react(state, EventView::Line(line)) == (
            State::Closed,
            seq![ActionView::Send(err_text(frame_of(line)->Err_0.text()))],
        ),
{
}

/// An `Identify` payload that cannot be decoded closes the connection, and
/// the peer is sent one frame, an `ERR` frame, before that.
pub proof fn undecoded_identify_closes(state: State)
    requires
        state != State::Closed,
    ensures
        react(state, EventView::IdentifyDecoded(None)) == (
            State::Closed,
            seq![ActionView::Send(err_text(ProtocolError::BadPayload.text()))],
        ),
{
}

/// A line that holds an `Identify` frame whose payload cannot be decoded
/// closes the connection: the payload is handed out to be decoded, and the
/// peer is sent one frame, an `ERR` frame, before the connection is closed.
pub proof fn undecodable_identify_frame_closes(state: State, line: Seq<char>, payload: Seq<char>)
    requires
        state != State::Closed,
        frame_of(line) == Ok::<FrameView, ProtocolError>(
            FrameView { kind: FrameKind::Identify, payload },
        ),
    ensures
        run(state, seq![EventView::Line(line), EventView::IdentifyDecoded(None)]) == (
            State::Closed,
            seq![
                ActionView::DecodeIdentify(payload),
                ActionView::Send(err_text(ProtocolError::BadPayload.text())),
            ],
        ),
{
    let e0 = EventView::Line(line);
    let e1 = EventView::IdentifyDecoded(None);
    assert(seq![e0, e1].drop_last() =~= seq![e0]);
    assert(seq![e0].drop_last() =~= Seq::<EventView>::empty());
    reveal_with_fuel(run, 3);
    let r1 = run(state, seq![e0]);
    assert(r1.0 == state);
    assert(r1.1 =~= seq![ActionView::DecodeIdentify(payload)]);
    assert(run(state, seq![e0, e1]).1 =~= seq![
        ActionView::DecodeIdentify(payload),
        ActionView::Send(err_text(ProtocolError::BadPayload.text())),
    ]);
}

/// A `Message` payload that cannot be decoded is answered with one `ERR`
/// frame, and the connection stays as it is.
pub proof fn undecoded_message_is_answered(state: State)
    requires
        state != State::Closed,
    ensures
        react(state, EventView::MessageDecoded(None)) == (
            state,
            seq![ActionView::Send(err_text(ProtocolError::BadPayload.text()))],
        ),
{
}

/// A chat message is published under the token that it names, whether or
/// not the connection has identified itself.
pub proof fn message_is_published(state: State, message: MessageView)
    requires
        state != State::Closed,
    ensures
        react(state, EventView::MessageDecoded(Some(message))) == (
            state,
            seq![ActionView::Publish(chat_text(message.uuid, message.content))],
        ),
{
}

/// The broadcast events `events` as events of a connection.
pub open spec fn broadcasts(events: Seq<Seq<char>>) -> Seq<EventView> {
    Seq::new(events.len(), |i: int| EventView::Broadcast(events[i]))
}

/// The frames that relay `events`.
pub open spec fn relays(events: Seq<Seq<char>>) -> Seq<ActionView> {
    Seq::new(events.len(), |i: int| ActionView::Send(relay_text(events[i])))
}

/// Broadcast events are relayed to the peer one frame each, all of them and
/// in the order in which the subscription yields them, in every state but
/// `Closed`; and the connection stays as it is.
pub proof fn broadcasts_are_relayed_in_order(state: State, events: Seq<Seq<char>>)
    requires
        state != State::Closed,
    ensures
        run(state, broadcasts(events)) == (state, relays(events)),
    decreases events.len(),
{
    if events.len() == 0 {
        assert(relays(events) =~= Seq::<ActionView>::empty());
    } else {
        let shorter = events.drop_last();
        broadcasts_are_relayed_in_order(state, shorter);
        assert(broadcasts(events).drop_last() =~= broadcasts(shorter));
        assert(broadcasts(events).last() == EventView::Broadcast(events.last()));
        assert(relays(events) =~= relays(shorter) + seq![
            ActionView::Send(relay_text(events.last())),
        ]);
    }
}

/// A chat message on its way: the connection that takes it in publishes one
/// event, and every connection that is handed this event sends its peer the
/// frame `UMSG::<uuid>: <content>`, the sender's own connection too.
pub proof fn chat_message_reaches_peers(sender: State, receiver: State, message: MessageView)
    requires
        sender != State::Closed,
        receiver != State::Closed,
    ensures
        react(sender, EventView::MessageDecoded(Some(message))).1 == seq![
            ActionView::Publish(chat_text(message.uuid, message.content)),
        ],
        react(receiver, EventView::Broadcast(chat_text(message.uuid, message.content))).1 == seq![
            ActionView::Send(
                server_frame(TAG_EVENT@, message.uuid + CHAT_INFIX@ + message.content),
            ),
        ],
{
}

/// A newcomer is announced: the connection whose session was stored
/// publishes one event, and every connection that is handed this event sends
/// its peer the frame `UMSG::JOIN::<username> joined just now.`
pub proof fn newcomer_is_announced(receiver: State, user: UserView)
    requires
        receiver != State::Closed,
    ensures
        react(State::PreIdentify, EventView::SessionStored(user)).1.last() == ActionView::Publish(
            join_text(user.username),
        ),
        react(receiver, EventView::Broadcast(join_text(user.username))).1 == seq![
            ActionView::Send(
                server_frame(TAG_EVENT@, JOIN_PREFIX@ + user.username + JOIN_SUFFIX@),
            ),
        ],
{
}

} // verus!
