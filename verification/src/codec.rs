//! The wire format. Every frame is one line that ends in CR LF and has the
//! form `<header>::<body>`.
//!
//! A client's header is the marker `FN<>`: the name `FN` and the wrapper `<>`
//! behind it. The first word of the body is the identifier, `Identify` or
//! `Message`, and what follows it, trimmed, is the payload: a JSON text that
//! this module hands on as it is. Identifiers are ASCII.
//!
//! A server's header is one of the tags `MSG`, `OK`, `ERR`, `UUID`, `UMSG`.

use vstd::prelude::*;
use vstd::string::*;
use crate::text::{
    after_first_word, chars_of, find, find_space, find_word, first_occurrence, first_word,
    is_space, lemma_skip_spaces_stops, lemma_skip_word_stops, lemma_trimmed_ignores_spaces_around,
    lemma_trimmed_is_trimmed, occurs_at, same_text, string_of_range, sub_vec, trim, trimmed,
};

verus! {

/// What stands between a frame's header and its body.
pub const SEPARATOR: &'static str = "::";

/// The name of the marker of a client's frame.
pub const MARKER_NAME: &'static str = "FN";

/// What stands behind the marker's name.
pub const MARKER_WRAPPER: &'static str = "<>";

/// The identifier of the frame by which a peer identifies itself.
pub const IDENTIFY: &'static str = "Identify";

/// The identifier of the frame that carries a chat message.
pub const MESSAGE: &'static str = "Message";

/// The end of every frame.
pub const LINE_END: &'static str = "\r\n";

/// What a client's frame asks for.
#[derive(Clone, Copy, Debug, PartialEq, Eq, Structural)]
pub enum FrameKind {
    Identify,
    Message,
}

/// A client's frame, taken apart: its identifier and its payload.
#[derive(Debug)]
pub struct Frame {
    pub kind: FrameKind,
    pub payload: String,
}

/// A frame as plain text.
pub struct FrameView {
    pub kind: FrameKind,
    pub payload: Seq<char>,
}

impl View for Frame {
    type V = FrameView;

    open spec fn view(&self) -> FrameView {
        FrameView { kind: self.kind, payload: self.payload@ }
    }
}

/// Why a line, or what it carries, is refused.
#[derive(Clone, Copy, Debug, PartialEq, Eq, Structural)]
pub enum ProtocolError {
    /// The line holds no `::`.
    MissingSeparator,
    /// The header holds no `<>`.
    MissingMarker,
    /// The header's name, before `<>`, is not `FN`.
    UnsupportedMarker,
    /// The body's first word is neither `Identify` nor `Message`.
    UnknownIdentifier,
    /// The payload is not the JSON object that its identifier asks for.
    BadPayload,
}

/// The text for a line without `::` and for a marker that is not `FN`.
pub const TEXT_BROKEN_ACK: &'static str = "Your ACK is not supported or broken.";

/// The text for a header without `<>`.
pub const TEXT_NO_IDENTIFIER: &'static str = "The message doesn't contain an identifier.";

/// The text for an identifier that is neither `Identify` nor `Message`.
pub const TEXT_UNKNOWN_IDENTIFIER: &'static str = "Your identifier is not supported.";

/// The text for a payload that cannot be decoded.
pub const TEXT_BROKEN_DATA: &'static str = "The data is broken or unsupported.";

impl ProtocolError {
    /// What the peer is told of this error, behind `ERR::`.
    pub open spec fn text(self) -> Seq<char> {
        match self {
            ProtocolError::MissingSeparator => TEXT_BROKEN_ACK@,
            ProtocolError::MissingMarker => TEXT_NO_IDENTIFIER@,
            ProtocolError::UnsupportedMarker => TEXT_BROKEN_ACK@,
            ProtocolError::UnknownIdentifier => TEXT_UNKNOWN_IDENTIFIER@,
            ProtocolError::BadPayload => TEXT_BROKEN_DATA@,
        }
    }

    /// The text of this error.
    pub fn message(self) -> (m: &'static str)
        ensures
            m@ == self.text(),
    {
        match self {
            ProtocolError::MissingSeparator => TEXT_BROKEN_ACK,
            ProtocolError::MissingMarker => TEXT_NO_IDENTIFIER,
            ProtocolError::UnsupportedMarker => TEXT_BROKEN_ACK,
            ProtocolError::UnknownIdentifier => TEXT_UNKNOWN_IDENTIFIER,
            ProtocolError::BadPayload => TEXT_BROKEN_DATA,
        }
    }
}

/// What the body of a frame holds.
pub open spec fn body_frame(body: Seq<char>) -> Result<FrameView, ProtocolError> {
    let identifier = first_word(body);
    let payload = trimmed(after_first_word(body));
    if identifier == IDENTIFY@ {
        Ok(FrameView { kind: FrameKind::Identify, payload })
    } else if identifier == MESSAGE@ {
        Ok(FrameView { kind: FrameKind::Message, payload })
    } else {
        Err(ProtocolError::UnknownIdentifier)
    }
}

/// What a client's line holds. The line is cut at its first `::`, the header
/// at its first `<>`.
pub open spec fn frame_of(line: Seq<char>) -> Result<FrameView, ProtocolError> {
    match first_occurrence(line, SEPARATOR@, 0) {
        None => Err(ProtocolError::MissingSeparator),
        Some(cut) => {
            let header = line.take(cut);
            let body = line.skip(cut + SEPARATOR@.len());
            match first_occurrence(header, MARKER_WRAPPER@, 0) {
                None => Err(ProtocolError::MissingMarker),
                Some(end) => if header.take(end) == MARKER_NAME@ {
                    body_frame(body)
                } else {
                    Err(ProtocolError::UnsupportedMarker)
                },
            }
        },
    }
}

/// Takes the body of a frame apart.
fn decode_body(body: &Vec<char>) -> (r: Result<Frame, ProtocolError>)
    ensures
        match r {
            Ok(frame) => body_frame(body@) == Ok::<FrameView, ProtocolError>(frame@),
            Err(e) => body_frame(body@) == Err::<FrameView, ProtocolError>(e),
        },
{
    let start = find_word(body, 0);
    let end = find_space(body, start);
    let identifier = sub_vec(body, start, end);
    let kind = if same_text(&identifier, IDENTIFY) {
        FrameKind::Identify
    } else if same_text(&identifier, MESSAGE) {
        FrameKind::Message
    } else {
        return Err(ProtocolError::UnknownIdentifier);
    };
    let rest = sub_vec(body, end, body.len());
    let payload = trim(&rest);
    assert(rest@ == after_first_word(body@));
    assert(payload@.subrange(0, payload@.len() as int) == payload@);
    Ok(Frame { kind, payload: string_of_range(&payload, 0, payload.len()) })
}

/// Takes a client's line apart.
pub fn decode_frame(line: &str) -> (r: Result<Frame, ProtocolError>)
    ensures
        match r {
            Ok(frame) => frame_of(line@) == Ok::<FrameView, ProtocolError>(frame@),
            Err(e) => frame_of(line@) == Err::<FrameView, ProtocolError>(e),
        },
{
    let chars = chars_of(line);
    let separator = chars_of(SEPARATOR);
    let wrapper = chars_of(MARKER_WRAPPER);
    match find(&chars, &separator, 0) {
        None => Err(ProtocolError::MissingSeparator),
        Some(cut) => {
            let length = chars.len();
            let header = sub_vec(&chars, 0, cut);
            let body = sub_vec(&chars, cut + separator.len(), length);
            match find(&header, &wrapper, 0) {
                None => Err(ProtocolError::MissingMarker),
                Some(end) => {
                    let name = sub_vec(&header, 0, end);
                    if same_text(&name, MARKER_NAME) {
                        decode_body(&body)
                    } else {
                        Err(ProtocolError::UnsupportedMarker)
                    }
                },
            }
        },
    }
}

/// The tag of the greeting.
pub const TAG_GREETING: &'static str = "MSG";

/// The tag of an acknowledgement.
pub const TAG_OK: &'static str = "OK";

/// The tag of a fault.
pub const TAG_ERROR: &'static str = "ERR";

/// The tag of the frame that carries a session token.
pub const TAG_TOKEN: &'static str = "UUID";

/// The tag of a relayed broadcast event.
pub const TAG_EVENT: &'static str = "UMSG";

/// What a peer is greeted with: two lines, the second an example of the
/// `Identify` frame.
pub const TEXT_GREETING: &'static str =
    "Hello, stranger! You have a message from the server you tried to connect to. Please identify yourself and send your message with the protocol start flag 'FN' in order to receive your handshake ID.\r\nExample: FN<>::Identify {\"username\":\"Provide your username\",\"pem\":\"Provide the PEM for use in the handshake\"}";

/// The first acknowledgement of a handshake: the request was read.
pub const TEXT_VERIFIED: &'static str =
    "Connection verified. Your session is being prepared. Please wait for an ACK response before sending any messages.";

/// The second acknowledgement of a handshake: the session is there.
pub const TEXT_ESTABLISHED: &'static str =
    "Connection Established. Your user profile has been created and you are now ready for chat! Use your user id to send a message.";

/// What a peer is told when its session could not be stored.
pub const TEXT_SESSION_FAILED: &'static str =
    "The session creation process fails. The link will be terminated.";

/// How the event for a newcomer starts.
pub const JOIN_PREFIX: &'static str = "JOIN::";

/// How the event for a newcomer ends.
pub const JOIN_SUFFIX: &'static str = " joined just now.";

/// What stands between the token and the text of a chat event.
pub const CHAT_INFIX: &'static str = ": ";

/// What stands between the identifier and the payload of a client's frame.
pub const SPACE: &'static str = " ";

/// A server's frame: the tag, `::`, the text, CR LF.
pub open spec fn server_frame(tag: Seq<char>, text: Seq<char>) -> Seq<char> {
    tag + SEPARATOR@ + text + LINE_END@
}

/// The frame that acknowledges with `text`.
pub open spec fn ok_text(text: Seq<char>) -> Seq<char> {
    server_frame(TAG_OK@, text)
}

/// The frame that reports the fault `text`.
pub open spec fn err_text(text: Seq<char>) -> Seq<char> {
    server_frame(TAG_ERROR@, text)
}

/// The frame that hands the session token `token` to its owner.
pub open spec fn token_text(token: Seq<char>) -> Seq<char> {
    server_frame(TAG_TOKEN@, token)
}

/// The frame that relays the broadcast event `event`.
pub open spec fn relay_text(event: Seq<char>) -> Seq<char> {
    server_frame(TAG_EVENT@, event)
}

/// The frame that greets a peer.
pub open spec fn greeting_text() -> Seq<char> {
    server_frame(TAG_GREETING@, TEXT_GREETING@)
}

/// The broadcast event for a chat message: `<uuid>: <content>`.
pub open spec fn chat_text(uuid: Seq<char>, content: Seq<char>) -> Seq<char> {
    uuid + CHAT_INFIX@ + content
}

/// The broadcast event for a newcomer: `JOIN::<username> joined just now.`
pub open spec fn join_text(username: Seq<char>) -> Seq<char> {
    JOIN_PREFIX@ + username + JOIN_SUFFIX@
}

/// A client's frame: the marker, `::`, the identifier, a space, the payload,
/// CR LF.
pub open spec fn client_frame(identifier: Seq<char>, payload: Seq<char>) -> Seq<char> {
    MARKER_NAME@ + MARKER_WRAPPER@ + SEPARATOR@ + identifier + SPACE@ + payload + LINE_END@
}

fn build_server_frame(tag: &str, text: &str) -> (frame: String)
    ensures
        frame@ == server_frame(tag@, text@),
{
    let mut frame = String::from_str(tag);
    frame.append(SEPARATOR);
    frame.append(text);
    frame.append(LINE_END);
    frame
}

fn build_client_frame(identifier: &str, payload: &str) -> (frame: String)
    ensures
        frame@ == client_frame(identifier@, payload@),
{
    let mut frame = String::from_str(MARKER_NAME);
    frame.append(MARKER_WRAPPER);
    frame.append(SEPARATOR);
    frame.append(identifier);
    frame.append(SPACE);
    frame.append(payload);
    frame.append(LINE_END);
    frame
}

/// The frame that acknowledges with `text`.
pub fn ok_frame(text: &str) -> (frame: String)
    ensures
        frame@ == ok_text(text@),
{
    build_server_frame(TAG_OK, text)
}

/// The frame that reports the fault `text`.
pub fn err_frame(text: &str) -> (frame: String)
    ensures
        frame@ == err_text(text@),
{
    build_server_frame(TAG_ERROR, text)
}

/// The frame that hands the session token `token` to its owner.
pub fn token_frame(token: &str) -> (frame: String)
    ensures
        frame@ == token_text(token@),
{
    build_server_frame(TAG_TOKEN, token)
}

/// The frame that relays the broadcast event `event`.
pub fn relay_frame(event: &str) -> (frame: String)
    ensures
        frame@ == relay_text(event@),
{
    build_server_frame(TAG_EVENT, event)
}

/// The frame that greets a peer.
pub fn greeting_frame() -> (frame: String)
    ensures
        frame@ == greeting_text(),
{
    build_server_frame(TAG_GREETING, TEXT_GREETING)
}

/// The broadcast event for the chat message `content` under the token `uuid`.
pub fn chat_event(uuid: &str, content: &str) -> (event: String)
    ensures
        event@ == chat_text(uuid@, content@),
{
    let mut event = String::from_str(uuid);
    event.append(CHAT_INFIX);
    event.append(content);
    event
}

/// The broadcast event for the newcomer `username`.
pub fn join_event(username: &str) -> (event: String)
    ensures
        event@ == join_text(username@),
{
    let mut event = String::from_str(JOIN_PREFIX);
    event.append(username);
    event.append(JOIN_SUFFIX);
    event
}

/// The frame by which a client identifies itself with the JSON text `json`.
pub fn identify_frame(json: &str) -> (frame: String)
    ensures
        frame@ == client_frame(IDENTIFY@, json@),
{
    build_client_frame(IDENTIFY, json)
}

/// The frame by which a client sends the chat message of the JSON text
/// `json`.
pub fn message_frame(json: &str) -> (frame: String)
    ensures
        frame@ == client_frame(MESSAGE@, json@),
{
    build_client_frame(MESSAGE, json)
}

/// The identifier that stands for `kind`.
pub open spec fn identifier_text(kind: FrameKind) -> Seq<char> {
    match kind {
        FrameKind::Identify => IDENTIFY@,
        FrameKind::Message => MESSAGE@,
    }
}

/// What `identify_frame` and `message_frame` write, `decode_frame` reads
/// back: the same kind of frame, with the payload trimmed.
pub proof fn client_frame_is_read_back(kind: FrameKind, payload: Seq<char>)
    ensures
        frame_of(client_frame(identifier_text(kind), payload)) == Ok::<FrameView, ProtocolError>(
            FrameView { kind, payload: trimmed(payload) },
        ),
{
    reveal_strlit("FN");
    reveal_strlit("<>");
    reveal_strlit("::");
    reveal_strlit("Identify");
    reveal_strlit("Message");
    reveal_strlit(" ");
    reveal_strlit("\r\n");
    let identifier = identifier_text(kind);
    let line = client_frame(identifier, payload);
    let header = line.take(4);
    let body = line.skip(6);
    assert(line[0] == 'F' && line[1] == 'N' && line[2] == '<' && line[3] == '>' && line[4] == ':'
        && line[5] == ':');

    assert(first_occurrence(line, SEPARATOR@, 0) == Some(4int)) by {
        reveal_with_fuel(first_occurrence, 6);
        assert(!occurs_at(line, SEPARATOR@, 0)) by {
            assert(line.subrange(0, 2)[0] == 'F');
        }
        assert(!occurs_at(line, SEPARATOR@, 1)) by {
            assert(line.subrange(1, 3)[0] == 'N');
        }
        assert(!occurs_at(line, SEPARATOR@, 2)) by {
            assert(line.subrange(2, 4)[0] == '<');
        }
        assert(!occurs_at(line, SEPARATOR@, 3)) by {
            assert(line.subrange(3, 5)[0] == '>');
        }
        assert(line.subrange(4, 6) =~= SEPARATOR@);
    }
    assert(first_occurrence(header, MARKER_WRAPPER@, 0) == Some(2int)) by {
        reveal_with_fuel(first_occurrence, 4);
        assert(!occurs_at(header, MARKER_WRAPPER@, 0)) by {
            assert(header.subrange(0, 2)[0] == 'F');
        }
        assert(!occurs_at(header, MARKER_WRAPPER@, 1)) by {
            assert(header.subrange(1, 3)[0] == 'N');
        }
        assert(header.subrange(2, 4) =~= MARKER_WRAPPER@);
    }
    assert(header.take(2) =~= MARKER_NAME@);

    let rest = SPACE@ + payload + LINE_END@;
    assert(body =~= identifier + rest);
    assert(forall|i: int| 0 <= i < identifier.len() ==> !is_space(#[trigger] identifier[i]));
    assert(forall|i: int| 0 <= i < identifier.len() ==> body[i] == identifier[i]);
    assert(body[identifier.len() as int] == ' ');
    lemma_skip_spaces_stops(body, 0, 0);
    lemma_skip_word_stops(body, 0, identifier.len() as int);
    assert(first_word(body) =~= identifier);
    assert(after_first_word(body) =~= rest);
    lemma_trimmed_ignores_spaces_around(SPACE@, payload, LINE_END@);
    assert(IDENTIFY@ != MESSAGE@) by {
        assert(IDENTIFY@[0] == 'I');
        assert(MESSAGE@[0] == 'M');
    }
}

/// The payload of a frame is trimmed: it neither starts nor ends with white
/// space, the line's CR LF included.
pub proof fn payload_is_trimmed(line: Seq<char>)
    requires
        frame_of(line) is Ok,
    ensures
        trimmed(frame_of(line)->Ok_0.payload) == frame_of(line)->Ok_0.payload,
        frame_of(line)->Ok_0.payload.len() > 0 ==> !is_space(frame_of(line)->Ok_0.payload.first())
            && !is_space(frame_of(line)->Ok_0.payload.last()),
{
    let cut = first_occurrence(line, SEPARATOR@, 0)->Some_0;
    let body = line.skip(cut + SEPARATOR@.len());
    lemma_trimmed_is_trimmed(after_first_word(body));
}

} // verus!
