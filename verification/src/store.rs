//! Session records: what is kept of a peer that has identified itself, and
//! the file that holds it.
//!
//! A record is made once for each successful handshake. Its file is named by
//! the session token and holds the record's JSON text as hexadecimal text.
//! The library builds the record, the file's name and its contents; turning
//! the record into JSON and writing the file are the program's part.

use vstd::prelude::*;
use vstd::string::*;
use crate::hex::{hex_decoding, hex_encoding, hex_round_trip, is_hex_text, to_hex};

verus! {

/// The directory of the session files.
pub const SESSION_FOLDER_PATH: &'static str = "sessions";

/// What stands between the directory and the name of a session file.
pub const PATH_SEPARATOR: &'static str = "/";

/// How the name of a session file ends.
pub const FILE_SUFFIX: &'static str = ".dat";

/// What a peer sends to identify itself.
#[derive(Debug)]
pub struct Identify {
    pub username: String,
    pub pem: String,
}

/// An `Identify` as plain text.
pub struct IdentifyView {
    pub username: Seq<char>,
    pub pem: Seq<char>,
}

impl View for Identify {
    type V = IdentifyView;

    open spec fn view(&self) -> IdentifyView {
        IdentifyView { username: self.username@, pem: self.pem@ }
    }
}

/// A chat message as a peer sends it: the sender's session token and a text.
#[derive(Debug)]
pub struct Message {
    pub uuid: String,
    pub content: String,
}

/// A `Message` as plain text.
pub struct MessageView {
    pub uuid: Seq<char>,
    pub content: Seq<char>,
}

impl View for Message {
    type V = MessageView;

    open spec fn view(&self) -> MessageView {
        MessageView { uuid: self.uuid@, content: self.content@ }
    }
}

impl Message {
    /// The chat message `content` under the token `uuid`.
    pub fn new(uuid: &str, content: &str) -> (message: Message)
        ensures
            message@ == (MessageView { uuid: uuid@, content: content@ }),
    {
        Message { uuid: String::from_str(uuid), content: String::from_str(content) }
    }
}

/// The record of a session. `addr` is the peer's address as hexadecimal
/// text. `banned` is kept with the record and nothing reads it.
#[derive(Debug)]
pub struct User {
    pub username: String,
    pub pem: String,
    pub uuid: String,
    pub addr: String,
    pub banned: bool,
}

/// A `User` as plain text.
pub struct UserView {
    pub username: Seq<char>,
    pub pem: Seq<char>,
    pub uuid: Seq<char>,
    pub addr: Seq<char>,
    pub banned: bool,
}

impl View for User {
    type V = UserView;

    open spec fn view(&self) -> UserView {
        UserView {
            username: self.username@,
            pem: self.pem@,
            uuid: self.uuid@,
            addr: self.addr@,
            banned: self.banned,
        }
    }
}

impl User {
    /// The record for the peer `u`, given as user name, PEM and address,
    /// under the session token `uuid`.
    pub fn new(u: (&String, &String, &String), uuid: &String, banned: bool) -> (user: User)
        ensures
            user@ == (UserView {
                username: u.0@,
                pem: u.1@,
                uuid: uuid@,
                addr: hex_encoding(u.2@),
                banned,
            }),
    {
        let mut addr = String::new();
        to_hex(u.2.as_str(), &mut addr);
        assert(addr@ == hex_encoding(u.2@)) by {
            assert(Seq::<char>::empty() + hex_encoding(u.2@) =~= hex_encoding(u.2@));
        }
        User { username: u.0.clone(), pem: u.1.clone(), uuid: uuid.clone(), addr, banned }
    }
}

/// Whether `c` is a lower-case hexadecimal digit.
pub open spec fn is_lower_hex(c: char) -> bool {
    '0' <= c <= '9' || 'a' <= c <= 'f'
}

/// The form of a session token: 36 characters, which are lower-case
/// hexadecimal digits but for a hyphen at each of the indices 8, 13, 18 and
/// 23, with the version digit `4` at index 14 and one of `8`, `9`, `a`, `b`
/// at index 19.
pub open spec fn is_session_key(key: Seq<char>) -> bool {
    &&& key.len() == 36
    &&& forall|i: int|
        0 <= i < 36 ==> if i == 8 || i == 13 || i == 18 || i == 23 {
            #[trigger] key[i] == '-'
        } else {
            is_lower_hex(key[i])
        }
    &&& key[14] == '4'
    &&& (key[19] == '8' || key[19] == '9' || key[19] == 'a' || key[19] == 'b')
}

/// A fresh session token. The body calls `Uuid::new_v4` of the crate `uuid`
/// and writes the result with its `Display`.
///
/// Trusted, as that crate's source shows it: `new_v4` draws 128 random bits
/// and sets the version to 4 and the variant to RFC 4122, and `Display`
/// writes the hyphenated lower-case form. Nothing is claimed of the random
/// digits, so two calls may or may not differ, as far as this contract goes.
/// `new_v4` panics where the operating system hands out no random bytes.
#[verifier::external_body]
pub fn generate_session_key() -> (key: String)
    ensures
        is_session_key(key@),
{
    uuid::Uuid::new_v4().to_string()
}

/// Makes the record of a new session for the peer `u`, given as user name,
/// PEM and address, under a fresh token. The address is kept as hexadecimal
/// text, and the record is not banned.
pub fn create_session(u: (&String, &String, &String)) -> (user: User)
    ensures
        user.username@ == u.0@,
        user.pem@ == u.1@,
        user.addr@ == hex_encoding(u.2@),
        !user.banned,
        is_session_key(user.uuid@),
{
    let uuid = generate_session_key();
    User::new(u, &uuid, false)
}

/// A session file: where it goes and what it holds.
#[derive(Debug)]
pub struct SessionFile {
    pub path: String,
    pub contents: String,
}

/// The path of the file of the session `uuid`: `sessions/<uuid>.dat`.
pub open spec fn session_path(uuid: Seq<char>) -> Seq<char> {
    SESSION_FOLDER_PATH@ + PATH_SEPARATOR@ + uuid + FILE_SUFFIX@
}

/// The file for the record `user`, whose JSON text is `json`.
pub fn session_file(user: &User, json: &str) -> (file: SessionFile)
    ensures
        file.path@ == session_path(user.uuid@),
        file.contents@ == hex_encoding(json@),
{
    let mut path = String::from_str(SESSION_FOLDER_PATH);
    path.append(PATH_SEPARATOR);
    path.append(user.uuid.as_str());
    path.append(FILE_SUFFIX);
    let mut contents = String::new();
    to_hex(json, &mut contents);
    assert(contents@ == hex_encoding(json@)) by {
        assert(Seq::<char>::empty() + hex_encoding(json@) =~= hex_encoding(json@));
    }
    SessionFile { path, contents }
}

/// What a session file holds can be decoded, and gives back the JSON text
/// that it was written for, where that text has no character above code
/// point 255.
pub proof fn session_file_round_trip(json: Seq<char>)
    requires
        forall|i: int| 0 <= i < json.len() ==> ((#[trigger] json[i]) as int) < 256,
    ensures
        is_hex_text(hex_encoding(json)),
        hex_decoding(hex_encoding(json)) == json,
{
    hex_round_trip(json);
}

} // verus!
