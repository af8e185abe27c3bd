use rustirc::hex::from_hex;
use rustirc::store::{
    create_session, generate_session_key, session_file, Message, User, SESSION_FOLDER_PATH,
};

fn is_token(key: &str) -> bool {
    let bytes = key.as_bytes();
    bytes.len() == 36
        && bytes.iter().enumerate().all(|(i, b)| match i {
            8 | 13 | 18 | 23 => *b == b'-',
            _ => b.is_ascii_digit() || (b'a'..=b'f').contains(b),
        })
        && bytes[14] == b'4'
        && matches!(bytes[19], b'8' | b'9' | b'a' | b'b')
}

#[test]
fn session_key_has_the_form_of_a_token() {
    for _ in 0..64 {
        let key = generate_session_key();
        assert!(is_token(&key), "{}", key);
    }
}

#[test]
fn session_keys_differ() {
    let first = generate_session_key();
    let second = generate_session_key();
    assert_ne!(first, second);
}

#[test]
fn user_new_keeps_the_address_as_hex() {
    let name = String::from("alice");
    let pem = String::from("x");
    let addr = String::from("127.0.0.1:4242");
    let token = String::from("tok");
    let user = User::new((&name, &pem, &addr), &token, false);
    assert_eq!(user.username, "alice");
    assert_eq!(user.pem, "x");
    assert_eq!(user.uuid, "tok");
    assert_eq!(user.addr, "3132372e302e302e313a34323432");
    assert_eq!(from_hex(&user.addr), Ok(addr));
    assert!(!user.banned);
    let banned = User::new((&name, &pem, &name), &token, true);
    assert!(banned.banned);
}

#[test]
fn message_new_copies_its_parts() {
    let message = Message::new("tok", "hello there");
    assert_eq!(message.uuid, "tok");
    assert_eq!(message.content, "hello there");
}

#[test]
fn create_session_makes_a_fresh_record() {
    let name = String::from("bob");
    let pem = String::from("pem text");
    let addr = String::from("10.1.2.3:80");
    let first = create_session((&name, &pem, &addr));
    let second = create_session((&name, &pem, &addr));
    assert_eq!(first.username, "bob");
    assert_eq!(first.pem, "pem text");
    assert_eq!(from_hex(&first.addr), Ok(addr));
    assert!(!first.banned);
    assert!(is_token(&first.uuid));
    assert!(!first.uuid.is_empty());
    assert_ne!(first.uuid, second.uuid);
}

#[test]
fn session_file_is_named_by_the_token() {
    let name = String::from("bob");
    let user = User::new((&name, &name, &name), &String::from("abc-def"), false);
    let file = session_file(&user, "{}");
    assert_eq!(file.path, "sessions/abc-def.dat");
    assert_eq!(file.contents, "7b7d");
    assert_eq!(SESSION_FOLDER_PATH, "sessions");
}

#[test]
fn session_file_round_trip() {
    let name = String::from("alice");
    let pem = String::from("-----BEGIN-----");
    let addr = String::from("192.168.0.7:5123");
    let user = create_session((&name, &pem, &addr));

    let mut record = serde_json::Map::new();
    record.insert(
        String::from("username"),
        serde_json::Value::String(user.username.clone()),
    );
    record.insert(
        String::from("pem"),
        serde_json::Value::String(user.pem.clone()),
    );
    record.insert(
        String::from("uuid"),
        serde_json::Value::String(user.uuid.clone()),
    );
    record.insert(
        String::from("addr"),
        serde_json::Value::String(user.addr.clone()),
    );
    record.insert(String::from("banned"), serde_json::Value::Bool(user.banned));
    let json = serde_json::Value::Object(record).to_string();

    let file = session_file(&user, &json);
    assert_eq!(file.path, format!("sessions/{}.dat", user.uuid));

    let text = from_hex(&file.contents).unwrap();
    assert_eq!(text, json);
    let read: serde_json::Value = serde_json::from_str(&text).unwrap();
    assert_eq!(read["username"].as_str(), Some("alice"));
    assert_eq!(read["pem"].as_str(), Some("-----BEGIN-----"));
    assert_eq!(read["uuid"].as_str(), Some(user.uuid.as_str()));
    assert!(!read["uuid"].as_str().unwrap().is_empty());
    assert_eq!(read["banned"].as_bool(), Some(false));
    assert_eq!(
        from_hex(read["addr"].as_str().unwrap()),
        Ok(String::from("192.168.0.7:5123"))
    );
}
