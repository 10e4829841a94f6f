use boop_client::codec::{decode, encode, error_text, valid_argument, ProtocolErrorKind, ServerMessage};

fn roundtrip(msg: ServerMessage) {
    let line = encode(&msg);
    assert!(line.ends_with('\n'));
    let back = decode(line.as_str());
    assert_eq!(back, Ok(msg));
}

#[test]
fn roundtrip_connect() {
    roundtrip(ServerMessage::Connect {
        user: String::from("alice"),
        password: String::from("secret"),
    });
}

#[test]
fn roundtrip_no_argument_commands() {
    roundtrip(ServerMessage::Hey);
    roundtrip(ServerMessage::No);
    roundtrip(ServerMessage::Ping);
    roundtrip(ServerMessage::Pong);
    roundtrip(ServerMessage::Bye);
    roundtrip(ServerMessage::Disconnect);
}

#[test]
fn roundtrip_partner_commands() {
    roundtrip(ServerMessage::Boop { partner_key: String::from("bob") });
    roundtrip(ServerMessage::Online { partner_key: String::from("carol") });
    roundtrip(ServerMessage::Afk { partner_key: String::from("dave") });
    roundtrip(ServerMessage::AreYouThere { partner_key: String::from("erin") });
}

#[test]
fn roundtrip_error_kinds() {
    roundtrip(ServerMessage::Error { kind: ProtocolErrorKind::ProtocolMismatch });
    roundtrip(ServerMessage::Error { kind: ProtocolErrorKind::MalformedMessage });
    roundtrip(ServerMessage::Error { kind: ProtocolErrorKind::ApplicationError });
}

#[test]
fn roundtrip_empty_argument() {
    roundtrip(ServerMessage::Boop { partner_key: String::new() });
}

#[test]
fn encode_exact_lines() {
    assert_eq!(encode(&ServerMessage::Ping), "PING\n");
    assert_eq!(encode(&ServerMessage::Hey), "HEY\n");
    assert_eq!(
        encode(&ServerMessage::Connect {
            user: String::from("alice"),
            password: String::from("secret"),
        }),
        "CONNECT alice secret\n"
    );
    assert_eq!(
        encode(&ServerMessage::Boop { partner_key: String::from("bob") }),
        "BOOP bob\n"
    );
    assert_eq!(
        encode(&ServerMessage::Error { kind: ProtocolErrorKind::ProtocolMismatch }),
        "ERROR MISMATCH\n"
    );
}

#[test]
fn decode_tolerates_missing_newline() {
    assert_eq!(decode("PONG"), Ok(ServerMessage::Pong));
    assert_eq!(decode("PONG\n"), Ok(ServerMessage::Pong));
}

#[test]
fn decode_unknown_keyword_is_malformed() {
    assert_eq!(decode("HELLO\n"), Err(ProtocolErrorKind::MalformedMessage));
    assert_eq!(decode("ping\n"), Err(ProtocolErrorKind::MalformedMessage));
    assert_eq!(decode("\n"), Err(ProtocolErrorKind::MalformedMessage));
    assert_eq!(decode(""), Err(ProtocolErrorKind::MalformedMessage));
}

#[test]
fn decode_wrong_arity_is_malformed() {
    assert_eq!(decode("PING extra\n"), Err(ProtocolErrorKind::MalformedMessage));
    assert_eq!(decode("BOOP\n"), Err(ProtocolErrorKind::MalformedMessage));
    assert_eq!(decode("BOOP a b\n"), Err(ProtocolErrorKind::MalformedMessage));
    assert_eq!(decode("CONNECT alice\n"), Err(ProtocolErrorKind::MalformedMessage));
    assert_eq!(decode("CONNECT alice secret extra\n"), Err(ProtocolErrorKind::MalformedMessage));
    assert_eq!(decode("HEY you\n"), Err(ProtocolErrorKind::MalformedMessage));
}

#[test]
fn decode_unknown_error_kind_is_malformed() {
    assert_eq!(decode("ERROR WHATEVER\n"), Err(ProtocolErrorKind::MalformedMessage));
    assert_eq!(decode("ERROR\n"), Err(ProtocolErrorKind::MalformedMessage));
}

#[test]
fn decode_error_lines() {
    assert_eq!(
        decode("ERROR MALFORMED\n"),
        Ok(ServerMessage::Error { kind: ProtocolErrorKind::MalformedMessage })
    );
    assert_eq!(
        decode("ERROR APPLICATION\n"),
        Ok(ServerMessage::Error { kind: ProtocolErrorKind::ApplicationError })
    );
}

#[test]
fn roundtrip_non_ascii_argument() {
    roundtrip(ServerMessage::Boop { partner_key: String::from("bärbel") });
    roundtrip(ServerMessage::Connect {
        user: String::from("ユーザー"),
        password: String::from("пароль"),
    });
}

#[test]
fn valid_argument_refuses_separators() {
    assert!(valid_argument("bob"));
    assert!(valid_argument(""));
    assert!(valid_argument("bärbel"));
    assert!(!valid_argument("bad key"));
    assert!(!valid_argument("bad\nkey"));
    assert!(!valid_argument(" "));
}

#[test]
fn error_text_is_descriptive() {
    assert_eq!(
        error_text(ProtocolErrorKind::ProtocolMismatch),
        "unexpected message for the current protocol phase"
    );
    assert_eq!(
        error_text(ProtocolErrorKind::MalformedMessage),
        "received a message that does not follow the protocol"
    );
    assert_eq!(
        error_text(ProtocolErrorKind::ApplicationError),
        "the server reported an application error"
    );
}
