use chrono::prelude::Utc;
use zerotrust_track::enums::Protocol;
use zerotrust_track::net::Ipv4;
use zerotrust_track::parser::{
    generate_hash, CloseConnection, OpenConnection, Payload, Program,
};
use zerotrust_track::state::State;
use zerotrust_track::uuid_rep;

fn tuple_hash() -> i64 {
    generate_hash(
        Protocol::TCP.name(),
        &Ipv4::new(127, 0, 0, 1),
        &22,
        &Ipv4::new(127, 0, 0, 1),
        &22,
    ) as i64
}

fn default_close_payload() -> Payload {
    Payload::Close(CloseConnection {
        hash: tuple_hash(),
        uuid: None,
        agent: uuid_rep::new_v4(),
        timestamp: Utc::now().to_rfc3339(),
        protocol: Protocol::TCP,
        source_port: 22,
        source: Ipv4::new(127, 0, 0, 1),
        destination_port: 22,
        destination: Ipv4::new(127, 0, 0, 1),
    })
}

fn default_open_payload(
    source_port: u16,
    destination_port: u16,
    program_details: Option<Program>,
) -> Payload {
    Payload::Open(OpenConnection {
        hash: tuple_hash(),
        uuid: uuid_rep::new_v4(),
        agent: uuid_rep::new_v4(),
        timestamp: Utc::now().to_rfc3339(),
        protocol: Protocol::TCP,
        source_port,
        source: Ipv4::new(127, 0, 0, 1),
        destination_port,
        destination: Ipv4::new(127, 0, 0, 1),
        username: String::from("hello"),
        uid: 10,
        program_details,
    })
}

#[test]
fn test_no_state() {
    let mut state = State::new().unwrap();
    let close_payload = default_close_payload();
    if let Payload::Close(ref close_connection) = close_payload {
        assert_eq!(true, close_connection.uuid.is_none());
    } else {
        assert_eq!(true, false);
    }

    let close_payload = state.transform(close_payload);

    if let Payload::Close(ref close_connection) = close_payload {
        assert_eq!(true, close_connection.uuid.is_none());
    } else {
        assert_eq!(true, false);
    }
}

#[test]
fn test_added_state() {
    let mut state = State::new().unwrap();
    let open_payload = default_open_payload(22, 22, None);
    let close_payload = default_close_payload();
    if let Payload::Close(ref close_connection) = close_payload {
        assert_eq!(true, close_connection.uuid.is_none());
    } else {
        assert_eq!(true, false);
    }

    let open_payload = state.transform(open_payload);
    let close_payload = state.transform(close_payload);

    if let Payload::Close(close_connection) = close_payload {
        if let Payload::Open(open_connection) = open_payload {
            assert_eq!(false, close_connection.uuid.is_none());
            assert_eq!(open_connection.uuid, close_connection.uuid.unwrap());
        } else {
            assert_eq!(true, false);
        }
    } else {
        assert_eq!(true, false);
    }
}

#[test]
fn test_close_consumes_correlation() {
    let mut state = State::new().unwrap();
    let open_payload = default_open_payload(22, 22, None);
    let _ = state.transform(open_payload);

    let first = state.transform(default_close_payload());
    if let Payload::Close(c) = first {
        assert!(c.uuid.is_some());
    } else {
        panic!("expected a close record");
    }

    let second = state.transform(default_close_payload());
    if let Payload::Close(c) = second {
        assert!(c.uuid.is_none());
    } else {
        panic!("expected a close record");
    }
}
