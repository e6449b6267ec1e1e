use chrono::prelude::Utc;
use zerotrust_track::enums::Protocol;
use zerotrust_track::filters::{Filter, FiltersConfig};
use zerotrust_track::net::Ipv4;
use zerotrust_track::parser::{
    generate_hash, CloseConnection, OpenConnection, Payload, Program,
};
use zerotrust_track::uuid_rep;

const AGENT_PID: u32 = 4242;

fn tuple_hash() -> i64 {
    generate_hash(
        Protocol::TCP.name(),
        &Ipv4::new(127, 0, 0, 1),
        &22,
        &Ipv4::new(127, 0, 0, 1),
        &22,
    ) as i64
}

fn default_close_payload() -> Payload {
    Payload::Close(CloseConnection {
        hash: tuple_hash(),
        uuid: None,
        agent: uuid_rep::new_v4(),
        timestamp: Utc::now().to_rfc3339(),
        protocol: Protocol::TCP,
        source_port: 22,
        source: Ipv4::new(127, 0, 0, 1),
        destination_port: 22,
        destination: Ipv4::new(127, 0, 0, 1),
    })
}

fn default_open_payload(
    source_port: u16,
    destination_port: u16,
    program_details: Option<Program>,
) -> Payload {
    Payload::Open(OpenConnection {
        hash: tuple_hash(),
        uuid: uuid_rep::new_v4(),
        agent: uuid_rep::new_v4(),
        timestamp: Utc::now().to_rfc3339(),
        protocol: Protocol::TCP,
        source_port,
        source: Ipv4::new(127, 0, 0, 1),
        destination_port,
        destination: Ipv4::new(127, 0, 0, 1),
        username: String::from("hello"),
        uid: 10,
        program_details,
    })
}

fn default_filters() -> FiltersConfig {
    FiltersConfig {
        non_process_connections: true,
        dns_requests: true,
        self_connections: true,
    }
}

#[test]
fn test_filter_set_true() {
    let mut filter = Filter::new(
        FiltersConfig {
            non_process_connections: true,
            ..default_filters()
        },
        AGENT_PID,
    )
    .unwrap();

    let payload = default_open_payload(0, 0, None);
    assert_eq!(true, filter.apply(&payload));

    let payload = default_close_payload();
    assert_eq!(true, filter.apply(&payload));

    let payload = default_close_payload();
    assert_eq!(false, filter.apply(&payload));
}

#[test]
fn test_filter_include_non_process_connections_false() {
    let mut filter = Filter::new(
        FiltersConfig {
            non_process_connections: false,
            ..default_filters()
        },
        AGENT_PID,
    )
    .unwrap();

    let payload = default_open_payload(0, 0, None);
    assert_eq!(false, filter.apply(&payload));
}

#[test]
fn test_filter_include_non_process_connections_true() {
    let mut filter = Filter::new(
        FiltersConfig {
            non_process_connections: true,
            ..default_filters()
        },
        AGENT_PID,
    )
    .unwrap();

    let payload = default_open_payload(0, 0, None);
    assert_eq!(true, filter.apply(&payload));
}

#[test]
fn test_filter_include_dns_request_false() {
    let mut filter = Filter::new(
        FiltersConfig {
            non_process_connections: false,
            dns_requests: false,
            ..default_filters()
        },
        AGENT_PID,
    )
    .unwrap();

    let payload = default_open_payload(53, 53, None);
    assert_eq!(false, filter.apply(&payload));
}

#[test]
fn test_filter_include_dns_request_true() {
    let mut filter = Filter::new(
        FiltersConfig {
            non_process_connections: false,
            dns_requests: true,
            ..default_filters()
        },
        AGENT_PID,
    )
    .unwrap();

    let payload = default_open_payload(53, 53, None);
    assert_eq!(true, filter.apply(&payload));
}

#[test]
fn test_filter_notrust_track_connections_true() {
    let mut filter = Filter::new(
        FiltersConfig {
            self_connections: true,
            ..default_filters()
        },
        AGENT_PID,
    )
    .unwrap();

    let payload = default_open_payload(
        0,
        0,
        Some(Program {
            inode: 0,
            pid: AGENT_PID,
            process_name: String::from("I am a program"),
            command_line: Vec::new(),
        }),
    );

    assert_eq!(true, filter.apply(&payload));
}

#[test]
fn test_filter_notrust_track_connections_false() {
    let mut filter = Filter::new(
        FiltersConfig {
            self_connections: false,
            ..default_filters()
        },
        AGENT_PID,
    )
    .unwrap();

    let payload = default_open_payload(
        0,
        0,
        Some(Program {
            inode: 0,
            pid: AGENT_PID,
            process_name: String::from("I am a program"),
            command_line: Vec::new(),
        }),
    );

    assert_eq!(false, filter.apply(&payload));
}

#[test]
fn test_filter_dns_alternate_port() {
    let mut filter = Filter::new(
        FiltersConfig {
            non_process_connections: false,
            dns_requests: true,
            self_connections: false,
        },
        AGENT_PID,
    )
    .unwrap();

    let payload = default_open_payload(1000, 5353, None);
    assert_eq!(true, filter.apply(&payload));
}

#[test]
fn test_filter_dns_drop_ignores_program_presence() {
    let mut filter = Filter::new(
        FiltersConfig {
            non_process_connections: false,
            dns_requests: true,
            self_connections: false,
        },
        AGENT_PID,
    )
    .unwrap();

    let payload = default_open_payload(
        1000,
        53,
        Some(Program {
            inode: 5,
            pid: 77,
            process_name: String::from("resolver"),
            command_line: vec![String::from("resolver")],
        }),
    );
    assert_eq!(true, filter.apply(&payload));
}
