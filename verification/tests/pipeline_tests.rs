use zerotrust_track::enums::Protocol;
use zerotrust_track::filters::FiltersConfig;
use zerotrust_track::json::{render_close, render_open};
use zerotrust_track::net::Ipv4;
use zerotrust_track::parser::{CloseConnection, OpenConnection, Payload};
use zerotrust_track::pipeline::Pipeline;
use zerotrust_track::uuid_rep::Uuid;

fn no_filters() -> FiltersConfig {
    FiltersConfig {
        non_process_connections: false,
        dns_requests: false,
        self_connections: false,
    }
}

fn open_record(hash: i64, uuid: Uuid) -> OpenConnection {
    OpenConnection {
        hash,
        uuid,
        agent: Uuid::new(0, 1),
        timestamp: String::from("2020-01-01T00:00:00+00:00"),
        protocol: Protocol::TCP,
        source: Ipv4::new(10, 0, 0, 1),
        destination: Ipv4::new(10, 0, 0, 2),
        source_port: 22,
        destination_port: 4444,
        username: String::from("alice"),
        uid: 7,
        program_details: None,
    }
}

fn close_record(hash: i64) -> CloseConnection {
    CloseConnection {
        hash,
        agent: Uuid::new(0, 1),
        uuid: None,
        timestamp: String::from("2020-01-01T00:00:01+00:00"),
        protocol: Protocol::TCP,
        source: Ipv4::new(10, 0, 0, 1),
        destination: Ipv4::new(10, 0, 0, 2),
        source_port: 22,
        destination_port: 4444,
    }
}

#[test]
fn test_pipeline_open_then_close_reuses_uuid() {
    let mut pipeline = Pipeline::new(no_filters(), 1).unwrap();
    let uuid = Uuid::new(0xabcd, 0xef01);
    let open = open_record(-7, uuid);

    let (is_open, open_json) = pipeline.handle(Payload::Open(open.clone())).unwrap();
    assert!(is_open);
    assert_eq!(open_json, render_open(&open));

    let close = close_record(-7);
    let (is_open, close_json) = pipeline.handle(Payload::Close(close.clone())).unwrap();
    assert!(!is_open);
    let expected = CloseConnection {
        uuid: Some(uuid),
        ..close
    };
    assert_eq!(close_json, render_close(&expected));
}

#[test]
fn test_pipeline_close_without_open_keeps_empty_uuid() {
    let mut pipeline = Pipeline::new(no_filters(), 1).unwrap();
    let close = close_record(99);
    let (is_open, close_json) = pipeline.handle(Payload::Close(close.clone())).unwrap();
    assert!(!is_open);
    assert_eq!(close_json, render_close(&close));
    assert!(close_json.contains("\"uuid\":null"));
}

#[test]
fn test_pipeline_filtered_open_suppresses_matching_close() {
    let config = FiltersConfig {
        non_process_connections: true,
        dns_requests: true,
        self_connections: true,
    };
    let mut pipeline = Pipeline::new(config, 1).unwrap();

    let open = open_record(5, Uuid::new(1, 2));
    assert!(pipeline.handle(Payload::Open(open)).is_none());
    assert!(pipeline.handle(Payload::Close(close_record(5))).is_none());
    assert!(pipeline.handle(Payload::Close(close_record(5))).is_some());
}
