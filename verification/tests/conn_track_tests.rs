use zerotrust_track::conn_track::{decode_datagram, ProtoDetails};
use zerotrust_track::enums::{Protocol, State};
use zerotrust_track::net::Ipv4;

fn attr(atype: u16, payload: &[u8]) -> Vec<u8> {
    let len = (4 + payload.len()) as u16;
    let mut out = Vec::new();
    out.extend_from_slice(&len.to_le_bytes());
    out.extend_from_slice(&atype.to_le_bytes());
    out.extend_from_slice(payload);
    while out.len() % 4 != 0 {
        out.push(0);
    }
    out
}

fn tuple_orig(proto_num: u8, source_port: u16, destination_port: u16) -> Vec<u8> {
    let mut ip = Vec::new();
    ip.extend_from_slice(&attr(1, &[10, 0, 0, 1]));
    ip.extend_from_slice(&attr(2, &[10, 0, 0, 2]));

    let mut proto = Vec::new();
    proto.extend_from_slice(&attr(1, &[proto_num]));
    proto.extend_from_slice(&attr(2, &source_port.to_be_bytes()));
    proto.extend_from_slice(&attr(3, &destination_port.to_be_bytes()));

    let mut tuple = Vec::new();
    tuple.extend_from_slice(&attr(0x8001, &ip));
    tuple.extend_from_slice(&attr(0x8002, &proto));
    attr(0x8001, &tuple)
}

fn message(msg_type: u16, flags: u16, body: &[u8]) -> Vec<u8> {
    let len = (16 + 4 + body.len()) as u32;
    let mut out = Vec::new();
    out.extend_from_slice(&len.to_le_bytes());
    out.extend_from_slice(&msg_type.to_le_bytes());
    out.extend_from_slice(&flags.to_le_bytes());
    out.extend_from_slice(&0u32.to_le_bytes());
    out.extend_from_slice(&0u32.to_le_bytes());
    out.extend_from_slice(&[2, 0, 0, 0]);
    out.extend_from_slice(body);
    out
}

#[test]
fn test_decode_new_tcp_event() {
    let datagram = message(0x0100, 0x0400, &tuple_orig(6, 22, 4444));
    let events = decode_datagram(&datagram);
    assert_eq!(events.len(), 1);
    let event = events[0];
    assert_eq!(event.state, State::New);
    assert_eq!(event.details.source, Ipv4::new(10, 0, 0, 1));
    assert_eq!(event.details.destination, Ipv4::new(10, 0, 0, 2));
    assert_eq!(
        event.details.protocol,
        ProtoDetails::IP {
            protocol: Protocol::TCP,
            source_port: 22,
            destination_port: 4444,
        }
    );
}

#[test]
fn test_decode_new_without_create_flag_is_unknown() {
    let datagram = message(0x0100, 0x0000, &tuple_orig(17, 53, 53));
    let events = decode_datagram(&datagram);
    assert_eq!(events.len(), 1);
    assert_eq!(events[0].state, State::Unknown);
    assert_eq!(
        events[0].details.protocol,
        ProtoDetails::IP {
            protocol: Protocol::UDP,
            source_port: 53,
            destination_port: 53,
        }
    );
}

#[test]
fn test_decode_delete_event_is_destroy() {
    let datagram = message(0x0102, 0x0000, &tuple_orig(6, 80, 1024));
    let events = decode_datagram(&datagram);
    assert_eq!(events.len(), 1);
    assert_eq!(events[0].state, State::Destroy);
}

#[test]
fn test_decode_unsupported_protocol_number() {
    let datagram = message(0x0100, 0x0400, &tuple_orig(132, 1, 2));
    let events = decode_datagram(&datagram);
    assert_eq!(events.len(), 1);
    assert_eq!(events[0].details.protocol, ProtoDetails::NotSupported);
}

#[test]
fn test_decode_icmp_event() {
    let mut ip = Vec::new();
    ip.extend_from_slice(&attr(1, &[192, 168, 0, 1]));
    ip.extend_from_slice(&attr(2, &[192, 168, 0, 2]));

    let mut proto = Vec::new();
    proto.extend_from_slice(&attr(1, &[1]));
    proto.extend_from_slice(&attr(4, &99u16.to_be_bytes()));
    proto.extend_from_slice(&attr(5, &[8]));
    proto.extend_from_slice(&attr(6, &[0]));

    let mut tuple = Vec::new();
    tuple.extend_from_slice(&attr(0x8001, &ip));
    tuple.extend_from_slice(&attr(0x8002, &proto));
    let body = attr(0x8001, &tuple);

    let datagram = message(0x0100, 0x0400, &body);
    let events = decode_datagram(&datagram);
    assert_eq!(events.len(), 1);
    assert_eq!(
        events[0].details.protocol,
        ProtoDetails::ICMP {
            icmp_id: 99,
            icmp_type: 8,
            icmp_code: 0,
        }
    );
}

#[test]
fn test_decode_two_messages_in_one_datagram() {
    let mut datagram = message(0x0100, 0x0400, &tuple_orig(6, 22, 4444));
    datagram.extend_from_slice(&message(0x0102, 0x0000, &tuple_orig(6, 22, 4444)));
    let events = decode_datagram(&datagram);
    assert_eq!(events.len(), 2);
    assert_eq!(events[0].state, State::New);
    assert_eq!(events[1].state, State::Destroy);
}

#[test]
fn test_decode_truncated_datagram_is_empty() {
    assert_eq!(decode_datagram(&[1, 2, 3]).len(), 0);
    let mut truncated = message(0x0100, 0x0400, &tuple_orig(6, 22, 4444));
    truncated[0] = 200;
    assert_eq!(decode_datagram(&truncated).len(), 0);
}

#[test]
fn test_decode_message_without_tuple_is_dropped() {
    let datagram = message(0x0100, 0x0400, &attr(7, &5u32.to_le_bytes()));
    assert_eq!(decode_datagram(&datagram).len(), 0);
}
