use zerotrust_track::enums::Protocol;
use zerotrust_track::net::{ipv4_from_proc, Ipv4};
use zerotrust_track::proc_chomper::{
    parse_connection, parse_num, split_address, ProcChomper, RowError,
};

#[test]
fn test_split_address_failure() {
    let tuple = split_address("I have no breaks");
    assert!(!tuple.is_some())
}

#[test]
fn test_split_address_success() {
    let tuple = split_address("I have:breaks");
    match tuple {
        Some(tuple) => {
            assert_eq!("I have", tuple.0);
            assert_eq!("breaks", tuple.1);
        }
        None => {
            assert!(tuple.is_some());
        }
    }
}

#[test]
fn test_parse_connection_success() {
    let string = "   3: 669010AC:0016 019010AC:D575 01 00000000:00000000 02:000577BD 00000000     0        0 1227937 2 0000000000000000 20 4 25 2 2                    ";
    let payload = parse_connection(string);
    match payload {
        Ok(Some(payload)) => {
            assert_eq!(payload.local_address, Ipv4::new(172, 16, 144, 102));
            assert_eq!(payload.local_port, 22);
            assert_eq!(payload.remote_address, Ipv4::new(172, 16, 144, 1));
            assert_eq!(payload.remote_port, 54645);
            assert_eq!(payload.uid, 0);
            assert_eq!(payload.inode, 1227937);
        }
        _ => {
            panic!("expected a parsed row");
        }
    }
}

#[test]
fn test_hex_endpoint_parses() {
    let tuple = split_address("669010AC:0016").unwrap();
    let address = ipv4_from_proc(parse_num(&tuple.0, 16, 0xFFFF_FFFF).unwrap() as u32);
    let port = parse_num(&tuple.1, 16, 0xFFFF).unwrap() as u16;
    assert_eq!(address, Ipv4::new(172, 16, 144, 102));
    assert_eq!(port, 22);
}

#[test]
fn test_parse_connection_bad_uid_is_fatal() {
    let string = "   3: 669010AC:0016 019010AC:D575 01 00000000:00000000 02:000577BD 00000000     x        0 1227937 2";
    assert_eq!(parse_connection(string), Err(RowError::BadNumber));
}

#[test]
fn test_parse_connection_missing_colon_skips_row() {
    let string = "   3: 669010AC0016 019010AC:D575 01 00000000:00000000 02:000577BD 00000000     0        0 1227937 2";
    assert_eq!(parse_connection(string), Ok(None));
}

#[test]
fn test_parse_num_rejects_overflow_and_junk() {
    assert_eq!(parse_num("FFFFFFFF", 16, 0xFFFF_FFFF), Some(0xFFFF_FFFF));
    assert_eq!(parse_num("100000000", 16, 0xFFFF_FFFF), None);
    assert_eq!(parse_num("", 16, 0xFFFF_FFFF), None);
    assert_eq!(parse_num("12g4", 16, 0xFFFF_FFFF), None);
    assert_eq!(parse_num("65535", 10, 0xFFFF), Some(65535));
    assert_eq!(parse_num("65536", 10, 0xFFFF), None);
    assert_eq!(parse_num("a", 10, 0xFFFF), None);
}

#[test]
fn test_update_indexes_both_endpoints() {
    let header = String::from(
        "  sl  local_address rem_address   st tx_queue rx_queue tr tm->when retrnsmt   uid  timeout inode",
    );
    let row = String::from(
        "   3: 669010AC:0016 019010AC:D575 01 00000000:00000000 02:000577BD 00000000     0        0 1227937 2 0000000000000000 20 4 25 2 2",
    );
    let mut chomper = ProcChomper::new(Protocol::TCP);
    chomper.update(&vec![header, row]).unwrap();

    let by_local = chomper.find(&Ipv4::new(172, 16, 144, 102), 22).unwrap();
    assert_eq!(by_local.inode, 1227937);
    let by_remote = chomper.find(&Ipv4::new(172, 16, 144, 1), 54645).unwrap();
    assert_eq!(by_remote.inode, 1227937);
    assert!(chomper.find(&Ipv4::new(172, 16, 144, 1), 22).is_none());
}

#[test]
fn test_update_last_writer_wins() {
    let header = String::from("header");
    let first = String::from(
        "   1: 0100007F:0016 00000000:0000 0A 00000000:00000000 00:00000000 00000000     0        0 111 1",
    );
    let second = String::from(
        "   2: 0100007F:0016 00000000:0000 0A 00000000:00000000 00:00000000 00000000     0        0 222 1",
    );
    let mut chomper = ProcChomper::new(Protocol::TCP);
    chomper.update(&vec![header, first, second]).unwrap();

    let row = chomper.find(&Ipv4::new(127, 0, 0, 1), 22).unwrap();
    assert_eq!(row.inode, 222);
}

#[test]
fn test_update_bad_row_keeps_old_table() {
    let header = String::from("header");
    let good = String::from(
        "   1: 0100007F:0016 00000000:0000 0A 00000000:00000000 00:00000000 00000000     0        0 111 1",
    );
    let bad = String::from(
        "   1: 0100007F:0016 00000000:0000 0A 00000000:00000000 00:00000000 00000000     zz        0 111 1",
    );
    let mut chomper = ProcChomper::new(Protocol::TCP);
    chomper.update(&vec![header.clone(), good]).unwrap();
    assert!(chomper.update(&vec![header, bad]).is_err());
    assert!(chomper.find(&Ipv4::new(127, 0, 0, 1), 22).is_some());
}

#[test]
fn test_update_skips_header_line() {
    let first = String::from(
        "   1: 0100007F:0016 00000000:0000 0A 00000000:00000000 00:00000000 00000000     0        0 111 1",
    );
    let second = String::from(
        "   2: 0200007F:0017 00000000:0000 0A 00000000:00000000 00:00000000 00000000     0        0 222 1",
    );
    let mut chomper = ProcChomper::new(Protocol::TCP);
    chomper.update(&vec![first, second]).unwrap();

    assert!(chomper.find(&Ipv4::new(127, 0, 0, 1), 22).is_none());
    assert!(chomper.find(&Ipv4::new(127, 0, 0, 2), 23).is_some());
}
