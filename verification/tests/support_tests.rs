use zerotrust_track::net::{ipv4_from_proc, Ipv4};
use zerotrust_track::proc::Proc;
use zerotrust_track::user_cache::UserCache;

#[test]
fn test_ipv4_from_proc_byte_order() {
    assert_eq!(ipv4_from_proc(0x669010AC), Ipv4::new(172, 16, 144, 102));
    assert_eq!(ipv4_from_proc(0x019010AC), Ipv4::new(172, 16, 144, 1));
    assert_eq!(ipv4_from_proc(0x0100007F), Ipv4::new(127, 0, 0, 1));
    assert_eq!(ipv4_from_proc(0), Ipv4::new(0, 0, 0, 0));
}

#[test]
fn test_ipv4_loopback() {
    assert!(Ipv4::new(127, 0, 0, 1).is_loopback());
    assert!(Ipv4::new(127, 255, 0, 3).is_loopback());
    assert!(!Ipv4::new(128, 0, 0, 1).is_loopback());
}

#[test]
fn test_proc_index_last_writer_wins() {
    let mut proc = Proc::new();
    assert!(proc.get(7).is_none());

    proc.update(&vec![(7, 100), (8, 200), (7, 300)]);
    assert_eq!(proc.get(7), Some(300));
    assert_eq!(proc.get(8), Some(200));
    assert!(proc.get(9).is_none());

    proc.update(&vec![(9, 400)]);
    assert_eq!(proc.get(9), Some(400));
    assert!(proc.get(7).is_none());
}

#[test]
fn test_user_cache_is_consistent() {
    let mut cache = UserCache::new();
    let first = cache.get(0);
    let second = cache.get(0);
    assert_eq!(first, second);
}
