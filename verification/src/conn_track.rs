//! Typed connection events, decoded from the byte form in which the
//! kernel's connection-tracking subsystem publishes them.

use vstd::prelude::*;
use crate::enums::{Protocol, State};
use crate::net::Ipv4;

verus! {

#[derive(Debug, Clone, Copy, PartialEq, Eq, Structural)]
pub enum ProtoDetails {
    ICMP { icmp_id: u16, icmp_type: u8, icmp_code: u8 },
    IP { protocol: Protocol, source_port: u16, destination_port: u16 },
    NotSupported,
}

#[derive(Debug, Clone, Copy, PartialEq, Eq, Structural)]
pub struct ConnectionDetails {
    pub source: Ipv4,
    pub destination: Ipv4,
    pub protocol: ProtoDetails,
}

#[derive(Debug, Clone, Copy, PartialEq, Eq, Structural)]
pub struct Connection {
    pub state: State,
    pub details: ConnectionDetails,
}

// ---------------------------------------------------------------------
// The netlink wire form.
//
// A datagram holds netlink messages back to back: a 16-byte header
// (length, type, flags, sequence, pid; host little-endian), then for
// conntrack a 4-byte nfgenmsg, then a chain of attributes. Each
// attribute is a 16-bit length (header included), a 16-bit type whose
// low 14 bits name it, its payload, and padding to a 4-byte boundary.
// ---------------------------------------------------------------------

/// The nested attribute holding the original tuple of the tracked
/// connection.
pub const CTA_TUPLE_ORIG: u16 = 1;

/// Inside the tuple: the nested address attribute.
pub const CTA_TUPLE_IP: u16 = 1;

/// Inside the tuple: the nested transport attribute.
pub const CTA_TUPLE_PROTO: u16 = 2;

/// Inside the address attribute: source and destination IPv4, raw
/// network-order bytes.
pub const CTA_IP_V4_SRC: u16 = 1;

pub const CTA_IP_V4_DST: u16 = 2;

/// Inside the transport attribute: protocol number, ports (big-endian),
/// and the ICMP triple.
pub const CTA_PROTO_NUM: u16 = 1;

pub const CTA_PROTO_SRC_PORT: u16 = 2;

pub const CTA_PROTO_DST_PORT: u16 = 3;

pub const CTA_PROTO_ICMP_ID: u16 = 4;

pub const CTA_PROTO_ICMP_TYPE: u16 = 5;

pub const CTA_PROTO_ICMP_CODE: u16 = 6;

/// A 16-bit little-endian value at offset `i`.
pub open spec fn spec_le16(b: Seq<u8>, i: int) -> u16
    recommends
        0 <= i,
        i + 2 <= b.len(),
{
    ((b[i] as int) + (b[i + 1] as int) * 0x100) as u16
}

/// A 16-bit big-endian value at offset `i`.
pub open spec fn spec_be16(b: Seq<u8>, i: int) -> u16
    recommends
        0 <= i,
        i + 2 <= b.len(),
{
    ((b[i] as int) * 0x100 + (b[i + 1] as int)) as u16
}

/// A 32-bit little-endian value at offset `i`.
pub open spec fn spec_le32(b: Seq<u8>, i: int) -> u32
    recommends
        0 <= i,
        i + 4 <= b.len(),
{
    ((b[i] as int) + (b[i + 1] as int) * 0x100 + (b[i + 2] as int) * 0x1_0000 + (b[i + 3] as int)
        * 0x100_0000) as u32
}

fn le16(buf: &[u8], i: usize) -> (r: u16)
    requires
        i + 2 <= buf@.len(),
    ensures
        r == spec_le16(buf@, i as int),
{
    buf[i] as u16 + (buf[i + 1] as u16) * 0x100
}

fn be16(buf: &[u8], i: usize) -> (r: u16)
    requires
        i + 2 <= buf@.len(),
    ensures
        r == spec_be16(buf@, i as int),
{
    (buf[i] as u16) * 0x100 + buf[i + 1] as u16
}

fn le32(buf: &[u8], i: usize) -> (r: u32)
    requires
        i + 4 <= buf@.len(),
    ensures
        r == spec_le32(buf@, i as int),
{
    buf[i] as u32 + (buf[i + 1] as u32) * 0x100 + (buf[i + 2] as u32) * 0x1_0000 + (buf[i
        + 3] as u32) * 0x100_0000
}

/// The next 4-byte boundary at or above `n`.
pub open spec fn spec_align4(n: int) -> int {
    ((n + 3) / 4) * 4
}

/// The payload of the first attribute of the given type in the region:
/// the walk reads each attribute's length and masked type, returns the
/// payload on a match, steps to the next aligned offset otherwise, and
/// stops at a malformed length or the region's end.
pub open spec fn spec_find_attr(b: Seq<u8>, atype: u16) -> Option<Seq<u8>>
    decreases b.len(),
{
    if b.len() < 4 {
        None
    } else {
        let alen = spec_le16(b, 0) as int;
        let t = spec_le16(b, 2) & 0x3FFF;
        if alen < 4 || alen > b.len() {
            None
        } else if t == atype {
            Some(b.subrange(4, alen))
        } else {
            let next = spec_align4(alen);
            if next >= b.len() {
                None
            } else {
                spec_find_attr(b.subrange(next, b.len() as int), atype)
            }
        }
    }
}

/// Finds an attribute in `buf[start..end)`, returning its payload
/// bounds.
fn find_attr(buf: &[u8], start: usize, end: usize, atype: u16) -> (r: Option<(usize, usize)>)
    requires
        start <= end <= buf@.len(),
    ensures
        match r {
            Some(t) => start <= t.0 <= t.1 <= end && spec_find_attr(
                buf@.subrange(start as int, end as int),
                atype,
            ) == Some(buf@.subrange(t.0 as int, t.1 as int)),
            None => spec_find_attr(buf@.subrange(start as int, end as int), atype) is None,
        },
{
    let mut pos: usize = start;
    loop
        invariant
            start <= pos <= end <= buf@.len(),
            spec_find_attr(buf@.subrange(start as int, end as int), atype) == spec_find_attr(
                buf@.subrange(pos as int, end as int),
                atype,
            ),
        decreases end - pos,
    {
        let ghost region = buf@.subrange(pos as int, end as int);
        if end - pos < 4 {
            proof {
                assert(spec_find_attr(region, atype) is None);
            }
            return None;
        }
        proof {
            assert(region[0] == buf@[pos as int]);
            assert(region[1] == buf@[pos + 1]);
            assert(region[2] == buf@[pos + 2]);
            assert(region[3] == buf@[pos + 3]);
            assert(spec_le16(region, 0) == spec_le16(buf@, pos as int));
            assert(spec_le16(region, 2) == spec_le16(buf@, pos + 2));
        }
        let alen: usize = le16(buf, pos) as usize;
        let t: u16 = le16(buf, pos + 2) & 0x3FFF;
        if alen < 4 || alen > end - pos {
            proof {
                assert(spec_find_attr(region, atype) is None);
            }
            return None;
        }
        if t == atype {
            proof {
                assert(region.subrange(4, alen as int) =~= buf@.subrange(pos + 4, pos + alen));
                assert(spec_find_attr(region, atype) == Some(buf@.subrange(pos + 4, pos + alen)));
            }
            return Some((pos + 4, pos + alen));
        }
        let next: usize = ((alen + 3) / 4) * 4;
        if next >= end - pos {
            proof {
                assert(spec_find_attr(region, atype) is None);
            }
            return None;
        }
        proof {
            assert(region.subrange(spec_align4(alen as int), region.len() as int)
                =~= buf@.subrange(pos + next, end as int));
            assert(spec_find_attr(region, atype) == spec_find_attr(
                buf@.subrange(pos + next, end as int),
                atype,
            ));
        }
        pos = pos + next;
    }
}

/// What the address attribute of a tuple yields: the source and
/// destination IPv4 addresses, their octets the first four payload
/// bytes in network order; nothing when either is missing or short.
pub open spec fn spec_extract_ip(region: Seq<u8>) -> Option<(Ipv4, Ipv4)> {
    match (spec_find_attr(region, CTA_IP_V4_SRC), spec_find_attr(region, CTA_IP_V4_DST)) {
        (Some(s), Some(d)) => {
            if s.len() >= 4 && d.len() >= 4 {
                Some(
                    (
                        Ipv4 { a: s[0], b: s[1], c: s[2], d: s[3] },
                        Ipv4 { a: d[0], b: d[1], c: d[2], d: d[3] },
                    ),
                )
            } else {
                None
            }
        },
        _ => None,
    }
}

fn extract_ip(buf: &[u8], start: usize, end: usize) -> (r: Option<(Ipv4, Ipv4)>)
    requires
        start <= end <= buf@.len(),
    ensures
        r == spec_extract_ip(buf@.subrange(start as int, end as int)),
{
    let src = find_attr(buf, start, end, CTA_IP_V4_SRC);
    let dst = find_attr(buf, start, end, CTA_IP_V4_DST);
    match (src, dst) {
        (Some((ss, se)), Some((ds, de))) => {
            if se - ss >= 4 && de - ds >= 4 {
                let source = Ipv4::new(buf[ss], buf[ss + 1], buf[ss + 2], buf[ss + 3]);
                let destination = Ipv4::new(buf[ds], buf[ds + 1], buf[ds + 2], buf[ds + 3]);
                proof {
                    let sp = buf@.subrange(ss as int, se as int);
                    let dp = buf@.subrange(ds as int, de as int);
                    assert(sp[0] == buf@[ss as int] && sp[1] == buf@[ss + 1] && sp[2] == buf@[ss
                        + 2] && sp[3] == buf@[ss + 3]);
                    assert(dp[0] == buf@[ds as int] && dp[1] == buf@[ds + 1] && dp[2] == buf@[ds
                        + 2] && dp[3] == buf@[ds + 3]);
                }
                Some((source, destination))
            } else {
                None
            }
        },
        _ => None,
    }
}

/// What the transport attribute of a tuple yields: TCP (6) and UDP (17)
/// carry big-endian ports, ICMP (1) its id, type and code, any other
/// protocol number is not supported; a missing or short inner attribute
/// yields nothing.
pub open spec fn spec_extract_proto(region: Seq<u8>) -> Option<ProtoDetails> {
    match spec_find_attr(region, CTA_PROTO_NUM) {
        None => None,
        Some(num) => {
            if num.len() < 1 {
                None
            } else if num[0] == 6 || num[0] == 17 {
                match (
                    spec_find_attr(region, CTA_PROTO_SRC_PORT),
                    spec_find_attr(region, CTA_PROTO_DST_PORT),
                ) {
                    (Some(sp), Some(dp)) => {
                        if sp.len() >= 2 && dp.len() >= 2 {
                            Some(
                                ProtoDetails::IP {
                                    protocol: if num[0] == 6 {
                                        Protocol::TCP
                                    } else {
                                        Protocol::UDP
                                    },
                                    source_port: spec_be16(sp, 0),
                                    destination_port: spec_be16(dp, 0),
                                },
                            )
                        } else {
                            None
                        }
                    },
                    _ => None,
                }
            } else if num[0] == 1 {
                match (
                    spec_find_attr(region, CTA_PROTO_ICMP_ID),
                    spec_find_attr(region, CTA_PROTO_ICMP_TYPE),
                    spec_find_attr(region, CTA_PROTO_ICMP_CODE),
                ) {
                    (Some(id), Some(ty), Some(code)) => {
                        if id.len() >= 2 && ty.len() >= 1 && code.len() >= 1 {
                            Some(
                                ProtoDetails::ICMP {
                                    icmp_id: spec_be16(id, 0),
                                    icmp_type: ty[0],
                                    icmp_code: code[0],
                                },
                            )
                        } else {
                            None
                        }
                    },
                    _ => None,
                }
            } else {
                Some(ProtoDetails::NotSupported)
            }
        },
    }
}

fn extract_proto(buf: &[u8], start: usize, end: usize) -> (r: Option<ProtoDetails>)
    requires
        start <= end <= buf@.len(),
    ensures
        r == spec_extract_proto(buf@.subrange(start as int, end as int)),
{
    let num = match find_attr(buf, start, end, CTA_PROTO_NUM) {
        None => {
            return None;
        },
        Some(b) => b,
    };
    if num.1 - num.0 < 1 {
        return None;
    }
    proof {
        assert(buf@.subrange(num.0 as int, num.1 as int)[0] == buf@[num.0 as int]);
    }
    let proto: u8 = buf[num.0];
    if proto == 6 || proto == 17 {
        let sp = find_attr(buf, start, end, CTA_PROTO_SRC_PORT);
        let dp = find_attr(buf, start, end, CTA_PROTO_DST_PORT);
        match (sp, dp) {
            (Some((ss, se)), Some((ds, de))) => {
                if se - ss >= 2 && de - ds >= 2 {
                    proof {
                        let spb = buf@.subrange(ss as int, se as int);
                        let dpb = buf@.subrange(ds as int, de as int);
                        assert(spb[0] == buf@[ss as int] && spb[1] == buf@[ss + 1]);
                        assert(dpb[0] == buf@[ds as int] && dpb[1] == buf@[ds + 1]);
                        assert(spec_be16(spb, 0) == spec_be16(buf@, ss as int));
                        assert(spec_be16(dpb, 0) == spec_be16(buf@, ds as int));
                    }
                    let source_port = be16(buf, ss);
                    let destination_port = be16(buf, ds);
                    let protocol = if proto == 6 {
                        Protocol::TCP
                    } else {
                        Protocol::UDP
                    };
                    Some(ProtoDetails::IP { protocol, source_port, destination_port })
                } else {
                    None
                }
            },
            _ => None,
        }
    } else if proto == 1 {
        let id = find_attr(buf, start, end, CTA_PROTO_ICMP_ID);
        let ty = find_attr(buf, start, end, CTA_PROTO_ICMP_TYPE);
        let code = find_attr(buf, start, end, CTA_PROTO_ICMP_CODE);
        match (id, ty, code) {
            (Some((is, ie)), Some((ts, te)), Some((cs, ce))) => {
                if ie - is >= 2 && te - ts >= 1 && ce - cs >= 1 {
                    proof {
                        let idb = buf@.subrange(is as int, ie as int);
                        assert(idb[0] == buf@[is as int] && idb[1] == buf@[is + 1]);
                        assert(spec_be16(idb, 0) == spec_be16(buf@, is as int));
                        assert(buf@.subrange(ts as int, te as int)[0] == buf@[ts as int]);
                        assert(buf@.subrange(cs as int, ce as int)[0] == buf@[cs as int]);
                    }
                    let icmp_id = be16(buf, is);
                    let icmp_type: u8 = buf[ts];
                    let icmp_code: u8 = buf[cs];
                    Some(ProtoDetails::ICMP { icmp_id, icmp_type, icmp_code })
                } else {
                    None
                }
            },
            _ => None,
        }
    } else {
        Some(ProtoDetails::NotSupported)
    }
}

/// What the original tuple yields: the addresses from its nested
/// address attribute and the transport details from its nested
/// transport attribute.
pub open spec fn spec_extract_tuple(region: Seq<u8>) -> Option<ConnectionDetails> {
    match (spec_find_attr(region, CTA_TUPLE_IP), spec_find_attr(region, CTA_TUPLE_PROTO)) {
        (Some(ipb), Some(protob)) => {
            match (spec_extract_ip(ipb), spec_extract_proto(protob)) {
                (Some(addresses), Some(protocol)) => Some(
                    ConnectionDetails {
                        source: addresses.0,
                        destination: addresses.1,
                        protocol,
                    },
                ),
                _ => None,
            }
        },
        _ => None,
    }
}

fn extract_tuple(buf: &[u8], start: usize, end: usize) -> (r: Option<ConnectionDetails>)
    requires
        start <= end <= buf@.len(),
    ensures
        r == spec_extract_tuple(buf@.subrange(start as int, end as int)),
{
    let ipb = find_attr(buf, start, end, CTA_TUPLE_IP);
    let protob = find_attr(buf, start, end, CTA_TUPLE_PROTO);
    match (ipb, protob) {
        (Some((is, ie)), Some((ps, pe))) => {
            let addresses = extract_ip(buf, is, ie);
            let protocol = extract_proto(buf, ps, pe);
            match (addresses, protocol) {
                (Some(addresses), Some(protocol)) => Some(
                    ConnectionDetails {
                        source: addresses.0,
                        destination: addresses.1,
                        protocol,
                    },
                ),
                _ => None,
            }
        },
        _ => None,
    }
}

/// The state a message's type and flags select: type low byte 0 is a
/// creation event when the CREATE flag (0x400) is set, low byte 2 is a
/// destroy event, and everything else is unknown.
pub open spec fn spec_decode_state(msg_type: u16, flags: u16) -> State {
    let low = msg_type & 0xFF;
    if low == 0 {
        if flags & 0x400 != 0 {
            State::New
        } else {
            State::Unknown
        }
    } else if low == 2 {
        State::Destroy
    } else {
        State::Unknown
    }
}

fn decode_state(msg_type: u16, flags: u16) -> (r: State)
    ensures
        r == spec_decode_state(msg_type, flags),
{
    let low = msg_type & 0xFF;
    if low == 0 {
        if flags & 0x400 != 0 {
            State::New
        } else {
            State::Unknown
        }
    } else if low == 2 {
        State::Destroy
    } else {
        State::Unknown
    }
}

/// What one netlink message yields: its state from type and flags, and
/// the connection details from the original-tuple attribute after the
/// 16-byte header and 4-byte subsystem header; a message too short or
/// without a well-formed tuple yields nothing.
pub open spec fn spec_decode_msg(b: Seq<u8>) -> Option<Connection> {
    if b.len() < 20 {
        None
    } else {
        let state = spec_decode_state(spec_le16(b, 4), spec_le16(b, 6));
        match spec_find_attr(b.subrange(20, b.len() as int), CTA_TUPLE_ORIG) {
            None => None,
            Some(t) => match spec_extract_tuple(t) {
                None => None,
                Some(details) => Some(Connection { state, details }),
            },
        }
    }
}

fn decode_msg(buf: &[u8], start: usize, end: usize) -> (r: Option<Connection>)
    requires
        start <= end <= buf@.len(),
    ensures
        r == spec_decode_msg(buf@.subrange(start as int, end as int)),
{
    let ghost region = buf@.subrange(start as int, end as int);
    if end - start < 20 {
        return None;
    }
    proof {
        assert(region[4] == buf@[start + 4] && region[5] == buf@[start + 5]);
        assert(region[6] == buf@[start + 6] && region[7] == buf@[start + 7]);
        assert(spec_le16(region, 4) == spec_le16(buf@, start + 4));
        assert(spec_le16(region, 6) == spec_le16(buf@, start + 6));
        assert(region.subrange(20, region.len() as int) =~= buf@.subrange(
            start + 20,
            end as int,
        ));
    }
    let state = decode_state(le16(buf, start + 4), le16(buf, start + 6));
    match find_attr(buf, start + 20, end, CTA_TUPLE_ORIG) {
        None => None,
        Some((ts, te)) => match extract_tuple(buf, ts, te) {
            None => None,
            Some(details) => Some(Connection { state, details }),
        },
    }
}

/// The connection events one datagram yields: each message in turn,
/// those that decode, walking messages by their aligned lengths as the
/// kernel lays them out.
pub open spec fn spec_decode_datagram(b: Seq<u8>) -> Seq<Connection>
    decreases b.len(),
{
    if b.len() < 16 {
        seq![]
    } else {
        let mlen = spec_le32(b, 0) as int;
        if mlen < 16 || mlen > b.len() {
            seq![]
        } else {
            let this = match spec_decode_msg(b.subrange(0, mlen)) {
                Some(c) => seq![c],
                None => seq![],
            };
            let next = spec_align4(mlen);
            if next >= b.len() {
                this
            } else {
                this + spec_decode_datagram(b.subrange(next, b.len() as int))
            }
        }
    }
}

/// Decodes a whole datagram of netlink messages into connection
/// events.
pub fn decode_datagram(buf: &[u8]) -> (r: Vec<Connection>)
    ensures
        r@ == spec_decode_datagram(buf@),
{
    let mut out: Vec<Connection> = Vec::new();
    let len: usize = buf.len();
    let mut pos: usize = 0;
    proof {
        assert(buf@.subrange(0, len as int) =~= buf@);
        assert(out@ =~= Seq::<Connection>::empty());
        assert(out@ + spec_decode_datagram(buf@) =~= spec_decode_datagram(buf@));
    }
    loop
        invariant_except_break
            spec_decode_datagram(buf@) == out@ + spec_decode_datagram(
                buf@.subrange(pos as int, len as int),
            ),
        invariant
            pos <= len,
            len == buf@.len(),
        ensures
            out@ == spec_decode_datagram(buf@),
        decreases len - pos,
    {
        let ghost region = buf@.subrange(pos as int, len as int);
        if len - pos < 16 {
            proof {
                assert(spec_decode_datagram(region) =~= Seq::<Connection>::empty());
                assert(spec_decode_datagram(buf@) =~= out@);
            }
            break;
        }
        proof {
            assert(region[0] == buf@[pos as int] && region[1] == buf@[pos + 1] && region[2]
                == buf@[pos + 2] && region[3] == buf@[pos + 3]);
            assert(spec_le32(region, 0) == spec_le32(buf@, pos as int));
        }
        let mlen: usize = le32(buf, pos) as usize;
        if mlen < 16 || mlen > len - pos {
            proof {
                assert(spec_decode_datagram(region) =~= Seq::<Connection>::empty());
                assert(spec_decode_datagram(buf@) =~= out@);
            }
            break;
        }
        proof {
            assert(region.subrange(0, mlen as int) =~= buf@.subrange(pos as int, pos + mlen));
        }
        let ghost before = out@;
        let decoded = decode_msg(buf, pos, pos + mlen);
        match &decoded {
            Some(c) => {
                out.push(*c);
            },
            None => {},
        }
        proof {
            match decoded {
                Some(c) => {
                    assert(out@ =~= before + seq![c]);
                },
                None => {
                    assert(out@ =~= before + Seq::<Connection>::empty());
                },
            }
        }
        let next64: u64 = (((mlen as u64) + 3) / 4) * 4;
        proof {
            assert(spec_align4(mlen as int) == next64 as int);
        }
        if next64 >= (len - pos) as u64 {
            proof {
                assert(spec_decode_datagram(buf@) =~= out@);
            }
            break;
        }
        let next: usize = next64 as usize;
        proof {
            assert(region.subrange(spec_align4(mlen as int), region.len() as int)
                =~= buf@.subrange(pos + next, len as int));
            assert(spec_decode_datagram(buf@) =~= out@ + spec_decode_datagram(
                buf@.subrange(pos + next, len as int),
            ));
        }
        pos = pos + next;
    }
    out
}

} // verus!
