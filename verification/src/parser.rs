//! Turns decoded connection events into typed payload records, joining
//! them with the owning process and user.

use vstd::prelude::*;
use vstd::std_specs::hash::DefaultHasherAdditionalSpecFns;
use vstd::string::StringSliceAdditionalSpecFns;
use std::collections::hash_map::DefaultHasher;
use std::hash::Hasher;
use crate::conn_track::{Connection, ProtoDetails};
use crate::enums::{spec_protocol_name, Protocol, State};
use crate::net::Ipv4;
use crate::proc_chomper::SocketConnection;
use crate::user_cache::UserCache;
use crate::uuid_rep::{new_v4, Uuid};

verus! {

#[derive(Debug, Clone, PartialEq)]
pub struct Program {
    pub inode: u32,
    pub pid: u32,
    pub process_name: String,
    pub command_line: Vec<String>,
}

#[derive(Debug, Clone, PartialEq)]
pub struct OpenConnection {
    pub hash: i64,
    pub uuid: Uuid,
    pub agent: Uuid,
    pub timestamp: String,
    pub protocol: Protocol,
    pub source: Ipv4,
    pub destination: Ipv4,
    pub source_port: u16,
    pub destination_port: u16,
    pub username: String,
    pub uid: u16,
    pub program_details: Option<Program>,
}

#[derive(Debug, Clone, PartialEq)]
pub struct CloseConnection {
    pub hash: i64,
    pub agent: Uuid,
    pub uuid: Option<Uuid>,
    pub timestamp: String,
    pub protocol: Protocol,
    pub source: Ipv4,
    pub destination: Ipv4,
    pub source_port: u16,
    pub destination_port: u16,
}

#[derive(Debug, Clone, PartialEq)]
pub enum Payload {
    Open(OpenConnection),
    Close(CloseConnection),
}

/// The byte sequences fed, in order, to the fingerprint hasher: the
/// protocol name, the source address octets, the source port big-endian,
/// then the destination address and port the same way.
pub open spec fn spec_fingerprint_writes(
    protocol: Seq<u8>,
    source: Ipv4,
    source_port: u16,
    destination: Ipv4,
    destination_port: u16,
) -> Seq<Seq<u8>> {
    seq![
        protocol,
        seq![source.a, source.b, source.c, source.d],
        seq![(source_port >> 8) as u8, (source_port & 0xFF) as u8],
        seq![destination.a, destination.b, destination.c, destination.d],
        seq![(destination_port >> 8) as u8, (destination_port & 0xFF) as u8],
    ]
}

/// The fingerprint of a 5-tuple: the 64-bit digest of the writes above.
/// It is a function of the 5-tuple alone, so two calls on the same tuple
/// agree.
pub open spec fn spec_fingerprint(
    protocol: Seq<u8>,
    source: Ipv4,
    source_port: u16,
    destination: Ipv4,
    destination_port: u16,
) -> u64 {
    DefaultHasher::spec_finish(
        spec_fingerprint_writes(protocol, source, source_port, destination, destination_port),
    )
}

/// The 64-bit fingerprint reinterpreted as a signed value, as it is
/// carried in payload records.
pub open spec fn spec_as_i64(n: u64) -> i64 {
    if n <= i64::MAX as u64 {
        n as i64
    } else {
        (n as int - 0x1_0000_0000_0000_0000) as i64
    }
}

/// The signed fingerprint of a payload's 5-tuple, with the protocol given
/// by its wire name.
pub open spec fn spec_payload_hash(
    protocol: Protocol,
    source: Ipv4,
    source_port: u16,
    destination: Ipv4,
    destination_port: u16,
) -> i64 {
    spec_as_i64(
        spec_fingerprint(
            vstd::utf8::encode_utf8(spec_protocol_name(protocol)),
            source,
            source_port,
            destination,
            destination_port,
        ),
    )
}

fn port_bytes(port: u16) -> (r: [u8; 2])
    ensures
        r@ == seq![(port >> 8) as u8, (port & 0xFF) as u8],
{
    proof {
        assert((port >> 8) < 256 && (port & 0xFF) < 256) by (bit_vector);
    }
    let hi: u8 = (port >> 8) as u8;
    let lo: u8 = (port & 0xFF) as u8;
    let r = [hi, lo];
    proof {
        assert(r@ =~= seq![(port >> 8) as u8, (port & 0xFF) as u8]);
    }
    r
}

/// The fingerprint that ties an Open to its Close: a digest over the
/// 5-tuple, deterministic for a given tuple on a given build.
pub fn generate_hash(
    protocol: &str,
    source: &Ipv4,
    source_port: &u16,
    destination: &Ipv4,
    destination_port: &u16,
) -> (r: u64)
    ensures
        r == spec_fingerprint(
            protocol.spec_bytes(),
            *source,
            *source_port,
            *destination,
            *destination_port,
        ),
{
    let mut s = DefaultHasher::new();
    s.write(protocol.as_bytes());
    let src = [source.a, source.b, source.c, source.d];
    s.write(src.as_slice());
    let sp = port_bytes(*source_port);
    s.write(sp.as_slice());
    let dst = [destination.a, destination.b, destination.c, destination.d];
    s.write(dst.as_slice());
    let dp = port_bytes(*destination_port);
    s.write(dp.as_slice());
    proof {
        assert(src@ =~= seq![source.a, source.b, source.c, source.d]);
        assert(dst@ =~= seq![destination.a, destination.b, destination.c, destination.d]);
        assert(s@ =~= spec_fingerprint_writes(
            protocol.spec_bytes(),
            *source,
            *source_port,
            *destination,
            *destination_port,
        ));
    }
    s.finish()
}

/// Turns the unsigned fingerprint into the signed form carried in
/// payloads, reinterpreting the bit pattern.
pub fn to_signed_hash(n: u64) -> (r: i64)
    ensures
        r == spec_as_i64(n),
{
    if n <= i64::MAX as u64 {
        n as i64
    } else {
        let m: i64 = (u64::MAX - n) as i64;
        -m - 1
    }
}

/// What the socket-table and process lookup found for an event: either no
/// matching socket row, or the row's owner and, when the process was
/// still visible, its details.
#[derive(Debug, Clone)]
pub enum Resolution {
    NoSocket,
    Socket { uid: u16, program: Option<Program> },
}

pub struct Parser {
    user_cache: UserCache,
    agent: Uuid,
}

/// The fields an Open record must carry for a given event and
/// resolution; the record's own uuid and timestamp are drawn at creation
/// and not pinned here.
pub open spec fn spec_open_fields(
    c: OpenConnection,
    agent: Uuid,
    protocol: Protocol,
    source: Ipv4,
    destination: Ipv4,
    source_port: u16,
    destination_port: u16,
    uid: u16,
    program: Option<Program>,
) -> bool {
    &&& c.hash == spec_payload_hash(protocol, source, source_port, destination, destination_port)
    &&& c.agent == agent
    &&& c.protocol == protocol
    &&& c.source == source
    &&& c.destination == destination
    &&& c.source_port == source_port
    &&& c.destination_port == destination_port
    &&& c.uid == uid
    &&& c.program_details == program
}

/// The fields a Close record must carry; its uuid is left empty for the
/// correlator to fill.
pub open spec fn spec_close_fields(
    c: CloseConnection,
    agent: Uuid,
    protocol: Protocol,
    source: Ipv4,
    destination: Ipv4,
    source_port: u16,
    destination_port: u16,
) -> bool {
    &&& c.hash == spec_payload_hash(protocol, source, source_port, destination, destination_port)
    &&& c.agent == agent
    &&& c.uuid is None
    &&& c.protocol == protocol
    &&& c.source == source
    &&& c.destination == destination
    &&& c.source_port == source_port
    &&& c.destination_port == destination_port
}

/// Relies on chrono: Utc::now().to_rfc3339() renders the current wall
/// clock in ISO-8601 form with offset. Nothing is promised of the value.
#[verifier::external_body]
fn now_rfc3339() -> String {
    chrono::Utc::now().to_rfc3339()
}

impl Parser {
    pub closed spec fn spec_agent(&self) -> Uuid {
        self.agent
    }

    /// The user names cached so far, by uid.
    pub closed spec fn spec_users(&self) -> Map<u32, Seq<char>> {
        self.user_cache.spec_names()
    }

    pub fn new(agent: Uuid) -> (r: Parser)
        ensures
            r.spec_agent() == agent,
            r.spec_users() == Map::<u32, Seq<char>>::empty(),
    {
        Parser { user_cache: UserCache::new(), agent }
    }

    /// Turns one connection event into a payload record: an event that is
    /// not TCP/UDP yields nothing; a New event yields an Open carrying
    /// the resolution's process and user; a Destroy event yields a Close
    /// with an empty uuid; an Unknown event yields nothing.
    pub fn parse(&mut self, con: Connection, resolution: Resolution) -> (r: Option<Payload>)
        ensures
            final(self).spec_agent() == old(self).spec_agent(),
            match con.details.protocol {
                ProtoDetails::IP { protocol, source_port, destination_port } => match con.state {
                    State::New => {
                        &&& match r {
                            Some(Payload::Open(c)) => {
                                &&& spec_open_fields(
                                    c,
                                    old(self).spec_agent(),
                                    protocol,
                                    con.details.source,
                                    con.details.destination,
                                    source_port,
                                    destination_port,
                                    spec_resolution_uid(resolution),
                                    spec_resolution_program(resolution),
                                )
                                &&& match resolution {
                                    Resolution::NoSocket => c.username@ == Seq::<char>::empty(),
                                    Resolution::Socket { uid, .. } => {
                                        &&& final(self).spec_users().contains_key(uid as u32)
                                        &&& c.username@ == final(self).spec_users()[uid as u32]
                                        &&& old(self).spec_users().contains_key(uid as u32)
                                            ==> c.username@ == old(self).spec_users()[uid as u32]
                                    },
                                }
                            },
                            _ => false,
                        }
                        &&& spec_users_evolved(old(self).spec_users(), final(self).spec_users())
                    },
                    State::Destroy => {
                        &&& match r {
                            Some(Payload::Close(c)) => spec_close_fields(
                                c,
                                old(self).spec_agent(),
                                protocol,
                                con.details.source,
                                con.details.destination,
                                source_port,
                                destination_port,
                            ),
                            _ => false,
                        }
                        &&& final(self).spec_users() == old(self).spec_users()
                    },
                    State::Unknown => r is None && final(self).spec_users() == old(
                        self,
                    ).spec_users(),
                },
                _ => r is None && final(self).spec_users() == old(self).spec_users(),
            },
    {
        match con.details.protocol {
            ProtoDetails::IP { protocol, source_port, destination_port } => self
                .parse_ip_connection(
                con.state,
                protocol,
                con.details.source,
                con.details.destination,
                source_port,
                destination_port,
                resolution,
            ),
            _ => None,
        }
    }

    /// Builds the payload for a TCP/UDP event once the socket-table loop
    /// has resolved it.
    pub fn parse_ip_connection(
        &mut self,
        state: State,
        protocol: Protocol,
        source: Ipv4,
        destination: Ipv4,
        source_port: u16,
        destination_port: u16,
        resolution: Resolution,
    ) -> (r: Option<Payload>)
        ensures
            final(self).spec_agent() == old(self).spec_agent(),
            match state {
                State::New => {
                    &&& match r {
                        Some(Payload::Open(c)) => {
                            &&& spec_open_fields(
                                c,
                                old(self).spec_agent(),
                                protocol,
                                source,
                                destination,
                                source_port,
                                destination_port,
                                spec_resolution_uid(resolution),
                                spec_resolution_program(resolution),
                            )
                            &&& match resolution {
                                Resolution::NoSocket => c.username@ == Seq::<char>::empty(),
                                Resolution::Socket { uid, .. } => {
                                    &&& final(self).spec_users().contains_key(uid as u32)
                                    &&& c.username@ == final(self).spec_users()[uid as u32]
                                    &&& old(self).spec_users().contains_key(uid as u32) ==> c
                                        .username@ == old(self).spec_users()[uid as u32]
                                },
                            }
                        },
                        _ => false,
                    }
                    &&& spec_users_evolved(old(self).spec_users(), final(self).spec_users())
                },
                State::Destroy => {
                    &&& match r {
                        Some(Payload::Close(c)) => spec_close_fields(
                            c,
                            old(self).spec_agent(),
                            protocol,
                            source,
                            destination,
                            source_port,
                            destination_port,
                        ),
                        _ => false,
                    }
                    &&& final(self).spec_users() == old(self).spec_users()
                },
                State::Unknown => r is None && final(self).spec_users() == old(self).spec_users(),
            },
    {
        match state {
            State::New => {
                let (uid, username, program_details) = match resolution {
                    Resolution::NoSocket => (0u16, String::new(), None),
                    Resolution::Socket { uid, program } => {
                        let name = self.user_cache.get(uid as u32);
                        (uid, name, program)
                    },
                };
                let hash = to_signed_hash(
                    generate_hash(protocol.name(), &source, &source_port, &destination, &destination_port),
                );
                let timestamp = now_rfc3339();
                let uuid = new_v4();
                Some(
                    Payload::Open(
                        OpenConnection {
                            hash,
                            uuid,
                            agent: self.agent,
                            timestamp,
                            protocol,
                            source,
                            destination,
                            source_port,
                            destination_port,
                            username,
                            uid,
                            program_details,
                        },
                    ),
                )
            },
            State::Destroy => {
                let hash = to_signed_hash(
                    generate_hash(protocol.name(), &source, &source_port, &destination, &destination_port),
                );
                let timestamp = now_rfc3339();
                Some(
                    Payload::Close(
                        CloseConnection {
                            hash,
                            uuid: None,
                            agent: self.agent,
                            timestamp,
                            protocol,
                            source,
                            destination,
                            source_port,
                            destination_port,
                        },
                    ),
                )
            },
            State::Unknown => None,
        }
    }
}

/// The uid a resolution contributes to an Open record.
pub open spec fn spec_resolution_uid(r: Resolution) -> u16 {
    match r {
        Resolution::NoSocket => 0,
        Resolution::Socket { uid, .. } => uid,
    }
}

/// The process details a resolution contributes to an Open record.
pub open spec fn spec_resolution_program(r: Resolution) -> Option<Program> {
    match r {
        Resolution::NoSocket => None,
        Resolution::Socket { program, .. } => program,
    }
}

/// How the user-name cache may change over one event: it stays as it was
/// or gains exactly one entry.
pub open spec fn spec_users_evolved(before: Map<u32, Seq<char>>, after: Map<u32, Seq<char>>) -> bool {
    after == before || exists|uid: u32, name: Seq<char>|
        !before.contains_key(uid) && after == before.insert(uid, name)
}

/// One step of the inode race.
#[derive(Debug, Clone, Copy, PartialEq, Eq, Structural)]
pub enum LookupStep {
    NoRow,
    Retry,
    Found { uid: u16, inode: u32 },
}

/// The decision after one socket-table lookup: no row means the event
/// has no visible socket and resolution stops; a row whose inode is
/// still 0 means the kernel table has not caught up yet and the lookup
/// is retried after a short sleep; a row with a nonzero inode names the
/// socket's owner.
pub fn resolve_step(row: &Option<SocketConnection>) -> (r: LookupStep)
    ensures
        match *row {
            None => r == LookupStep::NoRow,
            Some(c) => if c.inode == 0 {
                r == LookupStep::Retry
            } else {
                r == (LookupStep::Found { uid: c.uid, inode: c.inode })
            },
        },
{
    match row {
        None => LookupStep::NoRow,
        Some(c) => if c.inode == 0 {
            LookupStep::Retry
        } else {
            LookupStep::Found { uid: c.uid, inode: c.inode }
        },
    }
}

} // verus!
