//! Parses the kernel's socket-table text (`/proc/net/tcp`, `/proc/net/udp`)
//! and keeps the rows in a map indexed by both the local and the remote
//! endpoint, so a lookup may come from either side of the connection.

use vstd::prelude::*;
use vstd::string::StrSliceExecFns;
use std::collections::HashMap;
use crate::enums::Protocol;
use crate::net::{ipv4_from_proc, spec_ipv4_from_proc, Ipv4};

verus! {

/// One row of the kernel socket table.
#[derive(Debug, Clone, Copy, PartialEq, Eq, Structural)]
pub struct SocketConnection {
    pub local_address: Ipv4,
    pub local_port: u16,
    pub remote_address: Ipv4,
    pub remote_port: u16,
    pub uid: u16,
    pub inode: u32,
}

/// Why a socket-table refresh failed: a numeric column that does not
/// parse in its radix and range.
#[derive(Debug, Clone, Copy, PartialEq, Eq, Structural)]
pub enum RowError {
    BadNumber,
}

// ---------------------------------------------------------------------
// Character-level helpers.
// ---------------------------------------------------------------------

/// The first position at or after `from` holding a space, or the length
/// when there is none.
pub open spec fn spec_space_from(s: Seq<char>, from: int) -> int
    recommends
        0 <= from <= s.len(),
    decreases s.len() - from
        when 0 <= from <= s.len()
{
    if from >= s.len() {
        s.len() as int
    } else if s[from] == ' ' {
        from
    } else {
        spec_space_from(s, from + 1)
    }
}

/// The first position at or after `from` holding anything but a space,
/// or the length when there is none.
pub open spec fn spec_nonspace_from(s: Seq<char>, from: int) -> int
    recommends
        0 <= from <= s.len(),
    decreases s.len() - from
        when 0 <= from <= s.len()
{
    if from >= s.len() {
        s.len() as int
    } else if s[from] != ' ' {
        from
    } else {
        spec_nonspace_from(s, from + 1)
    }
}

/// The first position at or after `from` holding a colon, or the length
/// when there is none.
pub open spec fn spec_colon_from(s: Seq<char>, from: int) -> int
    recommends
        0 <= from <= s.len(),
    decreases s.len() - from
        when 0 <= from <= s.len()
{
    if from >= s.len() {
        s.len() as int
    } else if s[from] == ':' {
        from
    } else {
        spec_colon_from(s, from + 1)
    }
}

pub proof fn lemma_space_from_bounds(s: Seq<char>, from: int)
    requires
        0 <= from <= s.len(),
    ensures
        from <= spec_space_from(s, from) <= s.len(),
    decreases s.len() - from,
{
    if from < s.len() && s[from] != ' ' {
        lemma_space_from_bounds(s, from + 1);
    }
}

pub proof fn lemma_nonspace_from_bounds(s: Seq<char>, from: int)
    requires
        0 <= from <= s.len(),
    ensures
        from <= spec_nonspace_from(s, from) <= s.len(),
        spec_nonspace_from(s, from) < s.len() ==> s[spec_nonspace_from(s, from)] != ' ',
    decreases s.len() - from,
{
    if from < s.len() && s[from] == ' ' {
        lemma_nonspace_from_bounds(s, from + 1);
    }
}

fn space_from(s: &str, from: usize) -> (r: usize)
    requires
        from <= s@.len(),
    ensures
        r == spec_space_from(s@, from as int),
        from <= r <= s@.len(),
{
    let len: usize = s.unicode_len();
    let mut k: usize = from;
    while k < len
        invariant
            from <= k <= len,
            len == s@.len(),
            spec_space_from(s@, from as int) == spec_space_from(s@, k as int),
        decreases len - k,
    {
        let c = s.get_char(k);
        if c == ' ' {
            proof {
                assert(spec_space_from(s@, k as int) == k);
            }
            return k;
        }
        proof {
            assert(spec_space_from(s@, k as int) == spec_space_from(s@, k + 1));
        }
        k = k + 1;
    }
    proof {
        assert(spec_space_from(s@, k as int) == s@.len());
    }
    k
}

fn nonspace_from(s: &str, from: usize) -> (r: usize)
    requires
        from <= s@.len(),
    ensures
        r == spec_nonspace_from(s@, from as int),
        from <= r <= s@.len(),
{
    let len: usize = s.unicode_len();
    let mut k: usize = from;
    while k < len
        invariant
            from <= k <= len,
            len == s@.len(),
            spec_nonspace_from(s@, from as int) == spec_nonspace_from(s@, k as int),
        decreases len - k,
    {
        let c = s.get_char(k);
        if c != ' ' {
            proof {
                assert(spec_nonspace_from(s@, k as int) == k);
            }
            return k;
        }
        proof {
            assert(spec_nonspace_from(s@, k as int) == spec_nonspace_from(s@, k + 1));
        }
        k = k + 1;
    }
    proof {
        assert(spec_nonspace_from(s@, k as int) == s@.len());
    }
    k
}

fn colon_from(s: &str, from: usize) -> (r: usize)
    requires
        from <= s@.len(),
    ensures
        r == spec_colon_from(s@, from as int),
        from <= r <= s@.len(),
{
    let len: usize = s.unicode_len();
    let mut k: usize = from;
    while k < len
        invariant
            from <= k <= len,
            len == s@.len(),
            spec_colon_from(s@, from as int) == spec_colon_from(s@, k as int),
        decreases len - k,
    {
        let c = s.get_char(k);
        if c == ':' {
            proof {
                assert(spec_colon_from(s@, k as int) == k);
            }
            return k;
        }
        proof {
            assert(spec_colon_from(s@, k as int) == spec_colon_from(s@, k + 1));
        }
        k = k + 1;
    }
    proof {
        assert(spec_colon_from(s@, k as int) == s@.len());
    }
    k
}

// ---------------------------------------------------------------------
// Tokenisation: maximal runs of non-space characters.
// ---------------------------------------------------------------------

/// The whitespace-separated tokens of `s` from position `from` on:
/// maximal nonempty runs of non-space characters, in order.
pub open spec fn spec_tokens_from(s: Seq<char>, from: int) -> Seq<Seq<char>>
    recommends
        0 <= from <= s.len(),
    decreases s.len() - from
        when 0 <= from <= s.len()
        via spec_tokens_from_decreases
{
    let start = spec_nonspace_from(s, from);
    if start >= s.len() {
        seq![]
    } else {
        let end = spec_space_from(s, start);
        seq![s.subrange(start, end)] + spec_tokens_from(s, end)
    }
}

#[via_fn]
proof fn spec_tokens_from_decreases(s: Seq<char>, from: int) {
    lemma_nonspace_from_bounds(s, from);
    let start = spec_nonspace_from(s, from);
    if start < s.len() {
        lemma_space_from_bounds(s, start + 1);
        assert(spec_space_from(s, start) == spec_space_from(s, start + 1));
    }
}

/// The tokens of a whole line.
pub open spec fn spec_tokens(s: Seq<char>) -> Seq<Seq<char>> {
    spec_tokens_from(s, 0)
}

/// Splits a line into its whitespace-separated tokens, empty ones
/// dropped.
pub fn tokenize(s: &str) -> (r: Vec<String>)
    ensures
        r.deep_view() == spec_tokens(s@),
{
    let len: usize = s.unicode_len();
    let mut out: Vec<String> = Vec::new();
    let mut pos: usize = 0;
    loop
        invariant
            pos <= len,
            len == s@.len(),
            spec_tokens(s@) == out.deep_view() + spec_tokens_from(s@, pos as int),
        ensures
            out.deep_view() == spec_tokens(s@),
        decreases len - pos,
    {
        let start = nonspace_from(s, pos);
        if start == len {
            proof {
                assert(spec_tokens_from(s@, pos as int) =~~= Seq::<Seq<char>>::empty());
                assert(spec_tokens(s@) =~~= out.deep_view());
            }
            break;
        }
        proof {
            lemma_nonspace_from_bounds(s@, pos as int);
            lemma_space_from_bounds(s@, start + 1);
            assert(spec_space_from(s@, start as int) == spec_space_from(s@, start + 1));
        }
        let end = space_from(s, start);
        let ghost prev = out.deep_view();
        let token = s.substring_char(start, end).to_owned();
        out.push(token);
        proof {
            assert(out.deep_view() =~~= prev.push(s@.subrange(start as int, end as int)));
            assert(spec_tokens_from(s@, pos as int) =~~= seq![
                s@.subrange(start as int, end as int),
            ] + spec_tokens_from(s@, end as int));
            assert(spec_tokens(s@) =~~= out.deep_view() + spec_tokens_from(s@, end as int));
        }
        pos = end;
    }
    out
}

// ---------------------------------------------------------------------
// Numbers.
// ---------------------------------------------------------------------

/// Whether the character is a digit of the radix; radix 16 accepts both
/// letter cases.
pub open spec fn spec_is_digit(c: char, radix: nat) -> bool {
    let v = c as u32;
    ||| (48 <= v <= 57)
    ||| (radix == 16 && (97 <= v <= 102 || 65 <= v <= 70))
}

/// The numeric value of a digit character.
pub open spec fn spec_digit_value(c: char) -> nat {
    let v = c as u32;
    if 48 <= v <= 57 {
        (v - 48) as nat
    } else if 97 <= v <= 102 {
        (v - 87) as nat
    } else if 65 <= v <= 70 {
        (v - 55) as nat
    } else {
        0
    }
}

/// The value of a digit string in the radix, most significant first.
pub open spec fn spec_num_val(s: Seq<char>, radix: nat) -> nat
    decreases s.len(),
{
    if s.len() == 0 {
        0
    } else {
        spec_num_val(s.drop_last(), radix) * radix + spec_digit_value(s.last())
    }
}

/// Whether the string is a well-formed number of the radix whose value
/// fits below the bound: nonempty, all digits, value at most `max`.
pub open spec fn spec_valid_num(s: Seq<char>, radix: nat, max: nat) -> bool {
    &&& s.len() > 0
    &&& forall|i: int| 0 <= i < s.len() ==> spec_is_digit(s[i], radix)
    &&& spec_num_val(s, radix) <= max
}

proof fn lemma_num_val_monotone(s: Seq<char>, i: int, radix: nat)
    requires
        0 <= i <= s.len(),
        radix >= 1,
    ensures
        spec_num_val(s.take(i), radix) <= spec_num_val(s, radix),
    decreases s.len() - i,
{
    if i < s.len() {
        assert(s.take(i + 1).drop_last() =~= s.take(i));
        assert(spec_num_val(s.take(i + 1), radix) == spec_num_val(s.take(i), radix) * radix
            + spec_digit_value(s.take(i + 1).last()));
        assert(spec_num_val(s.take(i), radix) * radix >= spec_num_val(s.take(i), radix) * 1)
            by (nonlinear_arith)
            requires
                radix >= 1,
        ;
        lemma_num_val_monotone(s, i + 1, radix);
        assert(s.take(s.len() as int) =~= s);
    } else {
        assert(s.take(i) =~= s);
    }
}

fn digit_val(c: char, radix: u64) -> (r: Option<u64>)
    requires
        radix == 10 || radix == 16,
    ensures
        match r {
            Some(d) => spec_is_digit(c, radix as nat) && d == spec_digit_value(c) && d < radix,
            None => !spec_is_digit(c, radix as nat),
        },
{
    let v: u32 = c as u32;
    if 48 <= v && v <= 57 {
        Some((v - 48) as u64)
    } else if radix == 16 && 97 <= v && v <= 102 {
        Some((v - 87) as u64)
    } else if radix == 16 && 65 <= v && v <= 70 {
        Some((v - 55) as u64)
    } else {
        None
    }
}

/// Parses a number of the radix, rejecting anything that is empty, holds
/// a non-digit, or exceeds `max`.
pub fn parse_num(s: &str, radix: u64, max: u64) -> (r: Option<u64>)
    requires
        radix == 10 || radix == 16,
        max <= 0xFFFF_FFFF,
    ensures
        match r {
            Some(v) => spec_valid_num(s@, radix as nat, max as nat) && v == spec_num_val(
                s@,
                radix as nat,
            ),
            None => !spec_valid_num(s@, radix as nat, max as nat),
        },
{
    let len: usize = s.unicode_len();
    if len == 0 {
        return None;
    }
    let mut acc: u64 = 0;
    let mut i: usize = 0;
    while i < len
        invariant
            i <= len,
            len == s@.len(),
            radix == 10 || radix == 16,
            max <= 0xFFFF_FFFF,
            forall|j: int| 0 <= j < i ==> spec_is_digit(s@[j], radix as nat),
            acc == spec_num_val(s@.take(i as int), radix as nat),
            acc <= max,
        decreases len - i,
    {
        let c = s.get_char(i);
        let d = match digit_val(c, radix) {
            Some(d) => d,
            None => {
                return None;
            },
        };
        proof {
            assert(acc * radix + d <= 0xFFFF_FFFF * 16 + 15) by (nonlinear_arith)
                requires
                    acc <= 0xFFFF_FFFF,
                    radix <= 16,
                    d < radix,
            ;
            assert(s@.take(i + 1).drop_last() =~= s@.take(i as int));
        }
        let next: u64 = acc * radix + d;
        proof {
            assert(next == spec_num_val(s@.take(i + 1), radix as nat));
        }
        if next > max {
            proof {
                lemma_num_val_monotone(s@, i + 1, radix as nat);
            }
            return None;
        }
        acc = next;
        i = i + 1;
    }
    proof {
        assert(s@.take(len as int) =~= s@);
    }
    Some(acc)
}

// ---------------------------------------------------------------------
// Endpoint columns.
// ---------------------------------------------------------------------

/// How an address token splits at its colons: the part before the first
/// colon and the part between the first and the second (or the end);
/// nothing when the token has no colon at all.
pub open spec fn spec_split_address(s: Seq<char>) -> Option<(Seq<char>, Seq<char>)> {
    let i = spec_colon_from(s, 0);
    if i == s.len() {
        None
    } else {
        let j = spec_colon_from(s, i + 1);
        Some((s.subrange(0, i), s.subrange(i + 1, j)))
    }
}

/// Splits an `address:port` token at its colons; a token without a colon
/// yields nothing.
pub fn split_address(pair: &str) -> (r: Option<(String, String)>)
    ensures
        match r {
            Some(t) => spec_split_address(pair@) matches Some(u) && t.0@ == u.0 && t.1@ == u.1,
            None => spec_split_address(pair@) is None,
        },
{
    let len: usize = pair.unicode_len();
    let i = colon_from(pair, 0);
    if i == len {
        return None;
    }
    let j = colon_from(pair, i + 1);
    let first = pair.substring_char(0, i).to_owned();
    let second = pair.substring_char(i + 1, j).to_owned();
    Some((first, second))
}

/// What an endpoint column yields: nothing when the colon is missing
/// (the row is skipped), an error when a part does not parse, else the
/// address and port.
pub open spec fn spec_endpoint(tok: Seq<char>) -> Result<Option<(Ipv4, u16)>, RowError> {
    match spec_split_address(tok) {
        None => Ok(None),
        Some((hex_ip, hex_port)) => {
            if !spec_valid_num(hex_ip, 16, 0xFFFF_FFFF) {
                Err(RowError::BadNumber)
            } else if !spec_valid_num(hex_port, 16, 0xFFFF) {
                Err(RowError::BadNumber)
            } else {
                Ok(
                    Some(
                        (
                            spec_ipv4_from_proc(spec_num_val(hex_ip, 16) as u32),
                            spec_num_val(hex_port, 16) as u16,
                        ),
                    ),
                )
            }
        },
    }
}

fn parse_endpoint(tok: &str) -> (r: Result<Option<(Ipv4, u16)>, RowError>)
    ensures
        r == spec_endpoint(tok@),
{
    match split_address(tok) {
        None => Ok(None),
        Some((hex_ip, hex_port)) => {
            let ip_val = match parse_num(hex_ip.as_str(), 16, 0xFFFF_FFFF) {
                Some(v) => v,
                None => {
                    return Err(RowError::BadNumber);
                },
            };
            let port_val = match parse_num(hex_port.as_str(), 16, 0xFFFF) {
                Some(v) => v,
                None => {
                    return Err(RowError::BadNumber);
                },
            };
            Ok(Some((ipv4_from_proc(ip_val as u32), port_val as u16)))
        },
    }
}

// ---------------------------------------------------------------------
// Rows.
// ---------------------------------------------------------------------

/// What one socket-table row parses to. Column 1 is the local endpoint,
/// column 2 the remote endpoint, column 7 the uid (decimal), column 9
/// the inode (decimal); an absent column keeps its default. A numeric
/// column that does not parse is an error; an endpoint column without a
/// colon skips the row.
pub open spec fn spec_parse_connection(line: Seq<char>) -> Result<
    Option<SocketConnection>,
    RowError,
> {
    let toks = spec_tokens(line);
    let loc = if toks.len() > 1 {
        spec_endpoint(toks[1])
    } else {
        Ok(Some((Ipv4 { a: 127, b: 0, c: 0, d: 1 }, 0u16)))
    };
    let rem = if toks.len() > 2 {
        spec_endpoint(toks[2])
    } else {
        Ok(Some((Ipv4 { a: 127, b: 0, c: 0, d: 1 }, 0u16)))
    };
    let uid_ok = toks.len() <= 7 || spec_valid_num(toks[7], 10, 0xFFFF);
    let inode_ok = toks.len() <= 9 || spec_valid_num(toks[9], 10, 0xFFFF_FFFF);
    if loc is Err || rem is Err || !uid_ok || !inode_ok {
        Err(RowError::BadNumber)
    } else if loc.unwrap() is None || rem.unwrap() is None {
        Ok(None)
    } else {
        let l = loc.unwrap().unwrap();
        let r = rem.unwrap().unwrap();
        Ok(
            Some(
                SocketConnection {
                    local_address: l.0,
                    local_port: l.1,
                    remote_address: r.0,
                    remote_port: r.1,
                    uid: if toks.len() > 7 {
                        spec_num_val(toks[7], 10) as u16
                    } else {
                        0
                    },
                    inode: if toks.len() > 9 {
                        spec_num_val(toks[9], 10) as u32
                    } else {
                        0
                    },
                },
            ),
        )
    }
}

/// Parses one socket-table row.
pub fn parse_connection(line: &str) -> (r: Result<Option<SocketConnection>, RowError>)
    ensures
        r == spec_parse_connection(line@),
{
    let toks = tokenize(line);
    let n: usize = toks.len();
    proof {
        assert(spec_tokens(line@).len() == n);
    }
    let loc = if n > 1 {
        proof {
            assert(toks.deep_view()[1] == toks@[1]@);
        }
        parse_endpoint(toks[1].as_str())
    } else {
        Ok(Some((Ipv4::new(127, 0, 0, 1), 0u16)))
    };
    let rem = if n > 2 {
        proof {
            assert(toks.deep_view()[2] == toks@[2]@);
        }
        parse_endpoint(toks[2].as_str())
    } else {
        Ok(Some((Ipv4::new(127, 0, 0, 1), 0u16)))
    };
    let uid = if n > 7 {
        proof {
            assert(toks.deep_view()[7] == toks@[7]@);
        }
        match parse_num(toks[7].as_str(), 10, 0xFFFF) {
            Some(v) => Some(v as u16),
            None => None,
        }
    } else {
        Some(0u16)
    };
    let inode = if n > 9 {
        proof {
            assert(toks.deep_view()[9] == toks@[9]@);
        }
        match parse_num(toks[9].as_str(), 10, 0xFFFF_FFFF) {
            Some(v) => Some(v as u32),
            None => None,
        }
    } else {
        Some(0u32)
    };
    let loc = match loc {
        Ok(x) => x,
        Err(e) => {
            return Err(e);
        },
    };
    let rem = match rem {
        Ok(x) => x,
        Err(e) => {
            return Err(e);
        },
    };
    let uid = match uid {
        Some(x) => x,
        None => {
            return Err(RowError::BadNumber);
        },
    };
    let inode = match inode {
        Some(x) => x,
        None => {
            return Err(RowError::BadNumber);
        },
    };
    let (local_address, local_port) = match loc {
        Some(l) => l,
        None => {
            return Ok(None);
        },
    };
    let (remote_address, remote_port) = match rem {
        Some(r) => r,
        None => {
            return Ok(None);
        },
    };
    Ok(
        Some(
            SocketConnection {
                local_address,
                local_port,
                remote_address,
                remote_port,
                uid,
                inode,
            },
        ),
    )
}

// ---------------------------------------------------------------------
// The table.
// ---------------------------------------------------------------------

/// The map key for an endpoint: the address octets above the port, so
/// two endpoints share a key exactly when address and port agree.
pub open spec fn spec_endpoint_key(ip: Ipv4, port: u16) -> u64 {
    ((ip.a as int) * 0x100_0000_0000 + (ip.b as int) * 0x1_0000_0000 + (ip.c as int) * 0x100_0000
        + (ip.d as int) * 0x1_0000 + (port as int)) as u64
}

pub fn endpoint_key(ip: &Ipv4, port: u16) -> (r: u64)
    ensures
        r == spec_endpoint_key(*ip, port),
{
    (ip.a as u64) * 0x100_0000_0000 + (ip.b as u64) * 0x1_0000_0000 + (ip.c as u64) * 0x100_0000
        + (ip.d as u64) * 0x1_0000 + (port as u64)
}

/// Two endpoints share a key exactly when address and port agree, so
/// the dual-keyed table never confuses distinct endpoints.
pub proof fn lemma_endpoint_key_injective(ip1: Ipv4, port1: u16, ip2: Ipv4, port2: u16)
    requires
        spec_endpoint_key(ip1, port1) == spec_endpoint_key(ip2, port2),
    ensures
        ip1 == ip2,
        port1 == port2,
{
    assert(ip1.a == ip2.a && ip1.b == ip2.b && ip1.c == ip2.c && ip1.d == ip2.d && port1 == port2)
        by (nonlinear_arith)
        requires
            (ip1.a as int) * 0x100_0000_0000 + (ip1.b as int) * 0x1_0000_0000 + (ip1.c as int)
                * 0x100_0000 + (ip1.d as int) * 0x1_0000 + (port1 as int) == (ip2.a as int)
                * 0x100_0000_0000 + (ip2.b as int) * 0x1_0000_0000 + (ip2.c as int) * 0x100_0000
                + (ip2.d as int) * 0x1_0000 + (port2 as int),
            ip1.a < 256 && ip1.b < 256 && ip1.c < 256 && ip1.d < 256,
            ip2.a < 256 && ip2.b < 256 && ip2.c < 256 && ip2.d < 256,
            port1 < 0x1_0000 && port2 < 0x1_0000,
    ;
}

/// The double insertion one parsed row makes: the row under its local
/// endpoint and under its remote endpoint.
pub open spec fn spec_row_applied(
    m: Map<u64, SocketConnection>,
    row: Option<SocketConnection>,
) -> Map<u64, SocketConnection> {
    match row {
        None => m,
        Some(c) => m.insert(spec_endpoint_key(c.local_address, c.local_port), c).insert(
            spec_endpoint_key(c.remote_address, c.remote_port),
            c,
        ),
    }
}

/// The data rows of the kernel file: everything after the header line.
pub open spec fn spec_data_rows(lines: Seq<Seq<char>>) -> Seq<Seq<char>> {
    if lines.len() == 0 {
        seq![]
    } else {
        lines.skip(1)
    }
}

/// The table the given rows build, in order, later rows winning on key
/// collisions; an unparsable row fails the whole build.
pub open spec fn spec_table(lines: Seq<Seq<char>>) -> Result<Map<u64, SocketConnection>, RowError>
    decreases lines.len(),
{
    if lines.len() == 0 {
        Ok(Map::empty())
    } else {
        match spec_table(lines.drop_last()) {
            Err(e) => Err(e),
            Ok(m) => match spec_parse_connection(lines.last()) {
                Err(e) => Err(e),
                Ok(row) => Ok(spec_row_applied(m, row)),
            },
        }
    }
}

pub struct ProcChomper {
    protocol: Protocol,
    map: HashMap<u64, SocketConnection>,
}

impl ProcChomper {
    pub closed spec fn spec_protocol(&self) -> Protocol {
        self.protocol
    }

    /// The rows currently held, by endpoint key.
    pub closed spec fn spec_table_map(&self) -> Map<u64, SocketConnection> {
        self.map@
    }

    pub fn new(protocol: Protocol) -> (r: ProcChomper)
        ensures
            r.spec_protocol() == protocol,
            r.spec_table_map() == Map::<u64, SocketConnection>::empty(),
    {
        let r = ProcChomper { protocol, map: HashMap::new() };
        proof {
            assert(r.spec_table_map() =~= Map::<u64, SocketConnection>::empty());
        }
        r
    }

    /// Rebuilds the table from the lines of the kernel file, the header
    /// line first. On success the old table is replaced; on a parse
    /// error it is kept.
    pub fn update(&mut self, lines: &Vec<String>) -> (r: Result<(), RowError>)
        ensures
            final(self).spec_protocol() == old(self).spec_protocol(),
            match r {
                Ok(_) => {
                    &&& spec_table(spec_data_rows(lines.deep_view())) matches Ok(m)
                    &&& final(self).spec_table_map() == m
                },
                Err(e) => {
                    &&& spec_table(spec_data_rows(lines.deep_view())) == Result::<
                        Map<u64, SocketConnection>,
                        RowError,
                    >::Err(e)
                    &&& final(self).spec_table_map() == old(self).spec_table_map()
                },
            },
    {
        let mut map: HashMap<u64, SocketConnection> = HashMap::new();
        let n: usize = lines.len();
        if n == 0 {
            proof {
                assert(lines.deep_view().len() == 0);
                assert(map@ =~= Map::<u64, SocketConnection>::empty());
            }
            self.map = map;
            return Ok(());
        }
        proof {
            assert(map@ =~= Map::<u64, SocketConnection>::empty());
            assert(spec_data_rows(lines.deep_view()).take(0) =~~= Seq::<Seq<char>>::empty());
        }
        let mut i: usize = 1;
        while i < n
            invariant
                1 <= i <= n,
                n == lines.len(),
                *self == *old(self),
                spec_table(spec_data_rows(lines.deep_view()).take(i - 1)) matches Ok(m) && map@
                    == m,
            decreases n - i,
        {
            proof {
                assert(lines.deep_view()[i as int] == lines@[i as int]@);
            }
            match parse_connection(lines[i].as_str()) {
                Err(e) => {
                    proof {
                        let rows = spec_data_rows(lines.deep_view());
                        assert(rows[i - 1] == lines.deep_view()[i as int]);
                        lemma_table_err(rows, i - 1, e);
                    }
                    return Err(e);
                },
                Ok(row) => {
                    match row {
                        Some(connection) => {
                            let local_key = endpoint_key(
                                &connection.local_address,
                                connection.local_port,
                            );
                            map.insert(local_key, connection);
                            let remote_key = endpoint_key(
                                &connection.remote_address,
                                connection.remote_port,
                            );
                            map.insert(remote_key, connection);
                        },
                        None => {},
                    }
                    proof {
                        let rows = spec_data_rows(lines.deep_view());
                        assert(rows[i - 1] == lines.deep_view()[i as int]);
                        assert(rows.take(i as int).drop_last() =~~= rows.take(i - 1));
                        assert(rows.take(i as int).last() == rows[i - 1]);
                    }
                },
            }
            i = i + 1;
        }
        proof {
            assert(spec_data_rows(lines.deep_view()).take(n - 1) =~~= spec_data_rows(
                lines.deep_view(),
            ));
        }
        self.map = map;
        Ok(())
    }

    /// Looks up the row indexed under the endpoint, from whichever side
    /// of the connection it was observed.
    pub fn find(&self, address: &Ipv4, port: u16) -> (r: Option<SocketConnection>)
        ensures
            match r {
                Some(c) => self.spec_table_map().contains_key(spec_endpoint_key(*address, port))
                    && c == self.spec_table_map()[spec_endpoint_key(*address, port)],
                None => !self.spec_table_map().contains_key(spec_endpoint_key(*address, port)),
            },
    {
        let key = endpoint_key(address, port);
        match self.map.get(&key) {
            Some(connection) => Some(*connection),
            None => None,
        }
    }
}

/// A bad row anywhere makes the whole table build fail.
proof fn lemma_table_err(rows: Seq<Seq<char>>, i: int, e: RowError)
    requires
        0 <= i < rows.len(),
        spec_table(rows.take(i)) is Ok,
        spec_parse_connection(rows[i]) == Result::<Option<SocketConnection>, RowError>::Err(e),
    ensures
        spec_table(rows) == Result::<Map<u64, SocketConnection>, RowError>::Err(e),
    decreases rows.len(),
{
    if rows.len() > i + 1 {
        assert(rows.drop_last().take(i) =~~= rows.take(i));
        assert(rows.drop_last()[i] == rows[i]);
        lemma_table_err(rows.drop_last(), i, e);
    } else {
        assert(rows.take(i) =~~= rows.drop_last());
        assert(rows.last() == rows[i]);
    }
}

} // verus!
