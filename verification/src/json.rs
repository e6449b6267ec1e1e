//! Renders payload records and tracking-server messages as single-line
//! JSON, with the exact field names and order the wire format fixes.

use vstd::prelude::*;
use vstd::string::StringExecFns;
use crate::enums::spec_protocol_name;
use crate::net::Ipv4;
use crate::parser::{CloseConnection, OpenConnection, Payload, Program};
use crate::uuid_rep::Uuid;

verus! {

/// Relies on std's String::push: appends exactly the one character.
pub assume_specification[ String::push ](s: &mut String, c: char)
    ensures
        final(s)@ == old(s)@.push(c),
;

/// The character for one digit value: `0`-`9` then lowercase `a`-`f`.
pub open spec fn spec_digit_char(d: nat) -> char
    recommends
        d < 16,
{
    if d < 10 {
        ((48 + d) as u8) as char
    } else {
        ((87 + d) as u8) as char
    }
}

fn digit_char(d: u64) -> (r: char)
    requires
        d < 16,
    ensures
        r == spec_digit_char(d as nat),
{
    if d < 10 {
        (48 + d as u8) as char
    } else {
        (87 + d as u8) as char
    }
}

/// The decimal form of a number, most significant digit first, with no
/// leading zeroes (a lone zero for 0).
pub open spec fn spec_dec_u64(n: nat) -> Seq<char>
    decreases n,
{
    if n < 10 {
        seq![spec_digit_char(n)]
    } else {
        spec_dec_u64(n / 10).push(spec_digit_char(n % 10))
    }
}

pub fn push_dec_u64(out: &mut String, n: u64)
    ensures
        final(out)@ == old(out)@ + spec_dec_u64(n as nat),
    decreases n,
{
    if n < 10 {
        out.push(digit_char(n));
        proof {
            assert(out@ =~= old(out)@ + spec_dec_u64(n as nat));
        }
    } else {
        push_dec_u64(out, n / 10);
        out.push(digit_char(n % 10));
        proof {
            assert(out@ =~= old(out)@ + spec_dec_u64(n as nat));
        }
    }
}

/// The decimal form of a signed number: a minus sign before the
/// magnitude when negative.
pub open spec fn spec_dec_i64(n: int) -> Seq<char>
    recommends
        i64::MIN <= n <= i64::MAX,
{
    if n >= 0 {
        spec_dec_u64(n as nat)
    } else {
        seq!['-'] + spec_dec_u64((-n) as nat)
    }
}

pub fn push_dec_i64(out: &mut String, n: i64)
    ensures
        final(out)@ == old(out)@ + spec_dec_i64(n as int),
{
    if n >= 0 {
        push_dec_u64(out, n as u64);
    } else {
        out.push('-');
        let m: u64 = ((-(n + 1)) as u64) + 1;
        assert(m == -(n as int));
        push_dec_u64(out, m);
        proof {
            assert(out@ =~= old(out)@ + spec_dec_i64(n as int));
        }
    }
}

/// The hexadecimal form of the low `width` digits of a number, most
/// significant first, zero-padded to exactly `width` characters.
pub open spec fn spec_hex_w(n: nat, width: nat) -> Seq<char>
    decreases width,
{
    if width == 0 {
        seq![]
    } else {
        spec_hex_w(n / 16, (width - 1) as nat).push(spec_digit_char(n % 16))
    }
}

pub fn push_hex_w(out: &mut String, n: u64, width: usize)
    ensures
        final(out)@ == old(out)@ + spec_hex_w(n as nat, width as nat),
    decreases width,
{
    if width == 0 {
        proof {
            assert(out@ =~= old(out)@ + spec_hex_w(n as nat, 0));
        }
    } else {
        push_hex_w(out, n / 16, width - 1);
        out.push(digit_char(n % 16));
        proof {
            assert(out@ =~= old(out)@ + spec_hex_w(n as nat, width as nat));
        }
    }
}

/// The canonical hyphenated form of an identifier: 32 lowercase hex
/// digits in groups of 8, 4, 4, 4 and 12.
pub open spec fn spec_uuid_chars(u: Uuid) -> Seq<char> {
    spec_hex_w((u.hi >> 32) as nat, 8) + seq!['-'] + spec_hex_w(((u.hi >> 16) & 0xFFFF) as nat, 4)
        + seq!['-'] + spec_hex_w((u.hi & 0xFFFF) as nat, 4) + seq!['-'] + spec_hex_w(
        (u.lo >> 48) as nat,
        4,
    ) + seq!['-'] + spec_hex_w((u.lo & 0xFFFF_FFFF_FFFF) as nat, 12)
}

pub fn push_uuid(out: &mut String, u: &Uuid)
    ensures
        final(out)@ == old(out)@ + spec_uuid_chars(*u),
{
    push_hex_w(out, u.hi >> 32, 8);
    out.push('-');
    push_hex_w(out, (u.hi >> 16) & 0xFFFF, 4);
    out.push('-');
    push_hex_w(out, u.hi & 0xFFFF, 4);
    out.push('-');
    push_hex_w(out, u.lo >> 48, 4);
    out.push('-');
    push_hex_w(out, u.lo & 0xFFFF_FFFF_FFFF, 12);
    proof {
        assert(out@ =~= old(out)@ + spec_uuid_chars(*u));
    }
}

/// An identifier as a JSON value: the hyphenated form in quotes.
pub open spec fn spec_uuid_json(u: Uuid) -> Seq<char> {
    seq!['"'] + spec_uuid_chars(u) + seq!['"']
}

pub fn push_uuid_json(out: &mut String, u: &Uuid)
    ensures
        final(out)@ == old(out)@ + spec_uuid_json(*u),
{
    out.push('"');
    push_uuid(out, u);
    out.push('"');
    proof {
        assert(out@ =~= old(out)@ + spec_uuid_json(*u));
    }
}

/// The dotted-quad form of an address.
pub open spec fn spec_ip_chars(ip: Ipv4) -> Seq<char> {
    spec_dec_u64(ip.a as nat) + seq!['.'] + spec_dec_u64(ip.b as nat) + seq!['.'] + spec_dec_u64(
        ip.c as nat,
    ) + seq!['.'] + spec_dec_u64(ip.d as nat)
}

pub fn push_ip(out: &mut String, ip: &Ipv4)
    ensures
        final(out)@ == old(out)@ + spec_ip_chars(*ip),
{
    push_dec_u64(out, ip.a as u64);
    out.push('.');
    push_dec_u64(out, ip.b as u64);
    out.push('.');
    push_dec_u64(out, ip.c as u64);
    out.push('.');
    push_dec_u64(out, ip.d as u64);
    proof {
        assert(out@ =~= old(out)@ + spec_ip_chars(*ip));
    }
}

/// An address as a JSON value: the dotted form in quotes.
pub open spec fn spec_ip_json(ip: Ipv4) -> Seq<char> {
    seq!['"'] + spec_ip_chars(ip) + seq!['"']
}

pub fn push_ip_json(out: &mut String, ip: &Ipv4)
    ensures
        final(out)@ == old(out)@ + spec_ip_json(*ip),
{
    out.push('"');
    push_ip(out, ip);
    out.push('"');
    proof {
        assert(out@ =~= old(out)@ + spec_ip_json(*ip));
    }
}

/// How one character appears inside a JSON string: quote and backslash
/// are escaped with a backslash, control characters as `\u00XX`, and
/// everything else stands as itself.
pub open spec fn spec_escape_char(c: char) -> Seq<char> {
    if c == '"' {
        seq!['\\', '"']
    } else if c == '\\' {
        seq!['\\', '\\']
    } else if (c as u32) < 32 {
        seq!['\\', 'u', '0', '0', spec_digit_char((c as u32 / 16) as nat), spec_digit_char(
            (c as u32 % 16) as nat,
        )]
    } else {
        seq![c]
    }
}

/// A character sequence with every character escaped as above.
pub open spec fn spec_escaped(s: Seq<char>) -> Seq<char>
    decreases s.len(),
{
    if s.len() == 0 {
        seq![]
    } else {
        spec_escaped(s.drop_last()) + spec_escape_char(s.last())
    }
}

fn push_escape_char(out: &mut String, c: char)
    ensures
        final(out)@ == old(out)@ + spec_escape_char(c),
{
    proof {
        reveal_strlit("\\\"");
        reveal_strlit("\\\\");
        reveal_strlit("\\u00");
    }
    if c == '"' {
        out.append("\\\"");
        proof {
            assert(out@ =~= old(out)@ + spec_escape_char(c));
        }
    } else if c == '\\' {
        out.append("\\\\");
        proof {
            assert(out@ =~= old(out)@ + spec_escape_char(c));
        }
    } else {
        let code: u32 = c as u32;
        if code < 32 {
            out.append("\\u00");
            out.push(digit_char((code / 16) as u64));
            out.push(digit_char((code % 16) as u64));
            proof {
                assert(out@ =~= old(out)@ + spec_escape_char(c));
            }
        } else {
            out.push(c);
            proof {
                assert(out@ =~= old(out)@ + spec_escape_char(c));
            }
        }
    }
}

/// A string as a JSON value: quoted, with its characters escaped.
pub open spec fn spec_json_string(s: Seq<char>) -> Seq<char> {
    seq!['"'] + spec_escaped(s) + seq!['"']
}

pub fn push_json_string(out: &mut String, s: &str)
    ensures
        final(out)@ == old(out)@ + spec_json_string(s@),
{
    out.push('"');
    let len: usize = s.unicode_len();
    let mut i: usize = 0;
    while i < len
        invariant
            len == s@.len(),
            i <= len,
            out@ == old(out)@ + seq!['"'] + spec_escaped(s@.take(i as int)),
        decreases len - i,
    {
        let c = s.get_char(i);
        push_escape_char(out, c);
        proof {
            assert(s@.take(i + 1 as int).drop_last() =~= s@.take(i as int));
            assert(s@.take(i + 1 as int).last() == s@[i as int]);
            assert(out@ =~= old(out)@ + seq!['"'] + spec_escaped(s@.take(i + 1 as int)));
        }
        i = i + 1;
    }
    out.push('"');
    proof {
        assert(s@.take(len as int) =~= s@);
        assert(out@ =~= old(out)@ + spec_json_string(s@));
    }
}

/// The body of a JSON array of strings: the elements in order, separated
/// by commas.
pub open spec fn spec_string_array_body(elems: Seq<Seq<char>>) -> Seq<char>
    decreases elems.len(),
{
    if elems.len() == 0 {
        seq![]
    } else if elems.len() == 1 {
        spec_json_string(elems[0])
    } else {
        spec_string_array_body(elems.drop_last()) + seq![','] + spec_json_string(elems.last())
    }
}

/// A JSON array of strings.
pub open spec fn spec_string_array(elems: Seq<Seq<char>>) -> Seq<char> {
    seq!['['] + spec_string_array_body(elems) + seq![']']
}

pub fn push_string_array(out: &mut String, elems: &Vec<String>)
    ensures
        final(out)@ == old(out)@ + spec_string_array(elems.deep_view()),
{
    out.push('[');
    let n: usize = elems.len();
    let mut i: usize = 0;
    while i < n
        invariant
            n == elems.len(),
            i <= n,
            out@ == old(out)@ + seq!['['] + spec_string_array_body(elems.deep_view().take(i as int)),
        decreases n - i,
    {
        if i > 0 {
            out.push(',');
        }
        push_json_string(out, elems[i].as_str());
        proof {
            let dv = elems.deep_view();
            assert(dv[i as int] == elems@[i as int]@);
            assert(dv.take(i + 1 as int).drop_last() =~= dv.take(i as int));
            assert(dv.take(i + 1 as int).last() == dv[i as int]);
            assert(out@ =~= old(out)@ + seq!['['] + spec_string_array_body(
                dv.take(i + 1 as int),
            ));
        }
        i = i + 1;
    }
    out.push(']');
    proof {
        assert(elems.deep_view().take(n as int) =~= elems.deep_view());
        assert(out@ =~= old(out)@ + spec_string_array(elems.deep_view()));
    }
}

/// The body of a JSON array of addresses: the elements in order,
/// separated by commas.
pub open spec fn spec_ip_array_body(elems: Seq<Ipv4>) -> Seq<char>
    decreases elems.len(),
{
    if elems.len() == 0 {
        seq![]
    } else if elems.len() == 1 {
        spec_ip_json(elems[0])
    } else {
        spec_ip_array_body(elems.drop_last()) + seq![','] + spec_ip_json(elems.last())
    }
}

/// A JSON array of addresses.
pub open spec fn spec_ip_array(elems: Seq<Ipv4>) -> Seq<char> {
    seq!['['] + spec_ip_array_body(elems) + seq![']']
}

pub fn push_ip_array(out: &mut String, elems: &Vec<Ipv4>)
    ensures
        final(out)@ == old(out)@ + spec_ip_array(elems@),
{
    out.push('[');
    let n: usize = elems.len();
    let mut i: usize = 0;
    while i < n
        invariant
            n == elems.len(),
            i <= n,
            out@ == old(out)@ + seq!['['] + spec_ip_array_body(elems@.take(i as int)),
        decreases n - i,
    {
        if i > 0 {
            out.push(',');
        }
        push_ip_json(out, &elems[i]);
        proof {
            assert(elems@.take(i + 1 as int).drop_last() =~= elems@.take(i as int));
            assert(elems@.take(i + 1 as int).last() == elems@[i as int]);
            assert(out@ =~= old(out)@ + seq!['['] + spec_ip_array_body(elems@.take(i + 1 as int)));
        }
        i = i + 1;
    }
    out.push(']');
    proof {
        assert(elems@.take(n as int) =~= elems@);
        assert(out@ =~= old(out)@ + spec_ip_array(elems@));
    }
}

/// The JSON object for a program record: inode, pid, process name, and
/// command line, in that order.
pub open spec fn spec_program_json(p: Program) -> Seq<char> {
    "{\"inode\":"@ + spec_dec_u64(p.inode as nat) + ",\"pid\":"@ + spec_dec_u64(p.pid as nat)
        + ",\"process_name\":"@ + spec_json_string(p.process_name@) + ",\"command_line\":"@
        + spec_string_array(p.command_line.deep_view()) + "}"@
}

pub fn push_program(out: &mut String, p: &Program)
    ensures
        final(out)@ == old(out)@ + spec_program_json(*p),
{
    out.append("{\"inode\":");
    push_dec_u64(out, p.inode as u64);
    out.append(",\"pid\":");
    push_dec_u64(out, p.pid as u64);
    out.append(",\"process_name\":");
    push_json_string(out, p.process_name.as_str());
    out.append(",\"command_line\":");
    push_string_array(out, &p.command_line);
    out.append("}");
    proof {
        assert(out@ =~= old(out)@ + spec_program_json(*p));
    }
}

/// The JSON line for an Open record, with exactly the fields hash, uuid,
/// agent, timestamp, protocol, source, destination, source_port,
/// destination_port, username, uid and program_details, in that order.
pub open spec fn spec_open_json(c: OpenConnection) -> Seq<char> {
    "{\"hash\":"@ + spec_dec_i64(c.hash as int) + ",\"uuid\":"@ + spec_uuid_json(c.uuid)
        + ",\"agent\":"@ + spec_uuid_json(c.agent) + ",\"timestamp\":"@ + spec_json_string(
        c.timestamp@,
    ) + ",\"protocol\":"@ + spec_json_string(spec_protocol_name(c.protocol)) + ",\"source\":"@
        + spec_ip_json(c.source) + ",\"destination\":"@ + spec_ip_json(c.destination)
        + ",\"source_port\":"@ + spec_dec_u64(c.source_port as nat) + ",\"destination_port\":"@
        + spec_dec_u64(c.destination_port as nat) + ",\"username\":"@ + spec_json_string(
        c.username@,
    ) + ",\"uid\":"@ + spec_dec_u64(c.uid as nat) + ",\"program_details\":"@ + (
    match c.program_details {
        Some(p) => spec_program_json(p),
        None => "null"@,
    }) + "}"@
}

/// Renders an Open record as its JSON line.
pub fn render_open(c: &OpenConnection) -> (r: String)
    ensures
        r@ == spec_open_json(*c),
{
    let mut out = String::new();
    out.append("{\"hash\":");
    push_dec_i64(&mut out, c.hash);
    out.append(",\"uuid\":");
    push_uuid_json(&mut out, &c.uuid);
    out.append(",\"agent\":");
    push_uuid_json(&mut out, &c.agent);
    out.append(",\"timestamp\":");
    push_json_string(&mut out, c.timestamp.as_str());
    out.append(",\"protocol\":");
    push_json_string(&mut out, c.protocol.name());
    out.append(",\"source\":");
    push_ip_json(&mut out, &c.source);
    out.append(",\"destination\":");
    push_ip_json(&mut out, &c.destination);
    out.append(",\"source_port\":");
    push_dec_u64(&mut out, c.source_port as u64);
    out.append(",\"destination_port\":");
    push_dec_u64(&mut out, c.destination_port as u64);
    out.append(",\"username\":");
    push_json_string(&mut out, c.username.as_str());
    out.append(",\"uid\":");
    push_dec_u64(&mut out, c.uid as u64);
    out.append(",\"program_details\":");
    match &c.program_details {
        Some(p) => push_program(&mut out, p),
        None => out.append("null"),
    }
    out.append("}");
    proof {
        assert(out@ =~= spec_open_json(*c));
    }
    out
}

/// The JSON line for a Close record, with exactly the fields hash, uuid,
/// agent, timestamp, protocol, source, destination, source_port and
/// destination_port, in that order; an absent uuid renders as null.
pub open spec fn spec_close_json(c: CloseConnection) -> Seq<char> {
    "{\"hash\":"@ + spec_dec_i64(c.hash as int) + ",\"uuid\":"@ + (match c.uuid {
        Some(u) => spec_uuid_json(u),
        None => "null"@,
    }) + ",\"agent\":"@ + spec_uuid_json(c.agent) + ",\"timestamp\":"@ + spec_json_string(
        c.timestamp@,
    ) + ",\"protocol\":"@ + spec_json_string(spec_protocol_name(c.protocol)) + ",\"source\":"@
        + spec_ip_json(c.source) + ",\"destination\":"@ + spec_ip_json(c.destination)
        + ",\"source_port\":"@ + spec_dec_u64(c.source_port as nat) + ",\"destination_port\":"@
        + spec_dec_u64(c.destination_port as nat) + "}"@
}

/// Renders a Close record as its JSON line.
pub fn render_close(c: &CloseConnection) -> (r: String)
    ensures
        r@ == spec_close_json(*c),
{
    let mut out = String::new();
    out.append("{\"hash\":");
    push_dec_i64(&mut out, c.hash);
    out.append(",\"uuid\":");
    match &c.uuid {
        Some(u) => push_uuid_json(&mut out, u),
        None => out.append("null"),
    }
    out.append(",\"agent\":");
    push_uuid_json(&mut out, &c.agent);
    out.append(",\"timestamp\":");
    push_json_string(&mut out, c.timestamp.as_str());
    out.append(",\"protocol\":");
    push_json_string(&mut out, c.protocol.name());
    out.append(",\"source\":");
    push_ip_json(&mut out, &c.source);
    out.append(",\"destination\":");
    push_ip_json(&mut out, &c.destination);
    out.append(",\"source_port\":");
    push_dec_u64(&mut out, c.source_port as u64);
    out.append(",\"destination_port\":");
    push_dec_u64(&mut out, c.destination_port as u64);
    out.append("}");
    proof {
        assert(out@ =~= spec_close_json(*c));
    }
    out
}

/// The JSON line for any payload record.
pub open spec fn spec_payload_json(p: Payload) -> Seq<char> {
    match p {
        Payload::Open(c) => spec_open_json(c),
        Payload::Close(c) => spec_close_json(c),
    }
}

pub fn render_payload(p: &Payload) -> (r: String)
    ensures
        r@ == spec_payload_json(*p),
{
    match p {
        Payload::Open(c) => render_open(c),
        Payload::Close(c) => render_close(c),
    }
}

} // verus!
