//! The sink-facing side of the core: output configuration, the sink
//! interface, and the routing of serialized records to sink endpoints.

use vstd::prelude::*;
use vstd::string::StringExecFns;
use crate::identity::spec_opt_str;
use crate::json::{
    push_ip_array, push_json_string, push_uuid, push_uuid_json, spec_ip_array, spec_json_string,
    spec_uuid_chars, spec_uuid_json,
};
use crate::net::Ipv4;
use crate::uuid_rep::Uuid;

verus! {

#[derive(Debug, Clone, Copy, PartialEq, Eq, Structural)]
pub enum SyslogConfig {
    Localhost,
    TCP { address: Ipv4, port: u16 },
    UDP { address: Ipv4, port: u16 },
}

#[derive(Debug, Clone)]
pub struct OutputsConfig {
    pub syslog: Option<Vec<SyslogConfig>>,
    pub elasticsearch: Option<String>,
    pub tracking_endpoint: Option<String>,
}

/// A destination for serialized records. Sinks receive each record once,
/// already rendered, and may route opens and closes differently.
pub trait Output {
    fn process_open_connection(&mut self, message: &str);

    fn process_close_connection(&mut self, message: &str);
}

/// A serialized record on its way to the tracking server, tagged with
/// which endpoint it belongs to.
#[derive(Debug, Clone)]
pub enum MessageType {
    Open(String),
    Close(String),
}

/// Routes one record to the tracking server: an Open goes to the open
/// endpoint, a Close to the close endpoint, the body unchanged.
pub fn send_connection(open_url: &str, close_url: &str, message: MessageType) -> (r: (
    String,
    String,
))
    ensures
        match message {
            MessageType::Open(connection) => r.0@ == open_url@ && r.1 == connection,
            MessageType::Close(connection) => r.0@ == close_url@ && r.1 == connection,
        },
{
    match message {
        MessageType::Open(connection) => (open_url.to_owned(), connection),
        MessageType::Close(connection) => (close_url.to_owned(), connection),
    }
}

/// Whether the Elasticsearch sink counts an HTTP status as success: only
/// 201 Created.
pub fn elasticsearch_accepted(status: u16) -> (r: bool)
    ensures
        r == (status == 201),
{
    status == 201
}

/// Whether the tracking-server sink counts an HTTP status as success:
/// only 200 OK.
pub fn tracking_accepted(status: u16) -> (r: bool)
    ensures
        r == (status == 200),
{
    status == 200
}

/// The Elasticsearch document endpoint under the configured base.
pub fn elasticsearch_url(base: &str) -> (r: String)
    ensures
        r@ == base@ + "/_doc"@,
{
    let mut out = base.to_owned();
    out.append("/_doc");
    out
}

/// The tracking server's connection-open endpoint.
pub fn connections_open_url(base: &str) -> (r: String)
    ensures
        r@ == base@ + "/connections/open"@,
{
    let mut out = base.to_owned();
    out.append("/connections/open");
    out
}

/// The tracking server's connection-close endpoint.
pub fn connections_close_url(base: &str) -> (r: String)
    ensures
        r@ == base@ + "/connections/close"@,
{
    let mut out = base.to_owned();
    out.append("/connections/close");
    out
}

/// The tracking server's agent-online endpoint.
pub fn agents_online_url(base: &str) -> (r: String)
    ensures
        r@ == base@ + "/agents/online"@,
{
    let mut out = base.to_owned();
    out.append("/agents/online");
    out
}

/// The tracking server's per-agent interface-report endpoint.
pub fn agent_interfaces_url(base: &str, uuid: &Uuid) -> (r: String)
    ensures
        r@ == base@ + "/agents/"@ + spec_uuid_chars(*uuid) + "/interfaces"@,
{
    let mut out = base.to_owned();
    out.append("/agents/");
    push_uuid(&mut out, uuid);
    out.append("/interfaces");
    proof {
        assert(out@ =~= base@ + "/agents/"@ + spec_uuid_chars(*uuid) + "/interfaces"@);
    }
    out
}

/// The body the agent posts when it comes online: its identifier, its
/// name, and its current non-loopback interfaces, in that order; absent
/// identity parts render as null.
pub open spec fn spec_agent_online_json(
    name: Option<Seq<char>>,
    uuid: Option<Uuid>,
    interfaces: Seq<Ipv4>,
) -> Seq<char> {
    "{\"uuid\":"@ + (match uuid {
        Some(u) => spec_uuid_json(u),
        None => "null"@,
    }) + ",\"name\":"@ + (match name {
        Some(n) => spec_json_string(n),
        None => "null"@,
    }) + ",\"interfaces\":"@ + spec_ip_array(interfaces) + "}"@
}

pub fn agent_online_json(name: &Option<String>, uuid: &Option<Uuid>, interfaces: &Vec<Ipv4>) -> (r:
    String)
    ensures
        r@ == spec_agent_online_json(spec_opt_str(*name), *uuid, interfaces@),
{
    let mut out = String::new();
    out.append("{\"uuid\":");
    match uuid {
        Some(u) => push_uuid_json(&mut out, u),
        None => out.append("null"),
    }
    out.append(",\"name\":");
    match name {
        Some(n) => push_json_string(&mut out, n.as_str()),
        None => out.append("null"),
    }
    out.append(",\"interfaces\":");
    push_ip_array(&mut out, interfaces);
    out.append("}");
    proof {
        assert(out@ =~= spec_agent_online_json(spec_opt_str(*name), *uuid, interfaces@));
    }
    out
}

/// The body of the periodic interface report.
pub open spec fn spec_interfaces_json(interfaces: Seq<Ipv4>) -> Seq<char> {
    "{\"interfaces\":"@ + spec_ip_array(interfaces) + "}"@
}

pub fn interfaces_json(interfaces: &Vec<Ipv4>) -> (r: String)
    ensures
        r@ == spec_interfaces_json(interfaces@),
{
    let mut out = String::new();
    out.append("{\"interfaces\":");
    push_ip_array(&mut out, interfaces);
    out.append("}");
    proof {
        assert(out@ =~= spec_interfaces_json(interfaces@));
    }
    out
}

} // verus!
