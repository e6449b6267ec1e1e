//! The transport protocols and connection states the agent recognises,
//! and the agent's configuration record.

use vstd::prelude::*;
use crate::filters::FiltersConfig;
use crate::outputs::OutputsConfig;
use crate::uuid_rep::Uuid;

verus! {

#[derive(Debug, Clone, Copy, PartialEq, Eq, Structural)]
pub enum Protocol {
    UDP,
    TCP,
}

/// The protocol's wire name, as it appears in serialized records and in
/// the fingerprint input.
pub open spec fn spec_protocol_name(p: Protocol) -> Seq<char> {
    match p {
        Protocol::UDP => seq!['U', 'D', 'P'],
        Protocol::TCP => seq!['T', 'C', 'P'],
    }
}

impl Protocol {
    pub fn name(&self) -> (r: &'static str)
        ensures
            r@ == spec_protocol_name(*self),
    {
        proof {
            reveal_strlit("UDP");
            reveal_strlit("TCP");
        }
        match self {
            Protocol::UDP => "UDP",
            Protocol::TCP => "TCP",
        }
    }
}

#[derive(Debug, Clone, Copy, PartialEq, Eq, Structural)]
pub enum State {
    New,
    Destroy,
    Unknown,
}

/// The agent's configuration, as the loader hands it to the core.
#[derive(Debug, Clone)]
pub struct Config {
    pub directory: Option<String>,
    pub name: Option<String>,
    pub uuid: Option<Uuid>,
    pub outputs: OutputsConfig,
    pub filters: FiltersConfig,
}

} // verus!
