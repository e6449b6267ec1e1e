//! Drops classes of events while preserving open/close symmetry: every
//! Open dropped here leaves a memory of its fingerprint, so the matching
//! Close is dropped as well.

use vstd::prelude::*;
use std::collections::HashSet;
use crate::parser::{CloseConnection, OpenConnection, Payload};

verus! {

#[derive(Debug, Clone, Copy, PartialEq, Eq, Structural)]
pub struct FiltersConfig {
    pub non_process_connections: bool,
    pub dns_requests: bool,
    pub self_connections: bool,
}

/// Whether the filter drops an Open record: no process details while
/// `non_process_connections` is set, the agent's own pid while
/// `self_connections` is set, or a DNS destination port while
/// `dns_requests` is set.
pub open spec fn spec_drops_open(config: FiltersConfig, pid: u32, c: OpenConnection) -> bool {
    ||| (config.non_process_connections && c.program_details is None)
    ||| (config.self_connections && match c.program_details {
        Some(p) => p.pid == pid,
        None => false,
    })
    ||| (config.dns_requests && (c.destination_port == 53 || c.destination_port == 5353))
}

pub struct Filter {
    config: FiltersConfig,
    filtered: HashSet<i64>,
    pid: u32,
}

impl Filter {
    pub closed spec fn spec_config(&self) -> FiltersConfig {
        self.config
    }

    pub closed spec fn spec_pid(&self) -> u32 {
        self.pid
    }

    /// The fingerprints of Opens dropped so far whose Close has not yet
    /// been seen.
    pub closed spec fn spec_dropped(&self) -> Set<i64> {
        self.filtered@
    }

    pub fn new(config: FiltersConfig, pid: u32) -> (r: Result<Filter, String>)
        ensures
            match r {
                Ok(f) => {
                    &&& f.spec_config() == config
                    &&& f.spec_pid() == pid
                    &&& f.spec_dropped() == Set::<i64>::empty()
                },
                Err(_) => false,
            },
    {
        let f = Filter { config, pid, filtered: HashSet::new() };
        proof {
            assert(f.spec_dropped() =~= Set::<i64>::empty());
        }
        Ok(f)
    }

    /// Applies the filter to one record, returning true when the record
    /// is to be dropped. An Open is judged by `spec_drops_open` and, when
    /// dropped, remembered; a Close is dropped exactly when its
    /// fingerprint is remembered, and the memory of it is erased.
    pub fn apply(&mut self, payload: &Payload) -> (dropped: bool)
        ensures
            final(self).spec_config() == old(self).spec_config(),
            final(self).spec_pid() == old(self).spec_pid(),
            match *payload {
                Payload::Open(c) => {
                    &&& dropped == spec_drops_open(old(self).spec_config(), old(self).spec_pid(), c)
                    &&& final(self).spec_dropped() == if dropped {
                        old(self).spec_dropped().insert(c.hash)
                    } else {
                        old(self).spec_dropped()
                    }
                },
                Payload::Close(c) => {
                    &&& dropped == old(self).spec_dropped().contains(c.hash)
                    &&& final(self).spec_dropped() == old(self).spec_dropped().remove(c.hash)
                },
            },
    {
        match payload {
            Payload::Open(connection) => {
                if self.config.non_process_connections && connection.program_details.is_none() {
                    self.filtered.insert(connection.hash);
                    return true;
                }
                if self.config.self_connections {
                    if let Some(details) = &connection.program_details {
                        if details.pid == self.pid {
                            self.filtered.insert(connection.hash);
                            return true;
                        }
                    }
                }
                if self.config.dns_requests && (connection.destination_port == 53
                    || connection.destination_port == 5353) {
                    self.filtered.insert(connection.hash);
                    return true;
                }
                false
            },
            Payload::Close(connection) => {
                if self.filtered.contains(&connection.hash) {
                    self.filtered.remove(&connection.hash);
                    true
                } else {
                    proof {
                        assert(self.filtered@.remove(connection.hash) =~= self.filtered@);
                    }
                    false
                }
            },
        }
    }
}

/// Open/Close symmetry under the filter: when an Open new to the memory
/// is dropped, its fingerprint is remembered, a Close carrying the same
/// fingerprint is then dropped too, and the memory returns to its prior
/// contents and size.
pub proof fn lemma_open_close_symmetry(
    config: FiltersConfig,
    pid: u32,
    dropped: Set<i64>,
    open_c: OpenConnection,
    close_c: CloseConnection,
)
    requires
        spec_drops_open(config, pid, open_c),
        close_c.hash == open_c.hash,
        !dropped.contains(open_c.hash),
        dropped.finite(),
    ensures
        dropped.insert(open_c.hash).contains(close_c.hash),
        dropped.insert(open_c.hash).remove(close_c.hash) == dropped,
        dropped.insert(open_c.hash).remove(close_c.hash).len() == dropped.len(),
{
    assert(dropped.insert(open_c.hash).remove(close_c.hash) =~= dropped);
}

/// Self-drop: with `self_connections` set, an Open whose program carries
/// the agent's own pid is dropped.
pub proof fn lemma_self_drop(config: FiltersConfig, pid: u32, c: OpenConnection)
    requires
        config.self_connections,
        c.program_details matches Some(p) && p.pid == pid,
    ensures
        spec_drops_open(config, pid, c),
{
}

} // verus!
