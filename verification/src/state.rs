//! The correlator: remembers the uuid chosen at Open under the record's
//! fingerprint and hands it to the matching Close.

use vstd::prelude::*;
use std::collections::HashMap;
use crate::parser::{CloseConnection, Payload};
use crate::uuid_rep::Uuid;

verus! {

pub struct State {
    connections: HashMap<i64, Uuid>,
}

impl State {
    /// The uuids remembered so far, by fingerprint.
    pub closed spec fn spec_correlations(&self) -> Map<i64, Uuid> {
        self.connections@
    }

    pub fn new() -> (r: Result<State, ()>)
        ensures
            match r {
                Ok(s) => s.spec_correlations() == Map::<i64, Uuid>::empty(),
                Err(_) => false,
            },
    {
        let s = State { connections: HashMap::new() };
        proof {
            assert(s.spec_correlations() =~= Map::<i64, Uuid>::empty());
        }
        Ok(s)
    }

    /// Passes one record through the correlator. An Open is recorded
    /// under its fingerprint and forwarded unchanged. A Close takes the
    /// recorded uuid for its fingerprint, which is then forgotten; with
    /// nothing recorded, the Close keeps the uuid it carried.
    pub fn transform(&mut self, payload: Payload) -> (r: Payload)
        ensures
            match payload {
                Payload::Open(c) => {
                    &&& final(self).spec_correlations() == old(self).spec_correlations().insert(
                        c.hash,
                        c.uuid,
                    )
                    &&& r == payload
                },
                Payload::Close(c) => {
                    &&& final(self).spec_correlations() == old(self).spec_correlations().remove(
                        c.hash,
                    )
                    &&& r == Payload::Close(
                        CloseConnection {
                            uuid: if old(self).spec_correlations().contains_key(c.hash) {
                                Some(old(self).spec_correlations()[c.hash])
                            } else {
                                c.uuid
                            },
                            ..c
                        },
                    )
                },
            },
    {
        match payload {
            Payload::Open(connection) => {
                self.connections.insert(connection.hash, connection.uuid);
                Payload::Open(connection)
            },
            Payload::Close(connection) => {
                match self.connections.remove(&connection.hash) {
                    Some(uuid) => Payload::Close(CloseConnection { uuid: Some(uuid), ..connection }),
                    None => Payload::Close(connection),
                }
            },
        }
    }
}

/// Correlation preservation: when an Open with fingerprint `h` and uuid
/// `u` has been recorded, a Close carrying `h` is emitted with exactly
/// `u`, whatever was recorded before; and when nothing is recorded for
/// the Close's fingerprint, it is emitted with the empty uuid it
/// carried.
pub proof fn lemma_correlation_preservation(m: Map<i64, Uuid>, h: i64, u: Uuid, c: CloseConnection)
    requires
        c.hash == h,
        c.uuid is None,
    ensures
        ({
            let recorded = m.insert(h, u);
            let emitted = if recorded.contains_key(c.hash) {
                Some(recorded[c.hash])
            } else {
                c.uuid
            };
            emitted == Some(u)
        }),
        !m.contains_key(c.hash) ==> (if m.contains_key(c.hash) {
            Some(m[c.hash])
        } else {
            c.uuid
        }) is None,
{
}

} // verus!
