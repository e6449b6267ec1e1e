//! The main pipeline step: each payload runs through the filter, the
//! correlator and the serializer, and comes out as the JSON line the
//! sinks dispatch, tagged Open or Close.

use vstd::prelude::*;
use crate::filters::{spec_drops_open, Filter, FiltersConfig};
use crate::json::{render_payload, spec_close_json, spec_open_json};
use crate::parser::{CloseConnection, Payload};
use crate::state::State;
use crate::uuid_rep::Uuid;

verus! {

pub struct Pipeline {
    filter: Filter,
    state: State,
}

impl Pipeline {
    pub closed spec fn spec_config(&self) -> FiltersConfig {
        self.filter.spec_config()
    }

    pub closed spec fn spec_pid(&self) -> u32 {
        self.filter.spec_pid()
    }

    /// The filter's memory of dropped Opens.
    pub closed spec fn spec_dropped(&self) -> Set<i64> {
        self.filter.spec_dropped()
    }

    /// The correlator's memory of open connections.
    pub closed spec fn spec_correlations(&self) -> Map<i64, Uuid> {
        self.state.spec_correlations()
    }

    pub fn new(config: FiltersConfig, pid: u32) -> (r: Result<Pipeline, String>)
        ensures
            match r {
                Ok(p) => {
                    &&& p.spec_config() == config
                    &&& p.spec_pid() == pid
                    &&& p.spec_dropped() == Set::<i64>::empty()
                    &&& p.spec_correlations() == Map::<i64, Uuid>::empty()
                },
                Err(_) => false,
            },
    {
        let filter = Filter::new(config, pid)?;
        let state = match State::new() {
            Ok(s) => s,
            Err(_) => {
                return Err("unable to start the state module".to_owned());
            },
        };
        Ok(Pipeline { filter, state })
    }

    /// Runs one record through filter, correlator and serializer. A
    /// dropped record yields nothing; a forwarded one yields its JSON
    /// line and whether it is an Open.
    pub fn handle(&mut self, payload: Payload) -> (r: Option<(bool, String)>)
        ensures
            final(self).spec_config() == old(self).spec_config(),
            final(self).spec_pid() == old(self).spec_pid(),
            match payload {
                Payload::Open(c) => {
                    if spec_drops_open(old(self).spec_config(), old(self).spec_pid(), c) {
                        &&& r is None
                        &&& final(self).spec_dropped() == old(self).spec_dropped().insert(c.hash)
                        &&& final(self).spec_correlations() == old(self).spec_correlations()
                    } else {
                        &&& r matches Some(t) && t.0 == true && t.1@ == spec_open_json(c)
                        &&& final(self).spec_dropped() == old(self).spec_dropped()
                        &&& final(self).spec_correlations() == old(
                            self,
                        ).spec_correlations().insert(c.hash, c.uuid)
                    }
                },
                Payload::Close(c) => {
                    if old(self).spec_dropped().contains(c.hash) {
                        &&& r is None
                        &&& final(self).spec_dropped() == old(self).spec_dropped().remove(c.hash)
                        &&& final(self).spec_correlations() == old(self).spec_correlations()
                    } else {
                        &&& r matches Some(t) && t.0 == false && t.1@ == spec_close_json(
                            CloseConnection {
                                uuid: if old(self).spec_correlations().contains_key(c.hash) {
                                    Some(old(self).spec_correlations()[c.hash])
                                } else {
                                    c.uuid
                                },
                                ..c
                            },
                        )
                        &&& final(self).spec_dropped() == old(self).spec_dropped().remove(c.hash)
                        &&& final(self).spec_correlations() == old(
                            self,
                        ).spec_correlations().remove(c.hash)
                    }
                },
            },
    {
        let dropped = self.filter.apply(&payload);
        if dropped {
            return None;
        }
        let is_open = match &payload {
            Payload::Open(_) => true,
            Payload::Close(_) => false,
        };
        let transformed = self.state.transform(payload);
        let json = render_payload(&transformed);
        Some((is_open, json))
    }
}

} // verus!
