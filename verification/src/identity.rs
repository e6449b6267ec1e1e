//! Resolves the agent's identity: the configured name and identifier
//! win, then the persisted tuple, then a fallback drawn for the
//! occasion. Resolving twice in a row settles on the same identity.

use vstd::prelude::*;
use crate::uuid_rep::{new_v4, Uuid};

verus! {

/// The persisted identity tuple, as read from or written to the data
/// directory.
#[derive(Debug, Clone)]
pub struct NameTuple {
    pub name: Option<String>,
    pub uuid: Option<Uuid>,
}

/// The view of an optional string.
pub open spec fn spec_opt_str(o: Option<String>) -> Option<Seq<char>> {
    match o {
        Some(s) => Some(s@),
        None => None,
    }
}

/// The name identity resolution settles on: the configured one first,
/// then the stored one, then the fallback.
pub open spec fn spec_resolved_name(
    config: Option<Seq<char>>,
    stored: Option<Seq<char>>,
    fallback: Seq<char>,
) -> Seq<char> {
    match config {
        Some(n) => n,
        None => match stored {
            Some(n) => n,
            None => fallback,
        },
    }
}

/// The identifier identity resolution settles on, with the same
/// priority order.
pub open spec fn spec_resolved_uuid(
    config: Option<Uuid>,
    stored: Option<Uuid>,
    fallback: Uuid,
) -> Uuid {
    match config {
        Some(u) => u,
        None => match stored {
            Some(u) => u,
            None => fallback,
        },
    }
}

/// The deterministic core of identity resolution: the fallbacks are
/// handed in, so the result is pinned completely.
pub fn resolve_identity(
    config_name: &Option<String>,
    config_uuid: &Option<Uuid>,
    stored: &NameTuple,
    fallback_name: String,
    fallback_uuid: Uuid,
) -> (r: (String, Uuid))
    ensures
        r.0@ == spec_resolved_name(
            spec_opt_str(*config_name),
            spec_opt_str(stored.name),
            fallback_name@,
        ),
        r.1 == spec_resolved_uuid(*config_uuid, stored.uuid, fallback_uuid),
{
    let name = match config_name {
        Some(n) => n.clone(),
        None => match &stored.name {
            Some(n) => n.clone(),
            None => fallback_name,
        },
    };
    let uuid = match config_uuid {
        Some(u) => *u,
        None => match &stored.uuid {
            Some(u) => *u,
            None => fallback_uuid,
        },
    };
    (name, uuid)
}

/// Relies on rand::random_range: a uniformly drawn index below `len`.
#[verifier::external_body]
fn pick_index(len: usize) -> (r: usize)
    requires
        len > 0,
    ensures
        r < len,
{
    rand::random_range(0..len)
}

/// Resolves the agent's identity as the supervisor does at startup: the
/// fallback name is drawn uniformly from the candidates (the literal
/// `unknown` when there are none) and the fallback identifier is
/// freshly generated.
pub fn populate_identity(
    config_name: &Option<String>,
    config_uuid: &Option<Uuid>,
    stored: &NameTuple,
    names: &Vec<String>,
) -> (r: (String, Uuid))
    ensures
        r.0@ == spec_resolved_name(
            spec_opt_str(*config_name),
            spec_opt_str(stored.name),
            r.0@,
        ),
        r.1 == spec_resolved_uuid(*config_uuid, stored.uuid, r.1),
        match spec_opt_str(*config_name) {
            Some(n) => r.0@ == n,
            None => match spec_opt_str(stored.name) {
                Some(n) => r.0@ == n,
                None => if names.len() > 0 {
                    exists|i: int| 0 <= i < names@.len() && r.0@ == names@[i]@
                } else {
                    r.0@ == "unknown"@
                },
            },
        },
        match *config_uuid {
            Some(u) => r.1 == u,
            None => match stored.uuid {
                Some(u) => r.1 == u,
                None => true,
            },
        },
{
    let fallback_name = if names.len() > 0 {
        let i = pick_index(names.len());
        names[i].clone()
    } else {
        "unknown".to_owned()
    };
    let fallback_uuid = new_v4();
    resolve_identity(config_name, config_uuid, stored, fallback_name, fallback_uuid)
}

/// Identity idempotence: once an identity is resolved, resolving again
/// with the stored tuple now holding that result yields the same name
/// and identifier, whatever fallbacks the second run would draw.
pub proof fn lemma_identity_idempotent(
    config_name: Option<Seq<char>>,
    config_uuid: Option<Uuid>,
    stored_name: Option<Seq<char>>,
    stored_uuid: Option<Uuid>,
    first_fallback_name: Seq<char>,
    first_fallback_uuid: Uuid,
    second_fallback_name: Seq<char>,
    second_fallback_uuid: Uuid,
)
    ensures
        ({
            let n1 = spec_resolved_name(config_name, stored_name, first_fallback_name);
            let u1 = spec_resolved_uuid(config_uuid, stored_uuid, first_fallback_uuid);
            &&& spec_resolved_name(config_name, Some(n1), second_fallback_name) == n1
            &&& spec_resolved_uuid(config_uuid, Some(u1), second_fallback_uuid) == u1
        }),
{
}

} // verus!
