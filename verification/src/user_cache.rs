//! Lazily populated uid-to-login-name cache. A uid the system cannot
//! resolve is cached as the empty string, so a miss never fails the
//! pipeline.

use vstd::prelude::*;
use std::collections::HashMap;

verus! {

/// Relies on users::get_user_by_uid: the login name the system gives the
/// uid, if any. The result depends on the machine's user database, so
/// nothing is promised of the value.
#[verifier::external_body]
fn lookup_user_name(uid: u32) -> Option<String> {
    users::get_user_by_uid(uid).map(|u| u.name().to_string_lossy().into_owned())
}

pub struct UserCache {
    map: HashMap<u32, String>,
}

impl UserCache {
    /// The names cached so far, by uid.
    pub closed spec fn spec_names(&self) -> Map<u32, Seq<char>> {
        self.map@.map_values(|s: String| s@)
    }

    pub fn new() -> (r: UserCache)
        ensures
            r.spec_names() == Map::<u32, Seq<char>>::empty(),
    {
        let r = UserCache { map: HashMap::new() };
        proof {
            assert(r.spec_names() =~= Map::<u32, Seq<char>>::empty());
        }
        r
    }

    /// The login name for the uid: the cached one when present, otherwise
    /// whatever the system answers now (the empty string for an unknown
    /// uid), which is then cached.
    pub fn get(&mut self, uid: u32) -> (r: String)
        ensures
            old(self).spec_names().contains_key(uid) ==> {
                &&& r@ == old(self).spec_names()[uid]
                &&& final(self).spec_names() == old(self).spec_names()
            },
            !old(self).spec_names().contains_key(uid) ==> final(self).spec_names() == old(
                self,
            ).spec_names().insert(uid, r@),
            final(self).spec_names().contains_key(uid),
            r@ == final(self).spec_names()[uid],
    {
        match self.map.get(&uid) {
            Some(name) => {
                let r = name.clone();
                proof {
                    assert(self.spec_names() =~= old(self).spec_names());
                }
                r
            },
            None => {
                let name = match lookup_user_name(uid) {
                    Some(name) => name,
                    None => String::new(),
                };
                let r = name.clone();
                self.map.insert(uid, name);
                proof {
                    assert(self.spec_names() =~= old(self).spec_names().insert(uid, r@));
                }
                r
            },
        }
    }
}

} // verus!
