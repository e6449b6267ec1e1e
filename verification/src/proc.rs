//! The process index: which pid owns each socket inode, rebuilt from a
//! scan of the process table that the caller supplies.

use vstd::prelude::*;
use std::collections::HashMap;

verus! {

/// The index the scanned pairs build, in order: a later pair wins, so an
/// inode maps to at most one pid.
pub open spec fn spec_index_of(entries: Seq<(u32, i32)>) -> Map<u32, i32>
    decreases entries.len(),
{
    if entries.len() == 0 {
        Map::empty()
    } else {
        spec_index_of(entries.drop_last()).insert(entries.last().0, entries.last().1)
    }
}

pub struct Proc {
    map: HashMap<u32, i32>,
}

impl Proc {
    /// The pid recorded for each socket inode in the current snapshot.
    pub closed spec fn spec_index(&self) -> Map<u32, i32> {
        self.map@
    }

    pub fn new() -> (r: Proc)
        ensures
            r.spec_index() == Map::<u32, i32>::empty(),
    {
        let r = Proc { map: HashMap::new() };
        proof {
            assert(r.spec_index() =~= Map::<u32, i32>::empty());
        }
        r
    }

    /// Replaces the snapshot with the index the scanned pairs build.
    pub fn update(&mut self, entries: &Vec<(u32, i32)>)
        ensures
            final(self).spec_index() == spec_index_of(entries@),
    {
        let mut map: HashMap<u32, i32> = HashMap::new();
        let n: usize = entries.len();
        proof {
            assert(map@ =~= Map::<u32, i32>::empty());
            assert(entries@.take(0) =~= Seq::<(u32, i32)>::empty());
        }
        let mut i: usize = 0;
        while i < n
            invariant
                i <= n,
                n == entries.len(),
                map@ == spec_index_of(entries@.take(i as int)),
            decreases n - i,
        {
            let entry = entries[i];
            map.insert(entry.0, entry.1);
            proof {
                assert(entries@.take(i + 1).drop_last() =~= entries@.take(i as int));
                assert(entries@.take(i + 1).last() == entries@[i as int]);
            }
            i = i + 1;
        }
        proof {
            assert(entries@.take(n as int) =~= entries@);
        }
        self.map = map;
    }

    /// The pid recorded for the inode, if any.
    pub fn get(&self, inode: u32) -> (r: Option<i32>)
        ensures
            match r {
                Some(pid) => self.spec_index().contains_key(inode)
                    && pid == self.spec_index()[inode],
                None => !self.spec_index().contains_key(inode),
            },
    {
        match self.map.get(&inode) {
            Some(pid) => Some(*pid),
            None => None,
        }
    }
}

} // verus!
