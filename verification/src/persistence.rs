//! The shape of the flat-file cache of previously fetched users and
//! schedules. Reading and writing the file, and the remote refresh, are
//! plain I/O and live with the surrounding command-line tool.

use vstd::prelude::*;

use crate::client::{Schedule, User};

verus! {

/// The on-disk cache: the fetched users and schedules, and when they were
/// last refreshed (seconds since the epoch).
pub struct Serialized {
    pub users: Vec<User>,
    pub schedules: Vec<Schedule>,
    pub updated_at: i64,
}

impl Serialized {
    /// An empty cache, holding nothing and never refreshed.
    pub fn empty() -> (s: Serialized)
        ensures
            s.users@ == Seq::<User>::empty(),
            s.schedules@ == Seq::<Schedule>::empty(),
            s.updated_at == 0,
    {
        Serialized { users: Vec::new(), schedules: Vec::new(), updated_at: 0 }
    }
}

} // verus!
