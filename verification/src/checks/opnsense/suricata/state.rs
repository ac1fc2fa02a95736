//! Where the Suricata check left off in the EVE log: the identity of the log
//! file (device and inode) and the byte offset read up to.
use vstd::prelude::*;

verus! {

/// The identity and length of a log file.
pub struct LogIdentity {
    pub device: u64,
    pub inode: u64,
    pub len: u64,
}

/// The cursor kept between runs.
pub struct SuricataState {
    pub device: u64,
    pub inode: u64,
    pub offset: u64,
    pub last_timestamp: Option<String>,
    pub last_flow_id: Option<u64>,
}

impl LogIdentity {
    /// A cursor at the end of this file.
    pub fn to_state(&self) -> (r: SuricataState)
        ensures
            r.device == self.device,
            r.inode == self.inode,
            r.offset == self.len,
            r.last_timestamp is None,
            r.last_flow_id is None,
    {
        SuricataState {
            device: self.device,
            inode: self.inode,
            offset: self.len,
            last_timestamp: None,
            last_flow_id: None,
        }
    }
}

pub open spec fn matches_spec(s: SuricataState, identity: LogIdentity) -> bool {
    s.device == identity.device && s.inode == identity.inode
}

impl SuricataState {
    /// Whether the cursor belongs to this file (same device and inode).
    pub fn matches(&self, identity: &LogIdentity) -> (r: bool)
        ensures
            r == matches_spec(*self, *identity),
    {
        self.device == identity.device && self.inode == identity.inode
    }
}

} // verus!
