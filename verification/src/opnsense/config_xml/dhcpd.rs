use vstd::prelude::*;

verus! {

/// The ISC dhcpd section; only whether it is there matters, so nothing of
/// its content is kept.
pub struct DhcpdSection {}

} // verus!
