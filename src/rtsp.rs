//! The sibling RTSP listener's server object; accepting its connections is
//! left to the caller.

use vstd::prelude::*;

verus! {

/// An RTSP server; it holds no state of its own.
pub struct RtspServer {}

impl RtspServer {
    pub fn new() -> (r: RtspServer) {
        RtspServer {  }
    }
}

} // verus!
