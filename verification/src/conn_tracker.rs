//! Records kept about the transport connections the client has used.
//!
//! Querying the operating system for live TCP statistics is platform work
//! that lives outside this library; these are the plain records it fills.

use vstd::prelude::*;

verus! {

/// A point-in-time snapshot of one TCP connection's kernel statistics.
#[derive(Debug, Clone, Copy)]
pub struct TcpStats {
    pub rtt_us: u32,
    pub rtt_var_us: u32,
    pub lost: Option<u32>,
    pub retrans: u32,
    pub total_retrans: u32,
    pub cwnd: u32,
    pub delivery_rate: Option<u64>,
}

impl Default for TcpStats {
    fn default() -> (r: Self)
        ensures
            r.rtt_us == 0,
            r.rtt_var_us == 0,
            r.lost is None,
            r.retrans == 0,
            r.total_retrans == 0,
            r.cwnd == 0,
            r.delivery_rate is None,
    {
        TcpStats {
            rtt_us: 0,
            rtt_var_us: 0,
            lost: None,
            retrans: 0,
            total_retrans: 0,
            cwnd: 0,
            delivery_rate: None,
        }
    }
}

/// One tracked connection: when it was first and last seen, both in
/// milliseconds since the epoch, how many responses arrived over it, and
/// the latest statistics snapshot, if any was taken.
#[derive(Debug, Clone)]
pub struct TrackedConnection {
    pub first_seen: u64,
    pub last_seen: u64,
    pub response_count: u64,
    pub latest_stats: Option<TcpStats>,
}

} // verus!
