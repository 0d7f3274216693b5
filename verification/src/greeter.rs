//! What the Greeter server answers and the client asks, and the throughput
//! meter that the server keeps over the replies of its streaming method.

use vstd::prelude::*;
use crate::message::{HelloReply, HelloRequest};

verus! {

/// The number of replies between two throughput reports.
pub const MSG_PER_INSPECT: usize = 1000000;

/// The server's reply to a request: "hello, " followed by the name.
pub fn req_to_resp(req: &HelloRequest) -> (reply: HelloReply)
    ensures
        reply.reply@ == "hello, "@ + req.name@,
{
    let mut text = String::from_str("hello, ");
    text.append(req.name.as_str());
    HelloReply { reply: text }
}

/// The request that the client sends: one that greets `name`.
pub fn new_request(name: String) -> (req: HelloRequest)
    ensures
        req.name == name,
{
    HelloRequest { name }
}

/// The count of replies the streaming method has passed on, and the time of
/// the last throughput report, in milliseconds since the stream began (0
/// before the first).
pub struct ThroughputMeter {
    pub count: usize,
    pub last_report_ms: u64,
}

impl ThroughputMeter {
    /// A meter that has counted nothing and reported nothing.
    pub fn new() -> (m: ThroughputMeter)
        ensures
            m.count == 0,
            m.last_report_ms == 0,
    {
        ThroughputMeter { count: 0, last_report_ms: 0 }
    }

    /// Counts one more reply (the count wraps past `usize::MAX`), and tells
    /// whether it is time for a report: whether the count before it was a
    /// multiple of `MSG_PER_INSPECT`.
    pub fn observe(&mut self) -> (report_due: bool)
        ensures
            final(self).count == if old(self).count == usize::MAX {
                0
            } else {
                old(self).count + 1
            },
            final(self).last_report_ms == old(self).last_report_ms,
            report_due == (old(self).count % MSG_PER_INSPECT == 0),
    {
        let c = self.count;
        self.count = c.wrapping_add(1);
        c % MSG_PER_INSPECT == 0
    }

    /// Records a report made at `now_ms` and gives the milliseconds since the
    /// last report, or `None` for the first one. Time must not go back
    /// between reports.
    pub fn record(&mut self, now_ms: u64) -> (elapsed_ms: Option<u64>)
        requires
            old(self).last_report_ms <= now_ms,
        ensures
            final(self).last_report_ms == now_ms,
            final(self).count == old(self).count,
            elapsed_ms == if old(self).last_report_ms == 0 {
                None
            } else {
                Some((now_ms - old(self).last_report_ms) as u64)
            },
    {
        let old_ts = self.last_report_ms;
        self.last_report_ms = now_ms;
        if old_ts != 0 {
            Some(now_ms - old_ts)
        } else {
            None
        }
    }
}

/// Once a reply is due a report, the next one that is due comes exactly
/// `MSG_PER_INSPECT` replies later (while the count does not wrap).
pub proof fn lemma_report_interval(count: usize, later: usize)
    requires
        count % MSG_PER_INSPECT == 0,
        count + later <= usize::MAX,
    ensures
        ((count + later) % (MSG_PER_INSPECT as int) == 0) <==> (later % MSG_PER_INSPECT == 0),
{
    let m = MSG_PER_INSPECT as int;
    assert(((count as int + later as int) % m == 0) <==> ((later as int) % m == 0)) by (nonlinear_arith)
        requires
            (count as int) % m == 0,
            m == 1000000,
            count >= 0,
            later >= 0,
    ;
}

} // verus!
