//! Connection counters and the health-check HTTP response.

use crate::text::{decimal_string, push_str};
use vstd::prelude::*;

verus! {

/// The connection counters of the RTMP ingest. The program shares one value
/// between the RTMP handler and the HTTP servers behind a lock.
#[derive(Debug, Default)]
pub struct Metrics {
    pub total_connections: u64,
    pub active_connections: u64,
}

/// `x + 1`, wrapping around to 0 at `u64::MAX`.
pub open spec fn wrapping_inc(x: u64) -> u64 {
    if x == u64::MAX {
        0
    } else {
        (x + 1) as u64
    }
}

/// `x - 1`, wrapping around to `u64::MAX` at 0.
pub open spec fn wrapping_dec(x: u64) -> u64 {
    if x == 0 {
        u64::MAX
    } else {
        (x - 1) as u64
    }
}

impl Metrics {
    /// Both counters at zero.
    pub fn new() -> (r: Metrics)
        ensures
            r.total_connections == 0,
            r.active_connections == 0,
    {
        Metrics { total_connections: 0, active_connections: 0 }
    }

    /// A client connected. The counters wrap around at their limits.
    pub fn record_connect(&mut self)
        ensures
            final(self).total_connections == wrapping_inc(old(self).total_connections),
            final(self).active_connections == wrapping_inc(old(self).active_connections),
    {
        self.total_connections = if self.total_connections == u64::MAX {
            0
        } else {
            self.total_connections + 1
        };
        self.active_connections = if self.active_connections == u64::MAX {
            0
        } else {
            self.active_connections + 1
        };
    }

    /// A client disconnected. The counter wraps around at zero.
    pub fn record_disconnect(&mut self)
        ensures
            final(self).total_connections == old(self).total_connections,
            final(self).active_connections == wrapping_dec(old(self).active_connections),
    {
        self.active_connections = if self.active_connections == 0 {
            u64::MAX
        } else {
            self.active_connections - 1
        };
    }

    /// The connections open now.
    pub fn active(&self) -> (r: u64)
        ensures
            r == self.active_connections,
    {
        self.active_connections
    }

    /// The connections accepted since start-up.
    pub fn total(&self) -> (r: u64)
        ensures
            r == self.total_connections,
    {
        self.total_connections
    }
}

/// The JSON health report: status `OK` and both connection counters.
pub open spec fn health_body_spec(active: u64, total: u64) -> Seq<char> {
    "{\"status\":\"OK\",\"active_connections\":"@ + crate::text::decimal(active as nat)
        + ",\"total_connections\":"@ + crate::text::decimal(total as nat) + "}\n"@
}

pub fn health_body(active: u64, total: u64) -> (r: String)
    ensures
        r@ == health_body_spec(active, total),
{
    let mut r = "{\"status\":\"OK\",\"active_connections\":".to_owned();
    push_str(&mut r, decimal_string(active).as_str());
    push_str(&mut r, ",\"total_connections\":");
    push_str(&mut r, decimal_string(total).as_str());
    push_str(&mut r, "}\n");
    r
}

/// The HTTP/1.1 response that carries the JSON health `body`.
pub open spec fn health_response_spec(body: Seq<char>) -> Seq<char> {
    "HTTP/1.1 200 OK\r\nContent-Type: application/json\r\nContent-Length: "@ + crate::text::decimal(
        vstd::utf8::encode_utf8(body).len(),
    ) + "\r\nConnection: close\r\n\r\n"@ + body
}

/// Frames the JSON health `body` as a complete HTTP/1.1 response whose
/// `Content-Length` is the body's length in bytes.
pub fn health_response(body: &str) -> (r: String)
    ensures
        r@ == health_response_spec(body@),
{
    let mut r = "HTTP/1.1 200 OK\r\nContent-Type: application/json\r\nContent-Length: ".to_owned();
    let length = decimal_string(body.as_bytes().len() as u64);
    push_str(&mut r, length.as_str());
    push_str(&mut r, "\r\nConnection: close\r\n\r\n");
    push_str(&mut r, body);
    r
}

} // verus!
