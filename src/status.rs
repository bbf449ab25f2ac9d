use vstd::prelude::*;

use crate::text::{decimal, json_escape, push_decimal, push_json_escaped, push_zero_padded, zero_padded};

verus! {

/// A point in time, as seconds and nanoseconds since the Unix epoch.
#[derive(Clone, Copy, Debug, PartialEq, Eq, Structural)]
pub struct Timestamp {
    pub secs: u64,
    pub nanos: u32,
}

/// The outcome of checking one address.
///
/// `action_status` is `Ok(code)` when a response was received, whatever its
/// code, and `Err(message)` when every attempt failed in transport; the message
/// describes the last failure. `response_ms` and `timestamp` belong to the
/// attempt that produced the outcome.
#[derive(Debug)]
pub struct WebsiteStatus {
    pub url: String,
    pub action_status: Result<u16, String>,
    pub response_ms: u64,
    pub timestamp: Timestamp,
}

/// `secs.nnnnnnnnn`: seconds, a point, and nanoseconds on at least nine digits.
pub open spec fn timestamp_text(t: Timestamp) -> Seq<char> {
    decimal(t.secs as nat) + "."@ + zero_padded(t.nanos as nat, 9)
}

/// `HTTP <code>` for a response, `ERROR <message>` for a transport failure.
pub open spec fn outcome_text(r: Result<u16, String>) -> Seq<char> {
    match r {
        Ok(code) => "HTTP "@ + decimal(code as nat),
        Err(e) => "ERROR "@ + e@,
    }
}

/// The live report line: `[<timestamp>] <address> — <outcome> — <latency> ms`.
pub open spec fn line_text(s: WebsiteStatus) -> Seq<char> {
    "["@ + timestamp_text(s.timestamp) + "] "@ + s.url@ + " — "@ + outcome_text(s.action_status)
        + " — "@ + decimal(s.response_ms as nat) + " ms"@
}

/// The JSON value of `status`: the code as a number, or the message as a string.
pub open spec fn status_json(r: Result<u16, String>) -> Seq<char> {
    match r {
        Ok(code) => decimal(code as nat),
        Err(e) => "\""@ + json_escape(e@) + "\""@,
    }
}

/// The JSON object `{"url":..,"status":..,"rt_ms":..,"ts":..}` of one record.
pub open spec fn json_text(s: WebsiteStatus) -> Seq<char> {
    "{\"url\":\""@ + json_escape(s.url@) + "\",\"status\":"@ + status_json(s.action_status)
        + ",\"rt_ms\":"@ + decimal(s.response_ms as nat) + ",\"ts\":"@
        + decimal(s.timestamp.secs as nat) + "}"@
}

impl WebsiteStatus {
    /// Renders the record as one line of live output.
    pub fn to_line(&self) -> (r: String)
        ensures
            r@ == line_text(*self),
    {
        let mut out = String::new();
        out.append("[");
        push_decimal(&mut out, self.timestamp.secs);
        out.append(".");
        push_zero_padded(&mut out, self.timestamp.nanos as u64, 9);
        out.append("] ");
        out.append(self.url.as_str());
        out.append(" — ");
        match &self.action_status {
            Ok(code) => {
                out.append("HTTP ");
                push_decimal(&mut out, *code as u64);
            },
            Err(e) => {
                out.append("ERROR ");
                out.append(e.as_str());
            },
        }
        out.append(" — ");
        push_decimal(&mut out, self.response_ms);
        out.append(" ms");
        assert(out@ =~= line_text(*self));
        out
    }

    /// Renders the record as one element of the JSON report.
    pub fn to_json(&self) -> (r: String)
        ensures
            r@ == json_text(*self),
    {
        let mut out = String::new();
        out.append("{\"url\":\"");
        push_json_escaped(&mut out, self.url.as_str());
        out.append("\",\"status\":");
        match &self.action_status {
            Ok(code) => {
                push_decimal(&mut out, *code as u64);
            },
            Err(e) => {
                out.append("\"");
                push_json_escaped(&mut out, e.as_str());
                out.append("\"");
            },
        }
        out.append(",\"rt_ms\":");
        push_decimal(&mut out, self.response_ms);
        out.append(",\"ts\":");
        push_decimal(&mut out, self.timestamp.secs);
        out.append("}");
        assert(out@ =~= json_text(*self));
        out
    }
}

} // verus!
