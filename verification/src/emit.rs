//! The decisions of one iteration of the rate-controlled emission loop.
//!
//! The loop itself — dispatching each payload to the broker as a detached
//! unit of work, sleeping the fixed interval, reading the clock — is
//! outside work that the surrounding program performs; it feeds the time
//! and the elapsed-interval observation in and carries the payload, the
//! key, and any due rate report out. Everything the iteration decides is
//! here, verified.

use vstd::prelude::*;
use crate::counter::{bumped, ThroughputCounter};
use crate::json::{dec_rep, render_record, JsonValue};
use crate::payload::{generate_log, record_matches_schema};
use crate::schema::Schema;

verus! {

/// The message key of a fixed-variant record: its identifier as text.
pub fn fixed_message_key(now_secs: u64) -> (k: String)
    ensures
        k@ == dec_rep(now_secs as nat),
{
    crate::json::u64_to_string(now_secs)
}

/// The message key of every dynamic-variant record: one constant
/// placeholder, so all messages share a key. A quirk kept on purpose, not
/// a fault to mend.
pub fn dynamic_message_key() -> (k: String)
    ensures
        k@ == "log_key"@,
{
    "log_key".to_owned()
}

/// One iteration of the fixed-variant emission loop, up to its outside
/// work: the payload for the generation time `now_secs`, and the record's
/// identifier as text for the message key. The fixed variant meters no
/// throughput.
pub fn fixed_emission_step(now_secs: u64) -> (r: (String, String))
    ensures
        exists|fields: Seq<(String, JsonValue)>|
            #[trigger] crate::payload::fixed_record_ok(fields, now_secs) && r.0@ == render_record(
                fields,
            ),
        r.1@ == dec_rep(now_secs as nat),
{
    let payload = crate::payload::generate_fixed_log(now_secs);
    let key = fixed_message_key(now_secs);
    (payload, key)
}

/// One iteration of the dynamic-variant emission loop, up to its outside
/// work: generates the payload for the generation time `now_secs`, fixes
/// the constant message key, counts the attempt — before knowing whether
/// the send will succeed — and, when the caller has seen the reporting
/// interval elapse, takes the rate to report and starts the next interval.
pub fn emission_step(
    schema: &Schema,
    now_secs: u64,
    counter: &mut ThroughputCounter,
    report_due: bool,
) -> (r: (String, String, Option<usize>))
    ensures
        exists|fields: Seq<(String, JsonValue)>|
            #[trigger] record_matches_schema(fields, schema@, now_secs) && r.0@ == render_record(
                fields,
            ),
        r.1@ == "log_key"@,
        report_due ==> (r.2 matches Some(c) && c == bumped(old(counter)@) && final(counter)@ == 0),
        !report_due ==> r.2 is None && final(counter)@ == bumped(old(counter)@),
{
    let payload = generate_log(schema, now_secs);
    let key = dynamic_message_key();
    counter.increment();
    let report = if report_due {
        Some(counter.read_and_reset())
    } else {
        None
    };
    (payload, key, report)
}

} // verus!
