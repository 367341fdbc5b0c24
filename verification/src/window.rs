//! Labels for new editor windows, made unique from the current time.

use vstd::prelude::*;
use std::time::{Duration, SystemTime, UNIX_EPOCH};
use crate::text::{decimal, push_decimal};

verus! {

#[verifier::external_type_specification]
#[verifier::external_body]
pub struct ExSystemTime(SystemTime);

/// Calls std's `SystemTime::now`; nothing is promised of the reading.
#[verifier::external_body]
fn now() -> SystemTime {
    SystemTime::now()
}

/// Calls std's `SystemTime::duration_since` with the Unix epoch, taking zero when
/// the time lies before it; nothing is promised of the duration.
#[verifier::external_body]
fn since_epoch(t: SystemTime) -> Duration {
    t.duration_since(UNIX_EPOCH).unwrap_or_default()
}

/// Calls std's `Duration::as_millis`: the whole milliseconds of a duration.
#[verifier::external_body]
fn whole_millis(d: &Duration) -> u128 {
    d.as_millis()
}

/// Calls std's `Duration::subsec_nanos`, which std documents as below one billion.
#[verifier::external_body]
fn subsec_nanos(d: &Duration) -> (n: u32)
    ensures
        n < 1_000_000_000,
{
    d.subsec_nanos()
}

/// The identifier written for a time: the milliseconds followed directly by the
/// sub-second nanoseconds, both in decimal.
pub fn unique_id_from(millis: u128, nanos: u32) -> (id: String)
    ensures
        id@ == decimal(millis as nat) + decimal(nanos as nat),
{
    let mut id = String::new();
    push_decimal(&mut id, millis);
    push_decimal(&mut id, nanos as u128);
    proof {
        assert(Seq::<char>::empty() + decimal(millis as nat) =~= decimal(millis as nat));
    }
    id
}

/// A UUID-like identifier, meant to be unique, made from the current time: the
/// milliseconds since the Unix epoch followed by the sub-second nanoseconds.
/// Uniqueness rests on the clock; nothing here promises that two calls differ.
pub fn uuid_simple() -> (id: String)
    ensures
        exists|millis: u128, nanos: u32|
            nanos < 1_000_000_000 && id@ == decimal(millis as nat) + decimal(nanos as nat),
{
    let elapsed = since_epoch(now());
    unique_id_from(whole_millis(&elapsed), subsec_nanos(&elapsed))
}

/// The label of an editor window with the given identifier.
pub fn editor_window_label(id: &str) -> (label: String)
    ensures
        label@ == "editor-"@ + id@,
{
    let mut label = String::new();
    label.append("editor-");
    label.append(id);
    proof {
        assert(Seq::<char>::empty() + "editor-"@ =~= "editor-"@);
    }
    label
}

} // verus!
