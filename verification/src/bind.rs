//! The parameter binder: from loosely typed values to the typed slots of a
//! prepared statement.
//!
//! The binder keeps the order and the number of the values: the value at
//! position `i` becomes the slot at position `i`, which belongs to the
//! placeholder `$(i + 1)`.

use vstd::prelude::*;
use chrono::DateTime;
use crate::value::{values, ParamValue, Value};

verus! {

/// The instant that chrono's `DateTime::parse_from_rfc3339` reads from a
/// string, as the seconds since the Unix epoch and the nanoseconds since the
/// last full second; `None` where chrono rejects the string.
pub uninterp spec fn rfc3339_instant(text: Seq<char>) -> Option<(i64, u32)>;

/// Calls chrono's `DateTime::parse_from_rfc3339` and takes `timestamp` and
/// `timestamp_subsec_nanos` of the date it returns. The contract only names
/// the result: it is a function of the string alone.
#[verifier::external_body]
fn parse_rfc3339(text: &str) -> (instant: Option<(i64, u32)>)
    ensures
        instant == rfc3339_instant(text@),
{
    match DateTime::parse_from_rfc3339(text) {
        Ok(date) => Some((date.timestamp(), date.timestamp_subsec_nanos())),
        Err(_) => None,
    }
}

/// A typed bind slot of a prepared statement.
#[derive(Debug, PartialEq, Eq)]
pub enum BoundParam {
    /// A 32-bit integer.
    Int4(i32),
    /// A double, held as its IEEE 754 bit pattern.
    Float8(u64),
    /// A timestamp with time zone: seconds since the Unix epoch, in UTC, and
    /// nanoseconds since the last full second.
    Timestamp { seconds: i64, nanos: u32 },
    /// Text.
    Text(String),
    /// A truth value.
    Bool(bool),
    /// The SQL NULL, typed as text.
    Null,
}

/// The model of a [`BoundParam`].
pub enum Bound {
    Int4(i32),
    Float8(u64),
    Timestamp { seconds: i64, nanos: u32 },
    Text(Seq<char>),
    Bool(bool),
    Null,
}

impl View for BoundParam {
    type V = Bound;

    open spec fn view(&self) -> Bound {
        match self {
            BoundParam::Int4(i) => Bound::Int4(*i),
            BoundParam::Float8(bits) => Bound::Float8(*bits),
            BoundParam::Timestamp { seconds, nanos } => Bound::Timestamp {
                seconds: *seconds,
                nanos: *nanos,
            },
            BoundParam::Text(s) => Bound::Text(s@),
            BoundParam::Bool(b) => Bound::Bool(*b),
            BoundParam::Null => Bound::Null,
        }
    }
}

/// The models of a sequence of bind slots, in order.
pub open spec fn bounds(slots: Seq<BoundParam>) -> Seq<Bound> {
    slots.map_values(|s: BoundParam| s@)
}

impl Clone for BoundParam {
    fn clone(&self) -> (copy: Self)
        ensures
            copy@ == self@,
    {
        match self {
            BoundParam::Int4(i) => BoundParam::Int4(*i),
            BoundParam::Float8(bits) => BoundParam::Float8(*bits),
            BoundParam::Timestamp { seconds, nanos } => BoundParam::Timestamp {
                seconds: *seconds,
                nanos: *nanos,
            },
            BoundParam::Text(s) => BoundParam::Text(s.clone()),
            BoundParam::Bool(b) => BoundParam::Bool(*b),
            BoundParam::Null => BoundParam::Null,
        }
    }
}

/// The slot of a value, given the instant that was read from it if it is a
/// string:
/// - an integer-valued number binds as a 32-bit integer, its low 32 bits;
/// - another number binds as a double;
/// - a string that reads as an RFC 3339 timestamp binds as a timestamp, any
///   other string as text;
/// - a truth value binds as such;
/// - the absent value, or a value of any other kind, binds as NULL.
pub open spec fn bound(value: Value, instant: Option<(i64, u32)>) -> Bound {
    match value {
        Value::Int(i) => Bound::Int4(i as i32),
        Value::Float(bits) => Bound::Float8(bits),
        Value::Text(s) => match instant {
            Some((seconds, nanos)) => Bound::Timestamp { seconds, nanos },
            None => Bound::Text(s),
        },
        Value::Bool(b) => Bound::Bool(b),
        Value::Null => Bound::Null,
        Value::Other => Bound::Null,
    }
}

/// The instant of a value: that of its text if it is a string, none otherwise.
pub open spec fn instant_of(value: Value) -> Option<(i64, u32)> {
    match value {
        Value::Text(s) => rfc3339_instant(s),
        _ => None,
    }
}

/// The slot of a value.
pub open spec fn bound_of(value: Value) -> Bound {
    bound(value, instant_of(value))
}

/// The slot of `value`, where `instant` is what was read from it as a
/// timestamp.
pub fn bind_value(value: ParamValue, instant: Option<(i64, u32)>) -> (slot: BoundParam)
    ensures
        slot@ == bound(value@, instant),
{
    match value {
        ParamValue::Int(i) => BoundParam::Int4(#[verifier::truncate] (i as i32)),
        ParamValue::Float(bits) => BoundParam::Float8(bits),
        ParamValue::Text(s) => match instant {
            Some((seconds, nanos)) => BoundParam::Timestamp { seconds, nanos },
            None => BoundParam::Text(s),
        },
        ParamValue::Bool(b) => BoundParam::Bool(b),
        ParamValue::Null => BoundParam::Null,
        ParamValue::Other => BoundParam::Null,
    }
}

/// The instant of a value: strings are tried as RFC 3339 timestamps.
pub fn read_instant(value: &ParamValue) -> (instant: Option<(i64, u32)>)
    ensures
        instant == instant_of(value@),
{
    match value {
        ParamValue::Text(s) => parse_rfc3339(s.as_str()),
        _ => None,
    }
}

/// Binds each value, in order, to the slot of its position. No position is
/// skipped and none changes place.
pub fn bind_dynamic_params(params: Vec<ParamValue>) -> (slots: Vec<BoundParam>)
    ensures
        slots@.len() == params@.len(),
        forall|i: int| 0 <= i < params@.len() ==> #[trigger] slots@[i]@ == bound_of(params@[i]@),
        bounds(slots@) == values(params@).map_values(|v: Value| bound_of(v)),
{
    let mut slots: Vec<BoundParam> = Vec::new();
    for value in it: params
        invariant
            it.seq() == params@,
            slots@.len() == it.index(),
            forall|i: int| 0 <= i < slots@.len() ==> #[trigger] slots@[i]@ == bound_of(params@[i]@),
    {
        let instant = read_instant(&value);
        slots.push(bind_value(value, instant));
    }
    assert(bounds(slots@) =~= values(params@).map_values(|v: Value| bound_of(v)));
    slots
}

} // verus!
