//! Events: json with a time, to which the sink adds where it runs.

use crate::clickhouse_sink::sink::Flushable;
use vstd::prelude::*;

verus! {

/// `serde_json::Value`, a json value.
#[verifier::external_type_specification]
#[verifier::external_body]
pub struct ExValue(serde_json::Value);

/// Whether a json value is an object.
pub uninterp spec fn json_is_object(value: serde_json::Value) -> bool;

/// The members of a json object that are strings: the string under each name.
pub uninterp spec fn json_strings(value: serde_json::Value) -> Map<Seq<char>, Seq<char>>;

/// The members of a json object that are not strings: under each name, the json text of the
/// member.
pub uninterp spec fn json_others(value: serde_json::Value) -> Map<Seq<char>, Seq<char>>;

/// The json text of a json value.
pub uninterp spec fn json_text(value: serde_json::Value) -> Seq<char>;

/// `serde_json::Value::is_object` says whether a value is an object.
pub assume_specification[ serde_json::Value::is_object ](value: &serde_json::Value) -> (found: bool)
    ensures
        found == json_is_object(*value),
;

/// `serde_json::Value`'s `clone` gives a value with the same members and the same json text.
pub assume_specification[ <serde_json::Value as Clone>::clone ](value: &serde_json::Value) -> (copy:
    serde_json::Value)
    ensures
        json_is_object(copy) == json_is_object(*value),
        json_strings(copy) == json_strings(*value),
        json_others(copy) == json_others(*value),
        json_text(copy) == json_text(*value),
;

/// Assigning through `serde_json::Value`'s `IndexMut` by a name, on an object: the object then has
/// a member of that name that is the string given, in place of whatever had the name, and its
/// other members stay as they were.
#[verifier::external_body]
fn set_string(value: &mut serde_json::Value, name: &str, text: &str)
    requires
        json_is_object(*old(value)),
    ensures
        json_is_object(*final(value)),
        json_strings(*final(value)) == json_strings(*old(value)).insert(name@, text@),
        json_others(*final(value)) == json_others(*old(value)).remove(name@),
{
    value[name] = serde_json::Value::String(text.to_string());
}

/// The `to_string` of `serde_json::Value`, which is its json text in compact form. What that text
/// is, is left to the name [`json_text`].
#[verifier::external_body]
fn text_of(value: &serde_json::Value) -> (text: String)
    ensures
        text@ == json_text(*value),
{
    value.to_string()
}

/// `time::OffsetDateTime::now_utc`, as nanoseconds since the start of 1970. Which time it is, the
/// clock decides, and is left open.
#[verifier::external_body]
fn now_utc() -> (nanos: i128) {
    time::OffsetDateTime::now_utc().unix_timestamp_nanos()
}

/// What an event is written as.
#[derive(Debug, Clone)]
pub struct EventRow {
    /// Nanoseconds since the start of 1970.
    pub timestamp: i128,
    pub data: String,
}

/// An event.
#[derive(Debug)]
pub struct Event {
    /// Nanoseconds since the start of 1970.
    pub timestamp: i128,
    pub data: serde_json::Value,
}

impl Clone for Event {
    fn clone(&self) -> (copy: Self)
        ensures
            copy.timestamp == self.timestamp,
            json_is_object(copy.data) == json_is_object(self.data),
            json_strings(copy.data) == json_strings(self.data),
            json_others(copy.data) == json_others(self.data),
            json_text(copy.data) == json_text(self.data),
    {
        Event { timestamp: self.timestamp, data: self.data.clone() }
    }
}

impl Flushable for Event {
    type Row = EventRow;

    fn table_name() -> (name: &'static str)
        ensures
            name@ == "events"@,
    {
        "events"
    }

    fn to_row(self) -> (row: EventRow)
        ensures
            row.timestamp == self.timestamp,
            row.data@ == json_text(self.data),
    {
        EventRow { timestamp: self.timestamp, data: text_of(&self.data) }
    }
}

/// Where the sink runs.
#[derive(Debug, Clone)]
pub struct EventContext {
    pub env: Option<String>,
    pub host: Option<String>,
}

/// `members` with one more string, if it is given.
pub open spec fn with_string(
    members: Map<Seq<char>, Seq<char>>,
    name: Seq<char>,
    text: Option<String>,
) -> Map<Seq<char>, Seq<char>> {
    match text {
        Some(text) => members.insert(name, text@),
        None => members,
    }
}

/// `members` without the name of a string that is given.
pub open spec fn without_given(
    members: Map<Seq<char>, Seq<char>>,
    name: Seq<char>,
    text: Option<String>,
) -> Map<Seq<char>, Seq<char>> {
    match text {
        Some(_) => members.remove(name),
        None => members,
    }
}

impl EventContext {
    /// Whether `after` is the data of an event with the context added: an object gets the members
    /// `env` and `host`, each if it is known, and anything else stays as it is.
    pub open spec fn annotates(self, before: serde_json::Value, after: serde_json::Value) -> bool {
        if json_is_object(before) {
            &&& json_is_object(after)
            &&& json_strings(after) == with_string(
                with_string(json_strings(before), "env"@, self.env),
                "host"@,
                self.host,
            )
            &&& json_others(after) == without_given(
                without_given(json_others(before), "env"@, self.env),
                "host"@,
                self.host,
            )
        } else {
            after == before
        }
    }

    /// Adds the context to the data of an event.
    pub fn annotate(&self, data: &mut serde_json::Value)
        ensures
            self.annotates(*old(data), *final(data)),
    {
        if data.is_object() {
            match &self.env {
                Some(env) => set_string(data, "env", env.as_str()),
                None => {},
            }
            match &self.host {
                Some(host) => set_string(data, "host", host.as_str()),
                None => {},
            }
        }
    }
}

/// What becomes of an event.
pub enum RecordStep {
    /// It goes through the channel that the thread remembers.
    SendCached(Event),
    /// The thread remembers the channel of the process, and the event goes through it.
    CacheAndSend(Event),
    /// Recording was not set up, so it is dropped.
    NotInitialized,
}

/// What becomes of an event, by whether the thread remembers a channel and whether the process
/// has one.
pub open spec fn record_step(event: Event, cached: bool, initialized: bool) -> RecordStep {
    if cached {
        RecordStep::SendCached(event)
    } else if initialized {
        RecordStep::CacheAndSend(event)
    } else {
        RecordStep::NotInitialized
    }
}

/// Records data with the time now.
pub fn record(
    data: serde_json::Value,
    context: Option<&EventContext>,
    cached: bool,
    initialized: bool,
) -> (step: RecordStep)
    ensures
        exists|event: Event|
            {
                &&& #[trigger] is_event_of(event, data, context)
                &&& step == record_step(event, cached, initialized)
            },
{
    record_with_time(data, now_utc(), context, cached, initialized)
}

/// Whether an event holds the data with the context added, if there is one.
pub open spec fn is_event_of(
    event: Event,
    data: serde_json::Value,
    context: Option<&EventContext>,
) -> bool {
    match context {
        Some(context) => context.annotates(data, event.data),
        None => event.data == data,
    }
}

/// Records data with the given time.
pub fn record_with_time(
    data: serde_json::Value,
    timestamp: i128,
    context: Option<&EventContext>,
    cached: bool,
    initialized: bool,
) -> (step: RecordStep)
    ensures
        exists|event: Event|
            {
                &&& #[trigger] is_event_of(event, data, context)
                &&& event.timestamp == timestamp
                &&& step == record_step(event, cached, initialized)
            },
{
    let mut annotated = data;
    match context {
        Some(context) => context.annotate(&mut annotated),
        None => {},
    }
    let event = Event { timestamp, data: annotated };
    assert(is_event_of(event, data, context));
    if cached {
        RecordStep::SendCached(event)
    } else if initialized {
        RecordStep::CacheAndSend(event)
    } else {
        RecordStep::NotInitialized
    }
}

} // verus!
