use serde_json::Value;
use yellowstone_grpc::clickhouse_sink::config::{
    default_database, default_user, ClickhouseConfig,
};
use yellowstone_grpc::clickhouse_sink::event::{
    record, record_with_time, Event, EventContext, RecordStep,
};
use yellowstone_grpc::clickhouse_sink::sink::{
    next_flush_action, FlushAction, FlushEvent, FlushPlan, Flushable, Sink,
    DEFAULT_FLUSH_BATCH_SIZE,
};

fn object(text: &str) -> Value {
    serde_json::from_str(text).unwrap()
}

fn context(env: Option<&str>, host: Option<&str>) -> EventContext {
    EventContext {
        env: env.map(str::to_string),
        host: host.map(str::to_string),
    }
}

fn sent(step: RecordStep) -> Event {
    match step {
        RecordStep::SendCached(event) => event,
        _ => panic!("expected a remembered channel"),
    }
}

#[test]
fn defaults_of_the_config() {
    assert_eq!(default_user(), "default");
    assert_eq!(default_database(), "default");
    let config = ClickhouseConfig {
        url: "http://localhost".to_string(),
        user: default_user(),
        password: String::new(),
        database: default_database(),
        env: None,
        host: None,
    };
    assert_eq!(
        config.client_options(),
        vec![
            ("allow_experimental_json_type", "1"),
            ("input_format_binary_read_json_as_string", "1")
        ]
    );
}

#[test]
fn context_is_added_to_objects() {
    let context = context(Some("prod"), Some("h\"1"));
    let data = object(r#"{"a":1,"env":2,"s":"t"}"#);
    let event = sent(record_with_time(data, 5, Some(&context), true, true));
    assert_eq!(event.timestamp, 5);
    assert_eq!(
        event.data,
        object(r#"{"a":1,"env":"prod","host":"h\"1","s":"t"}"#)
    );
}

#[test]
fn context_is_added_as_far_as_it_is_known() {
    let known = context(None, Some("h"));
    let event = sent(record_with_time(object(r#"{"env":7}"#), 0, Some(&known), true, true));
    assert_eq!(event.data, object(r#"{"env":7,"host":"h"}"#));
    let event = sent(record_with_time(object("{}"), 0, None, true, true));
    assert_eq!(event.data, object("{}"));
}

#[test]
fn other_json_stays_as_it_is() {
    let context = context(Some("e"), Some("h"));
    for text in ["[1,2]", "null", "\"x\"", "3"] {
        let event = sent(record_with_time(object(text), 0, Some(&context), true, true));
        assert_eq!(event.data, object(text));
    }
}

#[test]
fn channel_is_remembered_or_found_or_missing() {
    assert!(matches!(
        record_with_time(Value::Null, 0, None, false, true),
        RecordStep::CacheAndSend(_)
    ));
    assert!(matches!(
        record_with_time(Value::Null, 0, None, true, false),
        RecordStep::SendCached(_)
    ));
    assert!(matches!(
        record_with_time(Value::Null, 0, None, false, false),
        RecordStep::NotInitialized
    ));
}

#[test]
fn record_takes_the_time_now() {
    let before = time::OffsetDateTime::now_utc().unix_timestamp_nanos();
    let event = sent(record(Value::Null, None, true, true));
    let after = time::OffsetDateTime::now_utc().unix_timestamp_nanos();
    assert!(before <= event.timestamp && event.timestamp <= after);
}

#[test]
fn event_rows_hold_json_text() {
    assert_eq!(Event::table_name(), "events");
    let event = Event {
        timestamp: 9,
        data: object(r#"{ "b" : [1, null] , "a" : "x" }"#),
    };
    let row = event.to_row();
    assert_eq!(row.timestamp, 9);
    assert_eq!(object(&row.data), object(r#"{"a":"x","b":[1,null]}"#));
    assert!(!row.data.contains(' '));
}

struct Item(u64);

impl Flushable for Item {
    type Row = String;

    fn table_name() -> &'static str {
        "items"
    }

    fn to_row(self) -> String {
        self.0.to_string()
    }
}

#[test]
fn batch_is_written_when_full_or_when_it_is_time() {
    let mut sink: Sink<Item> = Sink::new();
    assert!(!sink.on_flush_tick());
    assert!(!sink.on_item(Item(0)));
    assert!(sink.on_flush_tick());
    for i in 1..DEFAULT_FLUSH_BATCH_SIZE as u64 - 1 {
        assert!(!sink.on_item(Item(i)));
    }
    assert!(sink.on_item(Item(DEFAULT_FLUSH_BATCH_SIZE as u64 - 1)));
    match sink.flush_rows(true) {
        FlushPlan::Write { table, rows } => {
            assert_eq!(table, "items");
            assert_eq!(rows.len(), 500_000);
            assert_eq!(rows[0], "0");
            assert_eq!(rows[499_999], "499999");
        }
        _ => panic!("expected rows"),
    }
    assert!(!sink.on_flush_tick());
    assert!(matches!(sink.flush_rows(true), FlushPlan::Nothing));
}

#[test]
fn batches_hold_one_item_to_a_full_batch() {
    let mut sink: Sink<Item> = Sink::new();
    let mut sizes: Vec<usize> = Vec::new();
    let total = 2 * DEFAULT_FLUSH_BATCH_SIZE + 3;
    for i in 0..total {
        let full = sink.on_item(Item(i as u64));
        // Time to write comes once between the batches, and twice in a row at the end.
        let due = i == DEFAULT_FLUSH_BATCH_SIZE + 1 && sink.on_flush_tick();
        if full || due {
            if let FlushPlan::Write { rows, .. } = sink.flush_rows(true) {
                sizes.push(rows.len());
            }
        }
    }
    for _ in 0..2 {
        if sink.on_flush_tick() {
            if let FlushPlan::Write { rows, .. } = sink.flush_rows(true) {
                sizes.push(rows.len());
            }
        }
    }
    assert_eq!(
        sizes,
        vec![DEFAULT_FLUSH_BATCH_SIZE, 2, DEFAULT_FLUSH_BATCH_SIZE, 1]
    );
}

#[test]
fn rows_are_dropped_where_the_database_takes_none() {
    let mut sink: Sink<Item> = Sink::new();
    sink.on_item(Item(1));
    sink.on_item(Item(2));
    assert!(matches!(
        sink.flush_rows(false),
        FlushPlan::Dropped {
            table: "items",
            count: 2
        }
    ));
    assert!(!sink.on_flush_tick());
}

#[test]
fn batches_and_what_is_left_are_all_items() {
    let mut sink: Sink<Item> = Sink::new();
    let mut written: Vec<String> = Vec::new();
    for i in 0..10 {
        sink.on_item(Item(i));
        if i == 3 || i == 4 || i == 9 {
            if let FlushPlan::Write { rows, .. } = sink.flush_rows(true) {
                written.extend(rows);
            }
        }
    }
    assert_eq!(written, (0..10).map(|i| i.to_string()).collect::<Vec<_>>());
}

#[test]
fn long_queue_is_worth_a_warning() {
    assert!(!Sink::<Item>::on_monitor_tick(5_000_000));
    assert!(Sink::<Item>::on_monitor_tick(5_000_001));
}

#[test]
fn rows_go_out_in_order_until_one_fails() {
    assert_eq!(next_flush_action(FlushEvent::Begin, 2), FlushAction::Write(0));
    assert_eq!(
        next_flush_action(FlushEvent::Written(1), 2),
        FlushAction::Write(1)
    );
    assert_eq!(next_flush_action(FlushEvent::Written(2), 2), FlushAction::End);
    assert_eq!(
        next_flush_action(FlushEvent::Ended(true), 2),
        FlushAction::Done
    );
    assert_eq!(
        next_flush_action(FlushEvent::Ended(false), 2),
        FlushAction::MayBeLost
    );
    assert_eq!(
        next_flush_action(FlushEvent::WriteFailed, 2),
        FlushAction::DropRemaining
    );
}

#[test]
fn copies_of_events_say_the_same() {
    let mut data = serde_json::Value::Object(Default::default());
    data["a"] = serde_json::Value::from(1);
    let event = Event { timestamp: 5, data };
    let copy = event.clone();
    assert_eq!(copy.timestamp, 5);
    assert_eq!(copy.data, event.data);
    assert_eq!(copy.to_row().data, "{\"a\":1}");
}
