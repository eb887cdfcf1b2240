//! What the decisions of the plugin, of the server and of its clients come to.

use crate::account_index::AccountIndex;
use crate::account_transaction_index::AccountTransactionIndex;
use crate::clickhouse_sink::event::{
    is_event_of, json_is_object, json_others, json_strings, record_step, Event, EventContext,
    RecordStep,
};
use crate::clickhouse_sink::sink::{
    are_rows_of, batches_after, flushes, gathered_after, law_batches_are_bounded,
    next_flush_action, FlushAction, FlushEvent, Flushable, Sink, SinkEvent,
};
use crate::forward::{note_of, targets, SendNote, Target};
use crate::geyser_plugin_interface::{
    ReplicaAccountInfoVersions, ReplicaEntryInfoVersions,
    ReplicaTransactionInfoVersions,
};
use crate::grpc::{authorize, option_of, text_of, ConfigGrpc, ServerOption, Status};
use crate::latency::{ascends, latency_of, sum, summary_of, LatencyStats};
use crate::message::{Message, MessageSlot, MessageTransaction};
use crate::monitor::{is_node_healthy, HealthReply, HealthStep};
use crate::plugin::{
    delivers_account, is_supported_account, is_supported_entry, load_action, tells_transaction,
    unload_steps, Config, Delivery, LoadAction, LoadStep, PluginInner,
    UnloadStep,
};
use crate::simulation::is_simulated;
use crate::timestamp::Timestamp;
use vstd::prelude::*;
use vstd::utf8::encode_utf8;

verus! {

/// A message goes to each raw client once, in their order, and then into the grpc pipeline; where
/// the clients are not known, into the pipeline alone.
pub proof fn law_message_goes_to_every_client(ids: Seq<u64>)
    ensures
        targets(Some(ids)).len() == ids.len() + 1,
        forall|i: int|
            0 <= i < ids.len() ==> #[trigger] targets(Some(ids))[i] == Target::RawClient(ids[i]),
        targets(Some(ids))[ids.len() as int] == Target::Grpc,
        targets(None).len() == 1,
        targets(None)[0] == Target::Grpc,
{
}

/// Something is noted only of a raw client that is gone, whose number is told, and of the pipeline
/// when it took the message.
pub proof fn law_notes_are_of_failures_and_growth(target: Target, sent: bool, note: SendNote)
    requires
        call_ensures(note_of, (target, sent), note),
    ensures
        forall|id: u64|
            note == SendNote::RawClientDisconnected(id) <==> target == Target::RawClient(id)
                && !sent,
        note == SendNote::QueueGrew <==> target == Target::Grpc && sent,
{
}

/// A message goes through the buffer task exactly where large accounts are held back, and straight
/// on where they are not; it is the same message either way.
pub proof fn law_message_goes_one_way(inner: PluginInner, message: Message)
    ensures
        inner.buffering ==> inner.sends(message) == Delivery::Buffer(message),
        !inner.buffering ==> inner.sends(message) == Delivery::Direct(message),
{
}

/// The place of a step in the order in which a plugin is loaded.
pub open spec fn load_place(step: LoadStep) -> int {
    match step {
        LoadStep::SetupLogger => 0,
        LoadStep::SetWorkerThreads(_) => 1,
        LoadStep::PinThreads => 2,
        LoadStep::BuildRuntime => 3,
        LoadStep::InitClickhouse => 4,
        LoadStep::CreateGrpc { .. } => 5,
        LoadStep::StartPrometheus { .. } => 6,
        LoadStep::SpawnBufferTask(_) => 7,
    }
}

/// Of the steps of loading, those that are always taken are taken, those that are configured are
/// taken as they are configured, and no others. None is taken twice, and they come in this order:
/// logger, threads, pinning, runtime, database, grpc server, metrics, buffer task.
pub proof fn law_loading_takes_these_steps(config: Config, is_reload: bool, step: LoadStep)
    ensures
        config.load_steps(is_reload).contains(step) <==> match step {
            LoadStep::SetupLogger => true,
            LoadStep::SetWorkerThreads(count) => config.worker_threads == Some(count),
            LoadStep::PinThreads => config.affinity is Some,
            LoadStep::BuildRuntime => true,
            LoadStep::InitClickhouse => config.clickhouse is Some,
            LoadStep::CreateGrpc { debug_clients, is_reload: again } => debug_clients
                == config.debug_clients_http && again == is_reload,
            LoadStep::StartPrometheus { debug_clients } => debug_clients
                == config.debug_clients_http,
            LoadStep::SpawnBufferTask(buffer) => config.account_buffer == Some(buffer),
        },
        forall|i: int, j: int|
            0 <= i < j < config.load_steps(is_reload).len() ==> load_place(
                #[trigger] config.load_steps(is_reload)[i],
            ) < load_place(#[trigger] config.load_steps(is_reload)[j]),
{
    let steps = config.load_steps(is_reload);
    let a: int = if config.worker_threads is Some { 1 } else { 0 };
    let b: int = if config.affinity is Some { 1 } else { 0 };
    let c: int = if config.clickhouse is Some { 1 } else { 0 };
    let d: int = if config.account_buffer is Some { 1 } else { 0 };
    assert(steps.len() == 4 + a + b + c + d);
    assert(steps[0] == LoadStep::SetupLogger);
    if let Some(count) = config.worker_threads {
        assert(steps[1] == LoadStep::SetWorkerThreads(count));
    }
    if config.affinity is Some {
        assert(steps[1 + a] == LoadStep::PinThreads);
    }
    assert(steps[1 + a + b] == LoadStep::BuildRuntime);
    if config.clickhouse is Some {
        assert(steps[2 + a + b] == LoadStep::InitClickhouse);
    }
    assert(steps[2 + a + b + c] == LoadStep::CreateGrpc {
        debug_clients: config.debug_clients_http,
        is_reload,
    });
    assert(steps[3 + a + b + c] == LoadStep::StartPrometheus {
        debug_clients: config.debug_clients_http,
    });
    if let Some(buffer) = config.account_buffer {
        assert(steps[4 + a + b + c] == LoadStep::SpawnBufferTask(buffer));
    }
}

/// When a step cannot be taken, loading stops with it where it is one of the runtime and the two
/// servers, and aborts where it is any other. When it could be taken, the next one follows, and
/// nothing after the last.
pub proof fn law_what_follows_a_step(steps: Seq<LoadStep>, index: int, went_well: bool)
    requires
        0 <= index < steps.len(),
    ensures
        load_action(steps, index, went_well) == match steps[index] {
            _ if went_well => if index == steps.len() - 1 {
                LoadAction::Done
            } else {
                LoadAction::Take(steps[index + 1])
            },
            LoadStep::BuildRuntime => LoadAction::Stop(steps[index]),
            LoadStep::CreateGrpc { .. } => LoadAction::Stop(steps[index]),
            LoadStep::StartPrometheus { .. } => LoadAction::Stop(steps[index]),
            LoadStep::SetupLogger => LoadAction::Abort(steps[index]),
            LoadStep::SetWorkerThreads(_) => LoadAction::Abort(steps[index]),
            LoadStep::PinThreads => LoadAction::Abort(steps[index]),
            LoadStep::InitClickhouse => LoadAction::Abort(steps[index]),
            LoadStep::SpawnBufferTask(_) => LoadAction::Abort(steps[index]),
        },
{
}

/// A plugin is unloaded in five steps: the grpc server is told first, both channels are let go,
/// that to the buffer task before that to the pipeline, then the metrics stop, and the runtime has
/// thirty seconds at the end.
pub proof fn law_unloading_takes_these_steps()
    ensures
        unload_steps().len() == 5,
        unload_steps()[0] == UnloadStep::NotifyGrpcShutdown,
        unload_steps()[1] == UnloadStep::DropBufferChannel,
        unload_steps()[2] == UnloadStep::DropGrpcChannel,
        unload_steps()[3] == UnloadStep::ShutdownPrometheus,
        unload_steps()[4] == UnloadStep::ShutdownRuntime(30),
{
}

/// An account that is delivered is the one that the validator handed over in the third form, with
/// every part of it, and the message is stamped with a proper time.
pub proof fn law_delivered_account_is_the_validators(
    message: Message,
    account: ReplicaAccountInfoVersions,
    slot: u64,
    is_startup: bool,
    sequence_number: u64,
)
    requires
        delivers_account(message, account, slot, is_startup, sequence_number),
    ensures
        account matches ReplicaAccountInfoVersions::V0_0_3(info) && (message matches
            Message::Account(news) && {
            &&& news.account.pubkey@ == info.pubkey@
            &&& news.account.lamports == info.lamports
            &&& news.account.owner@ == info.owner@
            &&& news.account.executable == info.executable
            &&& news.account.rent_epoch == info.rent_epoch
            &&& news.account.data@ == info.data@
            &&& news.account.write_version == info.write_version
            &&& news.account.txn_signature == info.txn
            &&& news.slot == slot
            &&& news.is_startup == is_startup
            &&& news.sequence_number == sequence_number
            &&& 0 <= news.created_at.nanos < 1_000_000_000
        }),
{
}

/// A transaction that is delivered is the one that the validator handed over in one of the two
/// later forms, with every part of it and its slot, stamped with a proper time.
pub proof fn law_delivered_transaction_is_the_validators(
    news: MessageTransaction,
    transaction: ReplicaTransactionInfoVersions,
    slot: u64,
    sequence_number: u64,
)
    requires
        tells_transaction(news, transaction, slot, sequence_number),
    ensures
        news.slot == slot,
        0 <= news.created_at.nanos < 1_000_000_000,
        news.transaction.sequence_number == sequence_number,
        match transaction {
            ReplicaTransactionInfoVersions::V0_0_1 => false,
            ReplicaTransactionInfoVersions::V0_0_2(info) => {
                &&& news.transaction.signature == info.signature
                &&& news.transaction.is_vote == info.is_vote
                &&& news.transaction.transaction == info.transaction
                &&& news.transaction.meta == info.transaction_status_meta
                &&& news.transaction.index == info.index
            },
            ReplicaTransactionInfoVersions::V0_0_3(info) => {
                &&& news.transaction.signature == info.signature
                &&& news.transaction.is_vote == info.is_vote
                &&& news.transaction.transaction == info.transaction
                &&& news.transaction.meta == info.transaction_status_meta
                &&& news.transaction.index == info.index
            },
        },
{
}

/// Every account of the third form with a key and an owner of thirty-two bytes can be taken, and
/// every entry of the second form with a hash of as many; nothing else.
pub proof fn law_what_can_be_taken(
    account: ReplicaAccountInfoVersions,
    entry: ReplicaEntryInfoVersions,
)
    ensures
        is_supported_account(account) <==> (account matches ReplicaAccountInfoVersions::V0_0_3(info)
            && info.pubkey@.len() == 32 && info.owner@.len() == 32),
        is_supported_entry(entry) <==> (entry matches ReplicaEntryInfoVersions::V0_0_2(info)
            && info.hash@.len() == 32),
{
}

/// A call passes without a token where the server has none; where it has one, exactly the calls
/// pass that bring the same bytes. Who is refused is told why.
pub proof fn law_only_the_token_opens(
    x_token: Option<&str>,
    token: Option<&[u8]>,
    result: Result<(), Status>,
)
    requires
        call_ensures(authorize, (x_token, token), result),
    ensures
        x_token is None ==> result is Ok,
        x_token is Some && token is None ==> result is Err,
        x_token matches Some(expected) ==> (token matches Some(brought) ==> (result is Ok
            <==> brought@ == encode_utf8(expected@))),
        result matches Err(status) ==> status.code is Unauthenticated && status.message@
            == "No valid auth token"@,
{
}

/// The place of an option in the order in which a transport is set up.
pub open spec fn option_place(option: ServerOption) -> int {
    match option {
        ServerOption::Tls => 0,
        ServerOption::Http2AdaptiveWindow(_) => 1,
        ServerOption::Http2KeepaliveInterval(_) => 2,
        ServerOption::Http2KeepaliveTimeout(_) => 3,
        ServerOption::InitialConnectionWindowSize(_) => 4,
        ServerOption::InitialStreamWindowSize(_) => 5,
        _ => 6,
    }
}

/// A transport is set up with what is given, each as it is given and once, and with nothing else.
pub proof fn law_transport_gets_what_is_given(config: ConfigGrpc, option: ServerOption)
    ensures
        config.transport_options().contains(option) <==> match option {
            ServerOption::Tls => config.tls,
            ServerOption::Http2AdaptiveWindow(enabled) => config.server_http2_adaptive_window
                == Some(enabled),
            ServerOption::Http2KeepaliveInterval(ms) => config.server_http2_keepalive_interval_ms
                == Some(ms),
            ServerOption::Http2KeepaliveTimeout(ms) => config.server_http2_keepalive_timeout_ms
                == Some(ms),
            ServerOption::InitialConnectionWindowSize(size) =>
                config.server_initial_connection_window_size == Some(size),
            ServerOption::InitialStreamWindowSize(size) => config.server_initial_stream_window_size
                == Some(size),
            _ => false,
        },
        forall|i: int, j: int|
            0 <= i < j < config.transport_options().len() ==> option_place(
                #[trigger] config.transport_options()[i],
            ) < option_place(#[trigger] config.transport_options()[j]),
{
    let none = Seq::<ServerOption>::empty();
    let tls = option_of(
        if config.tls {
            Some(())
        } else {
            None
        },
        |given: ()| ServerOption::Tls,
    );
    let window = option_of(
        config.server_http2_adaptive_window,
        |enabled: bool| ServerOption::Http2AdaptiveWindow(enabled),
    );
    let interval = option_of(
        config.server_http2_keepalive_interval_ms,
        |ms: u64| ServerOption::Http2KeepaliveInterval(ms),
    );
    let timeout = option_of(
        config.server_http2_keepalive_timeout_ms,
        |ms: u64| ServerOption::Http2KeepaliveTimeout(ms),
    );
    let connection = option_of(
        config.server_initial_connection_window_size,
        |size: u32| ServerOption::InitialConnectionWindowSize(size),
    );
    let stream = option_of(
        config.server_initial_stream_window_size,
        |size: u32| ServerOption::InitialStreamWindowSize(size),
    );
    assert(none + tls =~= tls);
    lemma_one_more(none, tls, option, 0);
    lemma_one_more(tls, window, option, 1);
    lemma_one_more(tls + window, interval, option, 2);
    lemma_one_more(tls + window + interval, timeout, option, 3);
    lemma_one_more(tls + window + interval + timeout, connection, option, 4);
    lemma_one_more(tls + window + interval + timeout + connection, stream, option, 5);
    assert(config.transport_options() == tls + window + interval + timeout + connection + stream);
}

/// Whether options come in their order, and all before a place.
spec fn in_order_before(options: Seq<ServerOption>, place: int) -> bool {
    &&& forall|i: int, j: int|
        0 <= i < j < options.len() ==> option_place(#[trigger] options[i]) < option_place(
            #[trigger] options[j],
        )
    &&& forall|i: int| 0 <= i < options.len() ==> option_place(#[trigger] options[i]) < place
}

proof fn lemma_one_more(
    options: Seq<ServerOption>,
    more: Seq<ServerOption>,
    option: ServerOption,
    place: int,
)
    requires
        in_order_before(options, place),
        more.len() <= 1,
        more.len() == 1 ==> option_place(more[0]) == place,
    ensures
        in_order_before(options + more, place + 1),
        (options + more).contains(option) <==> options.contains(option) || (more.len() == 1
            && more[0] == option),
{
    let all = options + more;
    if options.contains(option) {
        let i = choose|i: int| 0 <= i < options.len() && options[i] == option;
        assert(all[i] == option);
    }
    if more.len() == 1 {
        assert(all[options.len() as int] == more[0]);
    }
}

/// A service is set up with the largest message that it reads, then with each way of compressing
/// that it takes, in their order, then with each that it may use.
pub proof fn law_service_gets_what_is_given(config: ConfigGrpc)
    ensures
        ({
            let options = config.service_options();
            let accepted = config.compression_accept@.len() as int;
            let sent = config.compression_send@.len() as int;
            &&& options.len() == 1 + accepted + sent
            &&& options[0] == ServerOption::MaxDecodingMessageSize(config.max_decoding_message_size)
            &&& forall|i: int|
                0 <= i < accepted ==> options[1 + i] == ServerOption::AcceptCompressed(
                    #[trigger] config.compression_accept@[i],
                )
            &&& forall|i: int|
                0 <= i < sent ==> options[1 + accepted + i] == ServerOption::SendCompressed(
                    #[trigger] config.compression_send@[i],
                )
        }),
{
}

/// A text that need not be there is there where it is given, and says what it says.
pub proof fn law_text_is_what_it_says(text: Option<String>)
    ensures
        text_of(text) is Some <==> text is Some,
        text matches Some(given) ==> text_of(text) == Some(given@),
{
}

/// A node is healthy or not by its own word alone; where it could not be asked, it is asked again
/// after five seconds.
pub proof fn law_health_is_the_nodes_word(reply: HealthReply, step: HealthStep)
    requires
        call_ensures(is_node_healthy, (reply,), step),
    ensures
        step == HealthStep::Known(true) <==> reply is Healthy,
        step == HealthStep::Known(false) <==> reply is NodeUnhealthy,
        step == HealthStep::RetryAfter(5) <==> reply is Failed,
{
}

/// A simulated message says that its slot was processed, after the slot before it.
pub proof fn law_simulated_slots_follow_each_other(news: MessageSlot, slot: u64)
    requires
        is_simulated(news, slot),
        slot > 0,
    ensures
        news.slot == slot,
        news.parent matches Some(parent) && parent + 1 == slot,
        news.status is Processed,
        news.dead_error is None,
        news.sequence_number == 0,
{
}

/// The simulation begins with the thousandth slot, waits a hundred microseconds before each
/// message, and each thousandth slot is worth a line.
pub proof fn law_simulation_parameters()
    ensures
        crate::simulation::FIRST_SLOT == 1000,
        crate::simulation::INTERVAL_MICROS == 100,
        crate::simulation::LOG_EVERY == 1000,
{
}

/// How often the parts of the service do what they do again and again, how much the sink takes and
/// how the server's connections are kept.
pub proof fn law_intervals_and_sizes()
    ensures
        crate::monitor::MONITOR_INTERVAL_MS == 100,
        crate::monitor::RETRY_SECONDS == 5,
        crate::preprocessed::PING_INTERVAL_SECONDS == 3,
        crate::latency::LOG_EVERY == 1000,
        crate::grpc::TCP_NODELAY,
        crate::grpc::TCP_KEEPALIVE_SECONDS == 20,
        crate::clickhouse_sink::sink::DEFAULT_FLUSH_BATCH_SIZE == 500_000,
        crate::clickhouse_sink::sink::DEFAULT_SINK_CHANNEL_SIZE == 10_000_000,
        crate::clickhouse_sink::sink::DEFAULT_FLUSH_INTERVAL_MS == 500,
        crate::clickhouse_sink::sink::MONITOR_INTERVAL_SECONDS == 1,
        crate::plugin::SHUTDOWN_TIMEOUT_SECONDS == 30,
        crate::user_service::AUTH_HEADER@ == "x-api-key"@,
{
}

/// The time that a message took, added to when it was made, is when it came; none is told exactly
/// where it came before it was made.
pub proof fn law_latency_bridges_the_times(created_at: Timestamp, now: u128)
    requires
        0 <= created_at.nanos,
    ensures
        latency_of(created_at, now) is None <==> now < created_at.seconds * 1_000_000_000
            + created_at.nanos,
        created_at.seconds >= 0 ==> (latency_of(created_at, now) matches Some(latency) ==> latency
            + created_at.seconds * 1_000_000_000 + created_at.nanos == now),
{
}

/// Nanoseconds that are negative count as the number of sixty-four bits with the same bits.
pub proof fn law_negative_nanoseconds_are_far_off(created_at: Timestamp, now: u128)
    requires
        created_at.nanos < 0,
        created_at.seconds >= 0,
    ensures
        latency_of(created_at, now) is None <==> now < created_at.seconds * 1_000_000_000
            + 18_446_744_073_709_551_616 + created_at.nanos,
        latency_of(created_at, now) matches Some(latency) ==> latency + created_at.seconds
            * 1_000_000_000 + 18_446_744_073_709_551_616 + created_at.nanos == now,
{
}

/// A message that is made later took as much less, and one that comes later as much more.
pub proof fn law_latency_goes_with_the_clock(created_at: Timestamp, now: u128, later: u128)
    requires
        now <= later,
        created_at.seconds >= 0,
        latency_of(created_at, now) is Some,
    ensures
        latency_of(created_at, later) is Some,
        latency_of(created_at, later).unwrap() - latency_of(created_at, now).unwrap() == later
            - now,
{
}

/// Of latencies that go up, the least and the greatest are told; each is one of them, and all lie
/// between. The average times their number falls short of their sum by less than their number.
pub proof fn law_summary_is_of_the_list(list: Seq<u128>, i: int)
    requires
        list.len() > 0,
        ascends(list),
        sum(list) <= u128::MAX,
        0 <= i < list.len(),
    ensures
        summary_of(list).min <= list[i] <= summary_of(list).max,
        list.contains(summary_of(list).min),
        list.contains(summary_of(list).max),
        summary_of(list).average * list.len() <= sum(list) < (summary_of(list).average + 1)
            * list.len(),
{
    assert(list[0] == summary_of(list).min);
    assert(list[list.len() - 1] == summary_of(list).max);
    let total = sum(list) as int;
    let n = list.len() as int;
    vstd::arithmetic::div_mod::lemma_fundamental_div_mod(total, n);
    assert(0 <= total / n <= total) by (nonlinear_arith)
        requires
            total >= 0,
            n > 0,
    ;
    assert((total / n) * n <= total < (total / n + 1) * n) by (nonlinear_arith)
        requires
            n > 0,
            total == n * (total / n) + total % n,
            0 <= total % n < n,
    ;
}

/// The sum of latencies is that of those before the last, and the last.
pub proof fn law_sum_adds_up(list: Seq<u128>, latency: u128)
    ensures
        sum(Seq::empty()) == 0,
        sum(list.push(latency)) == sum(list) + latency,
{
    assert(list.push(latency).drop_last() =~= list);
}

/// Of latencies that go up, that many hundredths lie before what is told for them, rounded down,
/// and what is told is one of them.
pub proof fn law_percentiles_split_the_list(list: Seq<u128>, place: int)
    requires
        list.len() > 0,
        ascends(list),
        0 <= place < list.len(),
    ensures
        place * 100 <= list.len() * 50 < (place + 1) * 100 ==> summary_of(list).p50 == list[place],
        place * 100 <= list.len() * 90 < (place + 1) * 100 ==> summary_of(list).p90 == list[place],
        place * 100 <= list.len() * 95 < (place + 1) * 100 ==> summary_of(list).p95 == list[place],
        place * 100 <= list.len() * 99 < (place + 1) * 100 ==> summary_of(list).p99 == list[place],
{
}

/// Latencies can be summed up exactly where there are not more than thirty-two bits can count, and
/// their sum is a time that can be told.
pub proof fn law_what_can_be_summed_up(stats: LatencyStats)
    ensures
        stats.summable() <==> stats.latencies@.len() <= 0xffff_ffff && sum(stats.latencies@)
            <= 18_446_744_073_709_551_615_999_999_999,
{
}

/// A sink flushes when half a million items are gathered, and at a tick whatever it has; it gathers
/// an item behind all others, and a tick adds nothing.
pub proof fn law_sink_flushes_when_full<F>(gathered: Seq<F>, item: F)
    ensures
        flushes(gathered, SinkEvent::Item(item)) <==> gathered.len() + 1 >= 500_000,
        flushes(gathered, SinkEvent::FlushTick) <==> gathered.len() > 0,
        gathered_after(gathered, SinkEvent::Item(item)).len() == gathered.len() + 1,
        gathered_after(gathered, SinkEvent::Item(item))[gathered.len() as int] == item,
        forall|i: int|
            0 <= i < gathered.len() ==> #[trigger] gathered_after(
                gathered,
                SinkEvent::Item(item),
            )[i] == gathered[i],
        gathered_after(gathered, SinkEvent::FlushTick) == gathered,
{
}

/// No batch holds more than half a million items, and less than that wait for the next.
pub proof fn law_batches_hold_half_a_million<F>(events: Seq<SinkEvent<F>>, i: int)
    requires
        0 <= i < batches_after(events).0.len(),
    ensures
        1 <= batches_after(events).0[i].len() <= 500_000,
        batches_after(events).1.len() < 500_000,
{
    law_batches_are_bounded(events);
}

/// The rows of a batch are as many as its items, and each is the row of the item in its place.
pub proof fn law_rows_follow_the_items<F: Flushable>(items: Seq<F>, rows: Seq<F::Row>, i: int)
    requires
        are_rows_of::<F>(items, rows),
    ensures
        rows.len() == items.len(),
        0 <= i < items.len() ==> call_ensures(F::to_row, (items[i],), rows[i]),
{
}

/// A queue is worth a warning when more than five million items wait.
pub proof fn law_long_queue_is_worth_a_warning<F: Flushable>(queue_len: usize, warn: bool)
    requires
        call_ensures(Sink::<F>::on_monitor_tick, (queue_len,), warn),
    ensures
        warn <==> queue_len > 5_000_000,
{
}

/// While a batch is written, the next row follows one that was written, the end follows the last,
/// and nothing is written after a row that could not be or after the end.
pub proof fn law_rows_are_written_in_turn(event: FlushEvent, total: usize, action: FlushAction)
    requires
        call_ensures(next_flush_action, (event, total), action),
    ensures
        forall|row: usize|
            action == FlushAction::Write(row) <==> row < total && (event == FlushEvent::Written(row)
                || event is Begin && row == 0),
        action is End <==> (event is Begin && total == 0) || (event matches FlushEvent::Written(
            count,
        ) && count >= total),
        action is DropRemaining <==> event is WriteFailed,
        action is Done <==> event == FlushEvent::Ended(true),
        action is MayBeLost <==> event == FlushEvent::Ended(false),
{
}

/// An object with the context added has the strings `env` and `host` of the context, where they are
/// known, and all its other members as they were; what is no object stays as it is.
pub proof fn law_context_adds_where_it_runs(
    context: EventContext,
    before: serde_json::Value,
    after: serde_json::Value,
    name: Seq<char>,
)
    requires
        context.annotates(before, after),
    ensures
        !json_is_object(before) ==> after == before,
        json_is_object(before) ==> {
            &&& json_is_object(after)
            &&& context.env matches Some(env) ==> json_strings(after).contains_key("env"@)
                && json_strings(after)["env"@] == env@ && !json_others(after).contains_key("env"@)
            &&& context.host matches Some(host) ==> json_strings(after).contains_key("host"@)
                && json_strings(after)["host"@] == host@ && !json_others(after).contains_key(
                "host"@,
            )
            &&& !(name == "env"@ && context.env is Some) && !(name == "host"@ && context.host
                is Some) ==> {
                &&& json_strings(after).contains_key(name) <==> json_strings(before).contains_key(
                    name,
                )
                &&& json_strings(after).contains_key(name) ==> json_strings(after)[name]
                    == json_strings(before)[name]
                &&& json_others(after).contains_key(name) <==> json_others(before).contains_key(
                    name,
                )
                &&& json_others(after).contains_key(name) ==> json_others(after)[name]
                    == json_others(before)[name]
            }
        },
{
    reveal_strlit("env");
    reveal_strlit("host");
    assert("env"@.len() == 3 && "host"@.len() == 4);
}

/// An event is sent wherever there is a channel, that of the thread before that of the process, and
/// dropped only where there is none. It is the same event either way.
pub proof fn law_event_is_sent_where_it_can_be(event: Event, cached: bool, initialized: bool)
    ensures
        record_step(event, cached, initialized) is NotInitialized <==> !cached && !initialized,
        cached ==> record_step(event, cached, initialized) == RecordStep::SendCached(event),
        !cached && initialized ==> record_step(event, cached, initialized)
            == RecordStep::CacheAndSend(event),
{
}

/// An event holds the data that was recorded, with the context added where there is one.
pub proof fn law_event_holds_the_data(
    event: Event,
    data: serde_json::Value,
    context: Option<&EventContext>,
)
    ensures
        context is None ==> (is_event_of(event, data, context) <==> event.data == data),
        context matches Some(given) ==> (is_event_of(event, data, context) <==> given.annotates(
            data,
            event.data,
        )),
{
}

/// The largest number on the wire stands for no transaction, and each other for the transaction
/// with that index, for those who only read it as for those who set it.
pub proof fn law_largest_index_is_no_transaction(value: u64)
    ensures
        AccountIndex::of_wire(value) is NoTransaction <==> value == 0xffff_ffff_ffff_ffff,
        value != 0xffff_ffff_ffff_ffff ==> AccountIndex::of_wire(value)
            == AccountIndex::Transaction(value),
        AccountTransactionIndex::of_wire(value) is NoTransaction <==> value
            == 0xffff_ffff_ffff_ffff,
        value != 0xffff_ffff_ffff_ffff ==> AccountTransactionIndex::of_wire(value)
            == AccountTransactionIndex::Transaction(value),
        AccountTransactionIndex::Transaction(value).wire() == value,
        AccountTransactionIndex::NoTransaction.wire() == 0xffff_ffff_ffff_ffff,
        AccountTransactionIndex::Transaction(value).is_reserved() <==> value
            == 0xffff_ffff_ffff_ffff,
        !AccountTransactionIndex::NoTransaction.is_reserved(),
{
}

} // verus!
