//! The plugin: what the validator says becomes messages, and each goes where it should.

use crate::account_buffer::{
    flushes_all, flushes_slot, message_views, to_messages, well_filed, with_account,
    without_account, AccountBuffer, Held,
};
use crate::clickhouse_sink::config::ClickhouseConfig;
use crate::geyser_plugin_interface::SlotStatus as GeyserSlotStatus;
use crate::geyser_plugin_interface::{
    ReplicaAccountInfoVersions, ReplicaBlockInfoVersions, ReplicaEntryInfoVersions,
    ReplicaTransactionInfoVersions,
};
use crate::keys::{HASH_BYTES, PUBKEY_BYTES};
use crate::message::{
    block_meta_of, is_normal, Message, MessageAccount, MessageAccountView, MessageBlockMeta,
    MessageEntry, MessageSlot, MessageTransaction, MessageView,
};
use std::sync::Arc;
use vstd::pervasive::unreached;
use vstd::prelude::*;

verus! {

/// Whether a buffer that does not number writes anew goes from `before` to `after` when it gets a
/// message, and sends `out` on. Accounts that are loaded at startup pass.
pub open spec fn takes_plainly(
    before: Held,
    threshold: usize,
    message: Message,
    after: Held,
    out: Seq<MessageView>,
) -> bool {
    match message {
        Message::Account(account) => if account.is_startup {
            &&& after == before
            &&& out == seq![message@]
        } else if account.account.data@.len() >= threshold {
            &&& after == with_account(before, account@)
            &&& out == Seq::<MessageView>::empty()
        } else {
            &&& after == without_account(before, account.slot, account.account.pubkey@)
            &&& out == seq![message@]
        },
        Message::BlockMeta(meta) => {
            &&& after == before.remove(meta.block_meta.slot)
            &&& out.len() > 0
            &&& out.last() == message@
            &&& flushes_slot(before, meta.block_meta.slot, out.drop_last())
        },
        _ => {
            &&& after == before
            &&& out == seq![message@]
        },
    }
}

/// The task that stands between the plugin and the subscribers where large accounts are held
/// back. It gets all messages, and says what goes out when.
pub struct PluginBufferTask {
    buffer: AccountBuffer,
    size_threshold: usize,
}

impl View for PluginBufferTask {
    type V = Held;

    closed spec fn view(&self) -> Held {
        self.buffer@
    }
}

impl PluginBufferTask {
    /// The buffer is in order.
    pub closed spec fn wf(&self) -> bool {
        self.buffer.wf()
    }

    /// From how many bytes on an account is held back.
    pub closed spec fn threshold(&self) -> usize {
        self.size_threshold
    }

    /// Whatever a task got, what it holds back is well filed.
    pub proof fn law_task_is_well_filed(&self)
        requires
            self.wf(),
        ensures
            well_filed(self@),
    {
        self.buffer.lemma_well_filed();
    }

    /// A task that has got nothing yet.
    pub fn new(size_threshold: usize) -> (task: Self)
        ensures
            task.wf(),
            task.threshold() == size_threshold,
            task@ == Map::<u64, Map<Seq<u8>, MessageAccountView>>::empty(),
    {
        PluginBufferTask { buffer: AccountBuffer::new(), size_threshold }
    }

    /// Takes a message, and says what goes out.
    pub fn on_message(&mut self, message: Message) -> (out: Vec<Message>)
        requires
            old(self).wf(),
        ensures
            final(self).wf(),
            final(self).threshold() == old(self).threshold(),
            takes_plainly(
                old(self)@,
                old(self).threshold(),
                message,
                final(self)@,
                message_views(out@),
            ),
    {
        let mut out: Vec<Message> = Vec::new();
        assert(message_views(out@) =~= Seq::<MessageView>::empty());
        match message {
            Message::Account(account) => {
                if account.is_startup {
                    out.push(Message::Account(account));
                } else if account.account.data.len() >= self.size_threshold {
                    self.buffer.upsert(account);
                } else {
                    let _ = self.buffer.remove_entry(account.slot, &account.account.pubkey);
                    out.push(Message::Account(account));
                }
            },
            Message::BlockMeta(meta) => {
                out = to_messages(self.buffer.drain_slot(meta.slot()));
                let ghost flushed = message_views(out@);
                out.push(Message::BlockMeta(meta));
                assert(message_views(out@).drop_last() =~= flushed);
            },
            other => {
                out.push(other);
            },
        }
        assert(out@.len() == 1 ==> message_views(out@) =~= seq![out@[0]@]);
        out
    }

    /// Takes a tick of the flush timer, at which all that is held back goes out.
    pub fn on_tick(&mut self) -> (out: Vec<Message>)
        requires
            old(self).wf(),
        ensures
            final(self).wf(),
            final(self).threshold() == old(self).threshold(),
            final(self)@ == Map::<u64, Map<Seq<u8>, MessageAccountView>>::empty(),
            flushes_all(old(self)@, message_views(out@)),
    {
        to_messages(self.buffer.drain_all())
    }
}

/// What becomes of something that the validator said.
pub enum Delivery {
    /// Nothing.
    Nothing,
    /// A message goes to those that take the startup snapshot.
    Snapshot(Message),
    /// A message goes to the buffer task, which sends it on.
    Buffer(Message),
    /// A message goes straight to the raw clients and the grpc pipeline.
    Direct(Message),
}

/// What is to be noted once a message was sent to those that take the snapshot.
#[derive(Debug, Clone, Copy, PartialEq, Eq, Structural)]
pub enum SnapshotNote {
    Nothing,
    /// The queue grew by one.
    QueueGrew,
    /// The channel is closed, which is worth an error, once.
    ChannelClosed,
}

/// What the running plugin goes by.
#[derive(Debug, Clone, Copy, PartialEq, Eq, Structural)]
pub struct PluginInner {
    /// Whether somebody takes the startup snapshot.
    pub snapshot_channel: bool,
    /// Whether it was found that nobody takes the snapshot any more.
    pub snapshot_channel_closed: bool,
    /// Whether large accounts are held back.
    pub buffering: bool,
}

impl PluginInner {
    /// What becomes of a message: it goes through the buffer task where there is one.
    pub open spec fn sends(self, message: Message) -> Delivery {
        if self.buffering {
            Delivery::Buffer(message)
        } else {
            Delivery::Direct(message)
        }
    }

    /// Says what becomes of a message.
    pub fn send_message(&self, message: Message) -> (delivery: Delivery)
        ensures
            delivery == self.sends(message),
    {
        if self.buffering {
            Delivery::Buffer(message)
        } else {
            Delivery::Direct(message)
        }
    }

    /// Notes how sending to those that take the snapshot went. That the channel is closed is told
    /// the first time only.
    pub fn on_snapshot_sent(&mut self, sent: bool) -> (note: SnapshotNote)
        ensures
            *final(self) == (PluginInner {
                snapshot_channel_closed: old(self).snapshot_channel_closed || !sent,
                ..*old(self)
            }),
            note == if sent {
                SnapshotNote::QueueGrew
            } else if old(self).snapshot_channel_closed {
                SnapshotNote::Nothing
            } else {
                SnapshotNote::ChannelClosed
            },
    {
        if sent {
            SnapshotNote::QueueGrew
        } else if self.snapshot_channel_closed {
            SnapshotNote::Nothing
        } else {
            self.snapshot_channel_closed = true;
            SnapshotNote::ChannelClosed
        }
    }
}

/// How large accounts are held back.
#[derive(Debug, Clone, Copy, PartialEq, Eq, Structural)]
pub struct AccountBufferConfig {
    /// From how many bytes on an account is held back.
    pub size_threshold: usize,
    /// How often all that is held back goes out, in milliseconds.
    pub flush_interval_ms: u64,
}

/// How the plugin is configured.
#[derive(Debug, Clone)]
pub struct Config {
    pub log_level: String,
    /// How many threads work, where it is not left to the runtime.
    pub worker_threads: Option<usize>,
    /// The processors that the threads are tied to, where they are.
    pub affinity: Option<Vec<usize>>,
    pub clickhouse: Option<ClickhouseConfig>,
    /// Whether the clients can be looked at over http.
    pub debug_clients_http: bool,
    pub account_buffer: Option<AccountBufferConfig>,
}

/// One thing that is done when the plugin is loaded.
#[derive(Debug, Clone, Copy, PartialEq, Eq, Structural)]
pub enum LoadStep {
    /// Set up the logger.
    SetupLogger,
    /// Set how many threads the runtime has.
    SetWorkerThreads(usize),
    /// Tie the threads of the runtime to their processors.
    PinThreads,
    /// Start the runtime.
    BuildRuntime,
    /// Connect to the database that events are recorded in.
    InitClickhouse,
    /// Start the grpc server.
    CreateGrpc { debug_clients: bool, is_reload: bool },
    /// Start the server that metrics are read from.
    StartPrometheus { debug_clients: bool },
    /// Start the task that holds large accounts back.
    SpawnBufferTask(AccountBufferConfig),
}

impl Config {
    /// What is done when the plugin is loaded, in this order: of that which is optional, only what
    /// is configured.
    pub open spec fn load_steps(self, is_reload: bool) -> Seq<LoadStep> {
        let threads = match self.worker_threads {
            Some(count) => seq![LoadStep::SetWorkerThreads(count)],
            None => Seq::empty(),
        };
        let pinning = match self.affinity {
            Some(_) => seq![LoadStep::PinThreads],
            None => Seq::empty(),
        };
        let clickhouse = match self.clickhouse {
            Some(_) => seq![LoadStep::InitClickhouse],
            None => Seq::empty(),
        };
        let buffer = match self.account_buffer {
            Some(config) => seq![LoadStep::SpawnBufferTask(config)],
            None => Seq::empty(),
        };
        seq![LoadStep::SetupLogger] + threads + pinning + seq![LoadStep::BuildRuntime] + clickhouse
            + seq![
            LoadStep::CreateGrpc { debug_clients: self.debug_clients_http, is_reload },
            LoadStep::StartPrometheus { debug_clients: self.debug_clients_http },
        ] + buffer
    }

    /// Lists what is done when the plugin is loaded.
    pub fn list_load_steps(&self, is_reload: bool) -> (steps: Vec<LoadStep>)
        ensures
            steps@ == self.load_steps(is_reload),
    {
        let mut steps: Vec<LoadStep> = Vec::new();
        steps.push(LoadStep::SetupLogger);
        if let Some(count) = self.worker_threads {
            steps.push(LoadStep::SetWorkerThreads(count));
        }
        if self.affinity.is_some() {
            steps.push(LoadStep::PinThreads);
        }
        steps.push(LoadStep::BuildRuntime);
        let ghost first = steps@;
        assert(first =~= seq![LoadStep::SetupLogger] + (match self.worker_threads {
            Some(count) => seq![LoadStep::SetWorkerThreads(count)],
            None => Seq::empty(),
        }) + (match self.affinity {
            Some(_) => seq![LoadStep::PinThreads],
            None => Seq::empty(),
        }) + seq![LoadStep::BuildRuntime]);
        if self.clickhouse.is_some() {
            steps.push(LoadStep::InitClickhouse);
        }
        steps.push(LoadStep::CreateGrpc { debug_clients: self.debug_clients_http, is_reload });
        steps.push(LoadStep::StartPrometheus { debug_clients: self.debug_clients_http });
        if let Some(config) = self.account_buffer {
            steps.push(LoadStep::SpawnBufferTask(config));
        }
        assert(steps@ =~= self.load_steps(is_reload));
        steps
    }
}

/// Why the plugin is not loaded.
#[derive(Debug, Clone, Copy, PartialEq, Eq, Structural)]
pub enum LoadFailure {
    /// The configuration could not be read.
    Config,
    /// This step could not be taken.
    Step(LoadStep),
}

/// What follows once a step of loading was tried.
#[derive(Debug, Clone, Copy, PartialEq, Eq, Structural)]
pub enum LoadAction {
    /// Take this step next.
    Take(LoadStep),
    /// All steps were taken.
    Done,
    /// Stop, and report that this step could not be taken.
    Stop(LoadStep),
    /// Abort: without this step the validator must not go on.
    Abort(LoadStep),
}

impl LoadStep {
    /// Whether it is an error, and no more, when the step cannot be taken: that is so of the
    /// runtime and of the two servers.
    pub open spec fn is_recoverable(self) -> bool {
        self is BuildRuntime || self is CreateGrpc || self is StartPrometheus
    }

    /// What follows when the step cannot be taken.
    pub open spec fn failure(self) -> LoadAction {
        if self.is_recoverable() {
            LoadAction::Stop(self)
        } else {
            LoadAction::Abort(self)
        }
    }
}

/// What follows once the step with this index was tried: the next step, if it went well and there
/// is one. No step is tried once one could not be taken.
pub open spec fn load_action(steps: Seq<LoadStep>, index: int, went_well: bool) -> LoadAction {
    if !went_well {
        steps[index].failure()
    } else if index + 1 < steps.len() {
        LoadAction::Take(steps[index + 1])
    } else {
        LoadAction::Done
    }
}

/// Says what follows once the step with this index was tried.
pub fn next_load_action(steps: &Vec<LoadStep>, index: usize, went_well: bool) -> (action:
    LoadAction)
    requires
        index < steps@.len(),
    ensures
        action == load_action(steps@, index as int, went_well),
{
    if !went_well {
        let step = steps[index];
        match step {
            LoadStep::BuildRuntime
            | LoadStep::CreateGrpc { .. }
            | LoadStep::StartPrometheus { .. } => LoadAction::Stop(step),
            _ => LoadAction::Abort(step),
        }
    } else if index < steps.len() - 1 {
        LoadAction::Take(steps[index + 1])
    } else {
        LoadAction::Done
    }
}

/// How loading ends that has come to the step with this index, where `went_well` says of each step
/// whether it can be taken.
pub open spec fn load_end(steps: Seq<LoadStep>, went_well: Seq<bool>, index: int) -> LoadAction
    decreases steps.len() - index,
{
    match load_action(steps, index, went_well[index]) {
        LoadAction::Take(_) => if index < steps.len() {
            load_end(steps, went_well, index + 1)
        } else {
            LoadAction::Done
        },
        action => action,
    }
}

proof fn lemma_load_end(steps: Seq<LoadStep>, went_well: Seq<bool>, index: int, failed: int)
    requires
        0 <= index <= failed < steps.len() || (0 <= index < steps.len() && failed == steps.len()),
        forall|i: int| index <= i < failed ==> went_well[i],
        failed < steps.len() ==> !went_well[failed],
    ensures
        load_end(steps, went_well, index) == if failed < steps.len() {
            steps[failed].failure()
        } else {
            LoadAction::Done
        },
    decreases failed - index,
{
    if index < failed && index + 1 < steps.len() {
        lemma_load_end(steps, went_well, index + 1, failed);
    }
}

/// Loading is done exactly where all steps can be taken.
pub proof fn law_loading_takes_every_step(config: Config, is_reload: bool, went_well: Seq<bool>)
    ensures
        load_end(config.load_steps(is_reload), went_well, 0) == LoadAction::Done <==> forall|i: int|
            0 <= i < config.load_steps(is_reload).len() ==> went_well[i],
{
    let steps = config.load_steps(is_reload);
    if forall|i: int| 0 <= i < steps.len() ==> went_well[i] {
        lemma_load_end(steps, went_well, 0, steps.len() as int);
    } else {
        let failed = first_failure(steps, went_well, 0);
        lemma_first_failure(steps, went_well, 0);
        lemma_load_end(steps, went_well, 0, failed);
    }
}

/// Loading ends with the first step that cannot be taken: where that is starting the runtime, the
/// grpc server or the server that metrics are read from, it stops with an error, and else it
/// aborts.
pub proof fn law_loading_ends_with_the_first_failure(
    config: Config,
    is_reload: bool,
    went_well: Seq<bool>,
    failed: int,
)
    requires
        0 <= failed < config.load_steps(is_reload).len(),
        forall|i: int| 0 <= i < failed ==> went_well[i],
        !went_well[failed],
    ensures
        load_end(config.load_steps(is_reload), went_well, 0) == config.load_steps(
            is_reload,
        )[failed].failure(),
{
    lemma_load_end(config.load_steps(is_reload), went_well, 0, failed);
}

/// The first step from an index on that cannot be taken.
spec fn first_failure(steps: Seq<LoadStep>, went_well: Seq<bool>, index: int) -> int
    decreases steps.len() - index,
{
    if index >= steps.len() || !went_well[index] {
        index
    } else {
        first_failure(steps, went_well, index + 1)
    }
}

proof fn lemma_first_failure(steps: Seq<LoadStep>, went_well: Seq<bool>, index: int)
    requires
        0 <= index <= steps.len(),
        exists|i: int| index <= i < steps.len() && !went_well[i],
    ensures
        index <= first_failure(steps, went_well, index) < steps.len(),
        !went_well[first_failure(steps, went_well, index)],
        forall|i: int| index <= i < first_failure(steps, went_well, index) ==> went_well[i],
    decreases steps.len() - index,
{
    if went_well[index] {
        lemma_first_failure(steps, went_well, index + 1);
    }
}

/// How long the runtime may take to stop, in seconds.
pub const SHUTDOWN_TIMEOUT_SECONDS: u64 = 30;

/// One thing that is done when the plugin is unloaded.
#[derive(Debug, Clone, Copy, PartialEq, Eq, Structural)]
pub enum UnloadStep {
    /// Tell the grpc server to stop.
    NotifyGrpcShutdown,
    /// Let go of the channel to the buffer task.
    DropBufferChannel,
    /// Let go of the channel to the grpc pipeline.
    DropGrpcChannel,
    /// Stop the server that metrics are read from.
    ShutdownPrometheus,
    /// Stop the runtime, within so many seconds.
    ShutdownRuntime(u64),
}

/// What is done when a plugin that runs is unloaded, in this order.
pub open spec fn unload_steps() -> Seq<UnloadStep> {
    seq![
        UnloadStep::NotifyGrpcShutdown,
        UnloadStep::DropBufferChannel,
        UnloadStep::DropGrpcChannel,
        UnloadStep::ShutdownPrometheus,
        UnloadStep::ShutdownRuntime(SHUTDOWN_TIMEOUT_SECONDS),
    ]
}

/// Whether a delivery carries a message on an account that the validator handed over.
pub open spec fn delivers_account(
    message: Message,
    account: ReplicaAccountInfoVersions,
    slot: u64,
    is_startup: bool,
    sequence_number: u64,
) -> bool {
    &&& account matches ReplicaAccountInfoVersions::V0_0_3(info)
    &&& message matches Message::Account(news)
    &&& news.tells(info, slot, is_startup, sequence_number)
    &&& is_normal(news.created_at)
}

/// The form of an account that the plugin can take: the third, with a key and an owner.
pub open spec fn is_supported_account(account: ReplicaAccountInfoVersions) -> bool {
    &&& account matches ReplicaAccountInfoVersions::V0_0_3(info)
    &&& info.pubkey@.len() == PUBKEY_BYTES
    &&& info.owner@.len() == PUBKEY_BYTES
}

/// The form of an entry that the plugin can take: the second, with a hash.
pub open spec fn is_supported_entry(entry: ReplicaEntryInfoVersions) -> bool {
    &&& entry matches ReplicaEntryInfoVersions::V0_0_2(info)
    &&& info.hash@.len() == HASH_BYTES
}

/// The plugin, which runs from when it is loaded to when it is unloaded.
#[derive(Debug, Clone, Copy, PartialEq, Eq, Structural)]
pub struct Plugin {
    pub inner: Option<PluginInner>,
}

impl Default for Plugin {
    /// A plugin that is not loaded.
    fn default() -> (plugin: Self)
        ensures
            plugin == (Plugin { inner: None }),
    {
        Plugin { inner: None }
    }
}

impl Plugin {
    /// Runs from now on where loading went well: with this configuration, and with somebody who
    /// takes the startup snapshot or not. Where it failed, that is the error, and nothing changes.
    pub fn on_load(&mut self, loaded: Result<(&Config, bool), LoadFailure>) -> (result: Result<
        (),
        LoadFailure,
    >)
        ensures
            match loaded {
                Ok((config, snapshot_channel)) => {
                    &&& result is Ok
                    &&& final(self).inner == Some(
                        PluginInner {
                            snapshot_channel,
                            snapshot_channel_closed: false,
                            buffering: config.account_buffer is Some,
                        },
                    )
                },
                Err(failure) => {
                    &&& result == Err::<(), LoadFailure>(failure)
                    &&& *final(self) == *old(self)
                },
            },
    {
        match loaded {
            Ok((config, snapshot_channel)) => {
                self.inner = Some(
                    PluginInner {
                        snapshot_channel,
                        snapshot_channel_closed: false,
                        buffering: config.account_buffer.is_some(),
                    },
                );
                Ok(())
            },
            Err(failure) => Err(failure),
        }
    }

    /// Stops, and says what is to be done; where the plugin does not run, that is nothing.
    pub fn on_unload(&mut self) -> (steps: Vec<UnloadStep>)
        ensures
            final(self).inner is None,
            steps@ == if old(self).inner is Some {
                unload_steps()
            } else {
                Seq::empty()
            },
    {
        let mut steps: Vec<UnloadStep> = Vec::new();
        if self.inner.is_some() {
            self.inner = None;
            steps.push(UnloadStep::NotifyGrpcShutdown);
            steps.push(UnloadStep::DropBufferChannel);
            steps.push(UnloadStep::DropGrpcChannel);
            steps.push(UnloadStep::ShutdownPrometheus);
            steps.push(UnloadStep::ShutdownRuntime(SHUTDOWN_TIMEOUT_SECONDS));
        }
        assert(steps@ =~= if old(self).inner is Some {
            unload_steps()
        } else {
            Seq::empty()
        });
        steps
    }

    /// What the running plugin goes by.
    pub fn with_inner(&self) -> (inner: PluginInner)
        requires
            self.inner is Some,
        ensures
            self.inner == Some(inner),
    {
        match self.inner {
            Some(inner) => inner,
            None => unreached(),
        }
    }

    /// Takes an account that was written, or loaded at startup. One that was loaded goes to those
    /// that take the snapshot, if there are any, and nowhere else.
    pub fn update_account(
        &self,
        account: ReplicaAccountInfoVersions<'_>,
        slot: u64,
        is_startup: bool,
        sequence_number: u64,
    ) -> (delivery: Delivery)
        requires
            self.inner is Some,
            is_supported_account(account),
        ensures
            ({
                let inner = self.inner.unwrap();
                if is_startup {
                    if inner.snapshot_channel {
                        delivery matches Delivery::Snapshot(message) && delivers_account(
                            message,
                            account,
                            slot,
                            is_startup,
                            sequence_number,
                        )
                    } else {
                        delivery == Delivery::Nothing
                    }
                } else {
                    exists|message: Message|
                        #![trigger delivers_account(
                            message,
                            account,
                            slot,
                            is_startup,
                            sequence_number,
                        )]
                        delivers_account(message, account, slot, is_startup, sequence_number)
                            && delivery == inner.sends(message)
                }
            }),
    {
        let inner = self.with_inner();
        match account {
            ReplicaAccountInfoVersions::V0_0_3(info) => {
                if is_startup {
                    if inner.snapshot_channel {
                        Delivery::Snapshot(
                            Message::Account(
                                MessageAccount::from_geyser(
                                    &info,
                                    slot,
                                    is_startup,
                                    sequence_number,
                                ),
                            ),
                        )
                    } else {
                        Delivery::Nothing
                    }
                } else {
                    let message = Message::Account(
                        MessageAccount::from_geyser(&info, slot, is_startup, sequence_number),
                    );
                    assert(delivers_account(message, account, slot, is_startup, sequence_number));
                    inner.send_message(message)
                }
            },
            _ => unreached(),
        }
    }

    /// Takes the news that startup is over: nobody takes the snapshot any more.
    pub fn notify_end_of_startup(&mut self)
        requires
            old(self).inner is Some,
        ensures
            final(self).inner == Some(
                PluginInner { snapshot_channel: false, ..old(self).inner.unwrap() },
            ),
    {
        let mut inner = self.with_inner();
        inner.snapshot_channel = false;
        self.inner = Some(inner);
    }

    /// Takes the news of a slot.
    pub fn update_slot_status(
        &self,
        slot: u64,
        parent: Option<u64>,
        status: &GeyserSlotStatus,
        sequence_number: u64,
    ) -> (delivery: Delivery)
        requires
            self.inner is Some,
        ensures
            exists|news: MessageSlot|
                {
                    &&& #[trigger] news.tells(slot, parent, *status, sequence_number)
                    &&& is_normal(news.created_at)
                    &&& delivery == self.inner.unwrap().sends(Message::Slot(news))
                },
    {
        let news = MessageSlot::from_geyser(slot, parent, status, sequence_number);
        assert(news.tells(slot, parent, *status, sequence_number));
        self.with_inner().send_message(Message::Slot(news))
    }

    /// Takes a transaction that was executed.
    pub fn notify_transaction(
        &self,
        transaction: ReplicaTransactionInfoVersions,
        slot: u64,
        sequence_number: u64,
    ) -> (delivery: Delivery)
        requires
            self.inner is Some,
            !(transaction is V0_0_1),
        ensures
            exists|news: MessageTransaction|
                {
                    &&& #[trigger] tells_transaction(news, transaction, slot, sequence_number)
                    &&& delivery == self.inner.unwrap().sends(Message::Transaction(news))
                },
    {
        let inner = self.with_inner();
        match transaction {
            ReplicaTransactionInfoVersions::V0_0_2(info) => {
                let news = MessageTransaction::from_geyser(info, slot, sequence_number);
                assert(tells_transaction(news, transaction, slot, sequence_number));
                inner.send_message(Message::Transaction(news))
            },
            ReplicaTransactionInfoVersions::V0_0_3(info) => {
                let news = MessageTransaction::from_geyser_v3(info, slot, sequence_number);
                assert(tells_transaction(news, transaction, slot, sequence_number));
                inner.send_message(Message::Transaction(news))
            },
            ReplicaTransactionInfoVersions::V0_0_1 => unreached(),
        }
    }

    /// Takes an entry of a block.
    pub fn notify_entry(&self, entry: ReplicaEntryInfoVersions<'_>, sequence_number: u64) -> (delivery:
        Delivery)
        requires
            self.inner is Some,
            is_supported_entry(entry),
        ensures
            exists|news: MessageEntry|
                {
                    &&& #[trigger] news.tells(entry->V0_0_2_0, sequence_number)
                    &&& is_normal(news.created_at)
                    &&& delivery == self.inner.unwrap().sends(Message::Entry(Arc::new(news)))
                },
    {
        let inner = self.with_inner();
        match entry {
            ReplicaEntryInfoVersions::V0_0_2(info) => {
                let news = MessageEntry::from_geyser(&info, sequence_number);
                assert(news.tells(info, sequence_number));
                inner.send_message(Message::Entry(Arc::new(news)))
            },
            ReplicaEntryInfoVersions::V0_0_1 => unreached(),
        }
    }

    /// Takes the description of a block.
    pub fn notify_block_metadata(
        &self,
        blockinfo: ReplicaBlockInfoVersions,
        sequence_number: u64,
    ) -> (delivery: Delivery)
        requires
            self.inner is Some,
            blockinfo is V0_0_4,
        ensures
            exists|news: MessageBlockMeta|
                {
                    &&& #[trigger] news.block_meta == block_meta_of(blockinfo->V0_0_4_0)
                    &&& news.sequence_number == sequence_number
                    &&& is_normal(news.created_at)
                    &&& delivery == self.inner.unwrap().sends(Message::BlockMeta(Arc::new(news)))
                },
    {
        let inner = self.with_inner();
        match blockinfo {
            ReplicaBlockInfoVersions::V0_0_4(info) => {
                let news = MessageBlockMeta::from_geyser(info, sequence_number);
                assert(news.block_meta == block_meta_of(info));
                inner.send_message(Message::BlockMeta(Arc::new(news)))
            },
            _ => unreached(),
        }
    }

    /// Accounts are wanted.
    pub fn account_data_notifications_enabled(&self) -> (enabled: bool)
        ensures
            enabled,
    {
        true
    }

    /// The accounts of a snapshot are not wanted.
    pub fn account_data_snapshot_notifications_enabled(&self) -> (enabled: bool)
        ensures
            !enabled,
    {
        false
    }

    /// Transactions are wanted.
    pub fn transaction_notifications_enabled(&self) -> (enabled: bool)
        ensures
            enabled,
    {
        true
    }

    /// Entries are wanted.
    pub fn entry_notifications_enabled(&self) -> (enabled: bool)
        ensures
            enabled,
    {
        true
    }
}

/// Whether this is the news of a transaction that the validator handed over.
pub open spec fn tells_transaction(
    news: MessageTransaction,
    transaction: ReplicaTransactionInfoVersions,
    slot: u64,
    sequence_number: u64,
) -> bool {
    &&& match transaction {
        ReplicaTransactionInfoVersions::V0_0_1 => false,
        ReplicaTransactionInfoVersions::V0_0_2(info) => (*news.transaction).tells(
            info,
            sequence_number,
        ),
        ReplicaTransactionInfoVersions::V0_0_3(info) => (*news.transaction).tells_v3(
            info,
            sequence_number,
        ),
    }
    &&& news.slot == slot
    &&& is_normal(news.created_at)
}

} // verus!
