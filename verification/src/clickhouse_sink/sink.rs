//! Items are gathered, and written in batches.

use vstd::prelude::*;

verus! {

/// How many items make a batch.
pub const DEFAULT_FLUSH_BATCH_SIZE: usize = 500_000;

/// How many items can wait for the sink.
pub const DEFAULT_SINK_CHANNEL_SIZE: usize = 10_000_000;

/// How often what was gathered is written, in milliseconds.
pub const DEFAULT_FLUSH_INTERVAL_MS: u64 = 500;

/// How often the length of the queue is looked at, in seconds.
pub const MONITOR_INTERVAL_SECONDS: u64 = 1;

/// What can be written to the database.
pub trait Flushable: Sized {
    /// The row that is written.
    type Row;

    /// The table that the row is written to.
    fn table_name() -> &'static str;

    /// The row that is written of an item.
    fn to_row(self) -> Self::Row;
}

/// Gathers items of one kind.
pub struct Sink<F: Flushable> {
    batch: Vec<F>,
}

/// What to do with a batch.
pub enum FlushPlan<R> {
    /// Nothing: the batch is empty.
    Nothing,
    /// Log that so many rows for this table are dropped: the database would not take them.
    Dropped { table: &'static str, count: usize },
    /// Write these rows to this table, one after the other.
    Write { table: &'static str, rows: Vec<R> },
}

/// Whether `rows` are what the items are turned into, in their order.
pub open spec fn are_rows_of<F: Flushable>(items: Seq<F>, rows: Seq<F::Row>) -> bool {
    &&& rows.len() == items.len()
    &&& forall|i: int|
        0 <= i < items.len() ==> call_ensures(F::to_row, (items[i],), #[trigger] rows[i])
}

/// What comes to a sink.
pub enum SinkEvent<F> {
    /// An item.
    Item(F),
    /// The time at which what was gathered is written.
    FlushTick,
}

/// What a sink has gathered once an event came, before anything is flushed.
pub open spec fn gathered_after<F>(gathered: Seq<F>, event: SinkEvent<F>) -> Seq<F> {
    match event {
        SinkEvent::Item(item) => gathered.push(item),
        SinkEvent::FlushTick => gathered,
    }
}

/// Whether a sink flushes what it has gathered once an event came: on an item where the batch is
/// then full, and when it is time where there is anything.
pub open spec fn flushes<F>(gathered: Seq<F>, event: SinkEvent<F>) -> bool {
    match event {
        SinkEvent::Item(item) => gathered.push(item).len() >= DEFAULT_FLUSH_BATCH_SIZE,
        SinkEvent::FlushTick => gathered.len() > 0,
    }
}

impl<F: Flushable> Sink<F> {
    /// The items gathered.
    pub closed spec fn gathered(self) -> Seq<F> {
        self.batch@
    }

    /// A sink that has gathered nothing.
    pub fn new() -> (sink: Self)
        ensures
            sink.gathered() == Seq::<F>::empty(),
    {
        Sink { batch: Vec::new() }
    }

    /// Gathers an item, and says whether the batch is full.
    pub fn on_item(&mut self, item: F) -> (flush: bool)
        ensures
            final(self).gathered() == gathered_after(old(self).gathered(), SinkEvent::Item(item)),
            flush == flushes(old(self).gathered(), SinkEvent::Item(item)),
    {
        self.batch.push(item);
        self.batch.len() >= DEFAULT_FLUSH_BATCH_SIZE
    }

    /// Says whether anything is to be written when it is time.
    pub fn on_flush_tick(&self) -> (flush: bool)
        ensures
            flush == flushes(self.gathered(), SinkEvent::FlushTick),
    {
        self.batch.len() > 0
    }

    /// Says whether the queue of items that wait is so long that it is worth a warning: longer
    /// than half of what can wait.
    pub fn on_monitor_tick(queue_len: usize) -> (warn: bool)
        ensures
            warn == (queue_len > DEFAULT_SINK_CHANNEL_SIZE / 2),
    {
        queue_len > DEFAULT_SINK_CHANNEL_SIZE / 2
    }

    /// Says what to do with the batch, which is then empty; `insert_created` says whether the
    /// database would take rows.
    pub fn flush_rows(&mut self, insert_created: bool) -> (plan: FlushPlan<F::Row>)
        requires
            call_requires(F::table_name, ()),
            forall|item: F| call_requires(F::to_row, (item,)),
        ensures
            final(self).gathered() == Seq::<F>::empty(),
            if old(self).gathered().len() == 0 {
                plan is Nothing
            } else if !insert_created {
                plan matches FlushPlan::Dropped { table, count } && call_ensures(
                    F::table_name,
                    (),
                    table,
                ) && count == old(self).gathered().len()
            } else {
                plan matches FlushPlan::Write { table, rows } && call_ensures(
                    F::table_name,
                    (),
                    table,
                ) && are_rows_of::<F>(old(self).gathered(), rows@)
            },
    {
        let ghost all = self.batch@;
        let size: usize = self.batch.len();
        if size == 0 {
            assert(self.batch@ =~= Seq::<F>::empty());
            return FlushPlan::Nothing;
        }
        let table = F::table_name();
        if !insert_created {
            self.batch.clear();
            return FlushPlan::Dropped { table, count: size };
        }
        let mut backward: Vec<F> = Vec::new();
        while self.batch.len() > 0
            invariant
                self.batch@.len() + backward@.len() == all.len(),
                self.batch@ == all.take(self.batch@.len() as int),
                forall|j: int|
                    0 <= j < backward@.len() ==> #[trigger] backward@[j] == all[all.len() - 1 - j],
            decreases self.batch@.len(),
        {
            match self.batch.pop() {
                Some(item) => backward.push(item),
                None => {},
            }
            assert(self.batch@ =~= all.take(self.batch@.len() as int));
        }
        let mut rows: Vec<F::Row> = Vec::new();
        while backward.len() > 0
            invariant
                forall|item: F| call_requires(F::to_row, (item,)),
                rows@.len() + backward@.len() == all.len(),
                forall|j: int|
                    0 <= j < backward@.len() ==> #[trigger] backward@[j] == all[all.len() - 1 - j],
                forall|i: int|
                    0 <= i < rows@.len() ==> call_ensures(
                        F::to_row,
                        (all[i],),
                        #[trigger] rows@[i],
                    ),
            decreases backward@.len(),
        {
            match backward.pop() {
                Some(item) => {
                    assert(item == all[rows@.len() as int]);
                    rows.push(item.to_row());
                },
                None => {},
            }
        }
        assert(self.batch@ =~= Seq::<F>::empty());
        FlushPlan::Write { table, rows }
    }
}

/// The items that come in some events, in their order.
pub open spec fn items_in<F>(events: Seq<SinkEvent<F>>) -> Seq<F>
    decreases events.len(),
{
    if events.len() == 0 {
        Seq::empty()
    } else {
        match events.last() {
            SinkEvent::Item(item) => items_in(events.drop_last()).push(item),
            SinkEvent::FlushTick => items_in(events.drop_last()),
        }
    }
}

/// The batches that a sink has flushed once some events came, and what it has gathered since. It
/// begins with nothing, and flushes where the event says so, which leaves it with nothing again.
pub open spec fn batches_after<F>(events: Seq<SinkEvent<F>>) -> (Seq<Seq<F>>, Seq<F>)
    decreases events.len(),
{
    if events.len() == 0 {
        (Seq::empty(), Seq::empty())
    } else {
        let (batches, pending) = batches_after(events.drop_last());
        let batch = gathered_after(pending, events.last());
        if flushes(pending, events.last()) {
            (batches.push(batch), Seq::empty())
        } else {
            (batches, batch)
        }
    }
}

/// Batches one after the other.
pub open spec fn joined<F>(batches: Seq<Seq<F>>) -> Seq<F>
    decreases batches.len(),
{
    if batches.len() == 0 {
        Seq::empty()
    } else {
        joined(batches.drop_last()) + batches.last()
    }
}

/// Whatever comes, the batches that were flushed, followed by what is gathered still, are all items
/// that came, in their order and each once.
pub proof fn law_no_item_is_lost<F>(events: Seq<SinkEvent<F>>)
    ensures
        joined(batches_after(events).0) + batches_after(events).1 == items_in(events),
    decreases events.len(),
{
    if events.len() == 0 {
        assert(joined(batches_after(events).0) + batches_after(events).1 =~= items_in(events));
    } else {
        let first = events.drop_last();
        let last = events.last();
        law_no_item_is_lost(first);
        let (batches, pending) = batches_after(first);
        let batch = gathered_after(pending, last);
        assert(joined(batches) + batch =~= items_in(events)) by {
            if let SinkEvent::Item(item) = last {
                assert(joined(batches) + pending.push(item) =~= (joined(batches) + pending).push(
                    item,
                ));
            }
        }
        if flushes(pending, last) {
            assert(batches.push(batch).drop_last() =~= batches);
            assert(joined(batches.push(batch)) + Seq::<F>::empty() =~= joined(batches) + batch);
        }
    }
}

/// Whatever comes, each batch that was flushed holds at least one item and at most as many as make
/// a batch, and what is gathered still is less than a batch: one that is full is flushed before
/// another item is taken.
pub proof fn law_batches_are_bounded<F>(events: Seq<SinkEvent<F>>)
    ensures
        forall|i: int|
            0 <= i < batches_after(events).0.len() ==> 1 <= (#[trigger] batches_after(
                events,
            ).0[i]).len() <= DEFAULT_FLUSH_BATCH_SIZE,
        batches_after(events).1.len() < DEFAULT_FLUSH_BATCH_SIZE,
    decreases events.len(),
{
    if events.len() > 0 {
        law_batches_are_bounded(events.drop_last());
    }
}

/// What happened last while a batch is written.
#[derive(Debug, Clone, Copy, PartialEq, Eq, Structural)]
pub enum FlushEvent {
    /// Writing began.
    Begin,
    /// So many rows were written.
    Written(usize),
    /// A row could not be written.
    WriteFailed,
    /// The database was told that these were all rows, and it confirmed or did not.
    Ended(bool),
}

/// What to do next while a batch is written.
#[derive(Debug, Clone, Copy, PartialEq, Eq, Structural)]
pub enum FlushAction {
    /// Write the row with this index.
    Write(usize),
    /// Tell the database that these were all rows.
    End,
    /// It is done.
    Done,
    /// Log that the remaining rows are dropped, and stop.
    DropRemaining,
    /// Log that the batch may be lost, and stop.
    MayBeLost,
}

/// What to do next while a batch of `total` rows is written: one row after the other, then the
/// end. The first row that cannot be written stops it, without the end.
pub fn next_flush_action(event: FlushEvent, total: usize) -> (action: FlushAction)
    ensures
        action == match event {
            FlushEvent::Begin => if total > 0 {
                FlushAction::Write(0)
            } else {
                FlushAction::End
            },
            FlushEvent::Written(count) => if count < total {
                FlushAction::Write(count)
            } else {
                FlushAction::End
            },
            FlushEvent::WriteFailed => FlushAction::DropRemaining,
            FlushEvent::Ended(confirmed) => if confirmed {
                FlushAction::Done
            } else {
                FlushAction::MayBeLost
            },
        },
{
    match event {
        FlushEvent::Begin => if total > 0 {
            FlushAction::Write(0)
        } else {
            FlushAction::End
        },
        FlushEvent::Written(count) => if count < total {
            FlushAction::Write(count)
        } else {
            FlushAction::End
        },
        FlushEvent::WriteFailed => FlushAction::DropRemaining,
        FlushEvent::Ended(confirmed) => if confirmed {
            FlushAction::Done
        } else {
            FlushAction::MayBeLost
        },
    }
}

} // verus!
