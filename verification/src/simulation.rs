//! Messages without a validator, for trying the server out.

use crate::message::{is_normal, Message, MessageSlot, SlotStatus};
use crate::timestamp::Timestamp;
use vstd::prelude::*;

verus! {

/// The slot that the simulation begins with.
pub const FIRST_SLOT: u64 = 1000;

/// How long to wait before each message, in microseconds.
pub const INTERVAL_MICROS: u64 = 100;

/// After how many slots it is worth a line in the log.
pub const LOG_EVERY: u64 = 1000;

/// Makes one processed slot after the other.
#[derive(Debug, Clone, Copy, PartialEq, Eq, Structural)]
pub struct Simulation {
    slot: u64,
}

impl Simulation {
    /// The slot that comes next.
    pub closed spec fn slot(self) -> u64 {
        self.slot
    }

    /// Whether there is a slot after the next one, and one before it.
    pub open spec fn can_go_on(self) -> bool {
        0 < self.slot() < u64::MAX
    }

    /// A simulation that just begins.
    pub fn new() -> (simulation: Self)
        ensures
            simulation.slot() == FIRST_SLOT,
    {
        Simulation { slot: FIRST_SLOT }
    }

    /// Finds out whether there is a slot after the next one.
    pub fn has_next(&self) -> (more: bool)
        ensures
            more == self.can_go_on(),
    {
        0 < self.slot && self.slot < u64::MAX
    }

    /// The message on the next slot, made now, and whether the count is worth a line in the log.
    pub fn simulate_messages(&mut self) -> (step: (Message, bool))
        requires
            old(self).can_go_on(),
        ensures
            final(self).slot() == old(self).slot() + 1,
            step.0 matches Message::Slot(news) && is_simulated(news, old(self).slot())
                && is_normal(news.created_at),
            step.1 == (final(self).slot() % LOG_EVERY == 0),
    {
        self.next_at(Timestamp::now())
    }

    /// The message on the next slot, made at the given time, and whether the count is worth a line
    /// in the log.
    pub fn next_at(&mut self, created_at: Timestamp) -> (step: (Message, bool))
        requires
            old(self).can_go_on(),
        ensures
            final(self).slot() == old(self).slot() + 1,
            step.0 matches Message::Slot(news) && is_simulated(news, old(self).slot())
                && news.created_at == created_at,
            step.1 == (final(self).slot() % LOG_EVERY == 0),
    {
        let news = MessageSlot {
            slot: self.slot,
            parent: Some(self.slot - 1),
            status: SlotStatus::Processed,
            dead_error: None,
            created_at,
            sequence_number: 0,
        };
        self.slot = self.slot + 1;
        (Message::Slot(news), self.slot % LOG_EVERY == 0)
    }
}

/// Whether this is the news that a slot was processed whose parent is the slot before it.
pub open spec fn is_simulated(news: MessageSlot, slot: u64) -> bool {
    &&& news.slot == slot
    &&& news.parent == Some((slot - 1) as u64)
    &&& news.status == SlotStatus::Processed
    &&& news.dead_error is None
    &&& news.sequence_number == 0
}

} // verus!
