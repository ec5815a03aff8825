use vstd::prelude::*;

verus! {

/// Most messages taken off the queue in one drain cycle.
pub const BATCH_SIZE: usize = 1000;

/// Pause after a drain cycle that found the queue empty.
pub const IDLE_SLEEP_MS: u64 = 1000;

/// The list the sync messages are queued on.
pub const QUEUE_KEY: &'static str = "rule_message_thread_rule_verify";

/// What one pop from the queue gave.
#[derive(Debug)]
pub enum Popped {
    Message(String),
    /// The queue is empty.
    Exhausted,
    /// The queue could not be reached; the cycle ends with what it has.
    Failed,
}

/// One drain cycle: messages popped so far, and whether the cycle ended.
#[derive(Debug)]
pub struct Drain {
    pub items: Vec<String>,
    pub max: usize,
    pub closed: bool,
}

impl Drain {
    pub open spec fn wf(&self) -> bool {
        self.items.len() <= self.max
    }

    pub open spec fn open_spec(&self) -> bool {
        !self.closed && self.items.len() < self.max
    }

    /// A cycle that takes up to `max` messages.
    pub fn new(max: usize) -> (r: Drain)
        ensures
            r.wf(),
            r.items@.len() == 0,
            r.max == max,
            !r.closed,
    {
        Drain { items: Vec::new(), max, closed: false }
    }

    /// Whether the cycle pops again.
    pub fn wants_more(&self) -> (r: bool)
        ensures
            r == self.open_spec(),
    {
        !self.closed && self.items.len() < self.max
    }

    /// Takes the result of one pop: a message is kept; an empty queue or a
    /// queue error ends the cycle.
    pub fn offer(&mut self, popped: Popped)
        requires
            old(self).wf(),
            old(self).open_spec(),
        ensures
            final(self).wf(),
            final(self).max == old(self).max,
            popped matches Popped::Message(m) ==> final(self).items@ == old(self).items@.push(m)
                && !final(self).closed,
            !(popped is Message) ==> final(self).items@ == old(self).items@ && final(self).closed,
    {
        match popped {
            Popped::Message(m) => self.items.push(m),
            _ => self.closed = true,
        }
    }

    /// The messages of the cycle, in the order they were popped.
    pub fn finish(self) -> (r: Vec<String>)
        requires
            self.wf(),
        ensures
            r@ == self.items@,
            r@.len() <= self.max,
    {
        self.items
    }
}

/// How long to pause before the next cycle: a cycle that found nothing
/// waits `IDLE_SLEEP_MS`; one that found work goes on at once.
pub fn idle_pause(found: usize) -> (r: Option<u64>)
    ensures
        found == 0 ==> r == Some(IDLE_SLEEP_MS),
        found > 0 ==> r is None,
{
    if found == 0 {
        Some(IDLE_SLEEP_MS)
    } else {
        None
    }
}

} // verus!
