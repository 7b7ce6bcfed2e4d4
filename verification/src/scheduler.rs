//! The in-memory scheduler: a bag of events each due at a point in time,
//! handed out earliest-first once due.
use vstd::prelude::*;
use crate::controller_event::ScheduledEvent;

verus! {

/// An event together with the time it is due, in milliseconds.
#[derive(Debug, Copy, Clone, PartialEq, Eq, Structural)]
pub struct TimedEvent {
    pub when: u64,
    pub event: ScheduledEvent,
}

/// The earliest due time among the entries.
pub open spec fn min_when(s: Seq<TimedEvent>) -> u64
    decreases s.len(),
{
    if s.len() <= 1 {
        s[0].when
    } else {
        let m = min_when(s.drop_last());
        if s.last().when < m {
            s.last().when
        } else {
            m
        }
    }
}

/// The index of the first entry with the earliest due time.
pub open spec fn first_min_index(s: Seq<TimedEvent>) -> int
    decreases s.len(),
{
    if s.len() <= 1 {
        0
    } else {
        let j = first_min_index(s.drop_last());
        if s.last().when < s[j].when {
            s.len() - 1
        } else {
            j
        }
    }
}

/// The first-minimum index points at an entry with the earliest due time.
pub proof fn lemma_first_min_index(s: Seq<TimedEvent>)
    requires
        s.len() > 0,
    ensures
        0 <= first_min_index(s) < s.len(),
        s[first_min_index(s)].when == min_when(s),
        forall|j: int| 0 <= j < s.len() ==> min_when(s) <= #[trigger] s[j].when,
    decreases s.len(),
{
    if s.len() > 1 {
        lemma_first_min_index(s.drop_last());
        assert forall|j: int| 0 <= j < s.len() implies min_when(s) <= s[j].when by {
            if j < s.len() - 1 {
                assert(s.drop_last()[j] == s[j]);
            }
        }
    }
}

/// A time-ordered collection of future events.
#[derive(Debug)]
pub struct Scheduler {
    time_events: Vec<TimedEvent>,
}

impl View for Scheduler {
    type V = Seq<TimedEvent>;

    closed spec fn view(&self) -> Seq<TimedEvent> {
        self.time_events@
    }
}

impl Scheduler {
    /// An empty scheduler.
    pub fn new() -> (r: Scheduler)
        ensures
            r@ == Seq::<TimedEvent>::empty(),
    {
        let r = Scheduler { time_events: Vec::new() };
        proof {
            assert(r@ =~= Seq::<TimedEvent>::empty());
        }
        r
    }

    /// How many events are pending.
    pub fn len(&self) -> (r: usize)
        ensures
            r == self@.len(),
    {
        self.time_events.len()
    }

    /// Schedule an event for the given due time.
    pub fn schedule(&mut self, when: u64, event: ScheduledEvent)
        ensures
            final(self)@ == old(self)@.push(TimedEvent { when, event }),
    {
        self.time_events.push(TimedEvent { when, event });
    }

    /// Schedule an event as due right now.
    pub fn schedule_now(&mut self, now: u64, event: ScheduledEvent)
        ensures
            final(self)@ == old(self)@.push(TimedEvent { when: now, event }),
    {
        self.schedule(now, event);
    }

    /// How long until the earliest event is due: zero if it is due or
    /// overdue, `None` if nothing is pending.
    pub fn next_event_duration(&self, now: u64) -> (r: Option<u64>)
        ensures
            match r {
                Some(d) => self@.len() > 0 && d == (if min_when(self@) <= now {
                    0u64
                } else {
                    (min_when(self@) - now) as u64
                }),
                None => self@.len() == 0,
            },
    {
        if self.time_events.len() == 0 {
            return None;
        }
        let i = self.find_first_min();
        proof {
            lemma_first_min_index(self@);
        }
        let when = self.time_events[i].when;
        if when <= now {
            Some(0)
        } else {
            Some(when - now)
        }
    }

    /// Pop the first earliest event if it is due at `now`; otherwise
    /// leave everything pending.
    pub fn next_event(&mut self, now: u64) -> (r: Option<ScheduledEvent>)
        ensures
            match r {
                Some(e) => old(self)@.len() > 0 && min_when(old(self)@) <= now && e == old(
                    self,
                )@[first_min_index(old(self)@)].event && final(self)@ == old(self)@.remove(
                    first_min_index(old(self)@),
                ),
                None => *final(self) == *old(self) && (old(self)@.len() == 0 || min_when(old(self)@)
                    > now),
            },
    {
        if self.time_events.len() == 0 {
            return None;
        }
        let i = self.find_first_min();
        proof {
            lemma_first_min_index(self@);
        }
        if self.time_events[i].when > now {
            return None;
        }
        let entry = self.time_events.remove(i);
        Some(entry.event)
    }

    /// The index of the first entry with the earliest due time.
    fn find_first_min(&self) -> (r: usize)
        requires
            self@.len() > 0,
        ensures
            r == first_min_index(self@),
    {
        let n = self.time_events.len();
        let mut best: usize = 0;
        let mut i: usize = 1;
        while i < n
            invariant
                n == self@.len(),
                1 <= i <= n,
                best < i,
                best == first_min_index(self@.take(i as int)),
                self@.take(i as int)[best as int] == self@[best as int],
            decreases n - i,
        {
            proof {
                assert(self@.take(i + 1).drop_last() =~= self@.take(i as int));
                assert(self@.take(i + 1).last() == self@[i as int]);
            }
            if self.time_events[i].when < self.time_events[best].when {
                best = i;
            }
            proof {
                assert(self@.take(i + 1)[best as int] == self@[best as int]);
            }
            i = i + 1;
        }
        proof {
            assert(self@.take(n as int) =~= self@);
        }
        best
    }
}

impl Default for Scheduler {
    /// An empty scheduler.
    fn default() -> (r: Scheduler)
        ensures
            r@ == Seq::<TimedEvent>::empty(),
    {
        Scheduler::new()
    }
}

} // verus!
