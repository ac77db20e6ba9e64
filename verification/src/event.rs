//! Progress events and the queues that carry events from a job to its consumer.

use vstd::prelude::*;
use std::collections::VecDeque;

verus! {

/// A fraction of the work of a job, kept exact as a quotient of two counts.
#[derive(Clone, Copy, Debug, PartialEq, Eq, Structural)]
pub struct Fraction {
    pub numerator: usize,
    pub denominator: usize,
}

impl Fraction {
    /// The fraction lies between 0 and 1: its denominator is positive and its
    /// numerator does not exceed it.
    pub open spec fn is_proper(self) -> bool {
        0 < self.denominator && self.numerator <= self.denominator
    }

    /// The fraction equals 1.
    pub open spec fn is_whole(self) -> bool {
        0 < self.denominator && self.numerator == self.denominator
    }

    /// `self < other`, for fractions with positive denominators.
    pub open spec fn less_than(self, other: Fraction) -> bool {
        self.numerator * other.denominator < other.numerator * self.denominator
    }

    /// `self <= other`, for fractions with positive denominators.
    pub open spec fn at_most(self, other: Fraction) -> bool {
        self.numerator * other.denominator <= other.numerator * self.denominator
    }

    /// The fraction 1.
    pub fn whole() -> (one: Fraction)
        ensures
            one == (Fraction { numerator: 1, denominator: 1 }),
            one.is_whole(),
    {
        Fraction { numerator: 1, denominator: 1 }
    }

    /// Tells whether the fraction has reached 1.
    pub fn is_complete(&self) -> (complete: bool)
        ensures
            complete == self.is_whole(),
    {
        0 < self.denominator && self.numerator == self.denominator
    }
}

/// One report of how far a job has come.
#[derive(Clone, Copy, Debug, PartialEq, Eq, Structural)]
pub struct ProgressEvent {
    pub fraction: Fraction,
    pub finished: bool,
}

/// The event emitted once entry `index` of `total` has been handled.
pub open spec fn step_event(index: int, total: int) -> ProgressEvent {
    ProgressEvent {
        fraction: Fraction { numerator: (index + 1) as usize, denominator: total as usize },
        finished: false,
    }
}

/// The event that ends the progress stream of a job.
pub open spec fn terminal_event() -> ProgressEvent {
    ProgressEvent { fraction: Fraction { numerator: 1, denominator: 1 }, finished: true }
}

/// The events of a job that has handled all of its `total` entries, without the
/// terminal one: the fractions `1/total`, `2/total`, up to `total/total`.
pub open spec fn step_events(total: int) -> Seq<ProgressEvent> {
    Seq::new(total as nat, |index: int| step_event(index, total))
}

impl ProgressEvent {
    /// The event for entry `index` of `total`, counted from 0.
    pub fn step(index: usize, total: usize) -> (event: ProgressEvent)
        requires
            index < total,
        ensures
            event == step_event(index as int, total as int),
            event.fraction.is_proper(),
    {
        ProgressEvent {
            fraction: Fraction { numerator: index + 1, denominator: total },
            finished: false,
        }
    }

    /// The event that ends the progress stream of a job.
    pub fn terminal() -> (event: ProgressEvent)
        ensures
            event == terminal_event(),
    {
        ProgressEvent { fraction: Fraction::whole(), finished: true }
    }
}

/// An unbounded first-in, first-out queue of events between one producer and
/// one consumer. Sending never waits, and receiving never waits either: it
/// hands out the oldest buffered event, or nothing.
pub struct EventQueue<T> {
    items: VecDeque<T>,
}

impl<T> View for EventQueue<T> {
    type V = Seq<T>;

    /// The buffered events, oldest first.
    closed spec fn view(&self) -> Seq<T> {
        self.items@
    }
}

impl<T> EventQueue<T> {
    /// An empty queue.
    pub fn new() -> (queue: Self)
        ensures
            queue@ == Seq::<T>::empty(),
    {
        EventQueue { items: VecDeque::new() }
    }

    /// Buffers `event` behind all events sent before.
    pub fn send(&mut self, event: T)
        ensures
            final(self)@ == old(self)@.push(event),
    {
        self.items.push_back(event);
    }

    /// Takes the oldest buffered event out, if there is one.
    pub fn try_recv(&mut self) -> (received: Option<T>)
        ensures
            match received {
                Some(event) => {
                    &&& old(self)@.len() > 0
                    &&& event == old(self)@[0]
                    &&& final(self)@ == old(self)@.skip(1)
                },
                None => {
                    &&& old(self)@.len() == 0
                    &&& final(self)@ == old(self)@
                },
            },
    {
        let received = self.items.pop_front();
        proof {
            if received is Some {
                assert(old(self)@.subrange(1, old(self)@.len() as int) =~= old(self)@.skip(1));
            }
        }
        received
    }

    /// The number of buffered events.
    pub fn len(&self) -> (count: usize)
        ensures
            count == self@.len(),
    {
        self.items.len()
    }

    /// Tells whether no event is buffered.
    pub fn is_empty(&self) -> (empty: bool)
        ensures
            empty == (self@.len() == 0),
    {
        self.items.len() == 0
    }
}

} // verus!
