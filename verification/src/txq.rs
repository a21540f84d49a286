//! The per-session transmit queue and idle-timeout enforcement.
//!
//! Each session owns one bounded first-in-first-out queue of serialized
//! wire texts.  Local replies and bridge deliveries are enqueued at the
//! back; the writer takes from the front, so per-session delivery order is
//! exactly enqueue order.  The bound keeps a stalled client from growing
//! memory: a full queue rejects the event instead of buffering without
//! limit.  The writer also owns the idle timeout: a session that stops
//! answering Ping is closed, never left open indefinitely.

use vstd::prelude::*;
use crate::close::{CloseFrame, CODE_IDLE_TIMEOUT};

verus! {

/// Enqueueing on a full queue is rejected; the event is not buffered.
#[derive(Debug)]
pub enum TxError {
    QueueFull,
}

/// A bounded first-in-first-out queue of wire texts.
pub struct TxQueue {
    pub items: Vec<String>,
    pub bound: usize,
}

impl TxQueue {
    /// The queued texts, front first.
    pub open spec fn contents(self) -> Seq<Seq<char>> {
        self.items.deep_view()
    }

    /// The fixed capacity.
    pub open spec fn capacity(self) -> nat {
        self.bound as nat
    }

    /// A queue never holds more than its bound.
    pub open spec fn wf(self) -> bool {
        self.items@.len() <= self.bound
    }

    /// An empty queue with the given bound.
    pub fn new(bound: usize) -> (q: TxQueue)
        requires
            bound >= 1,
        ensures
            q.wf(),
            q.contents() == Seq::<Seq<char>>::empty(),
            q.capacity() == bound,
    {
        let q = TxQueue { items: Vec::new(), bound };
        proof {
            assert(q.contents() =~= Seq::<Seq<char>>::empty());
        }
        q
    }

    /// How many texts wait.
    pub fn len(&self) -> (n: usize)
        ensures
            n == self.contents().len(),
    {
        self.items.len()
    }

    /// Appends one text at the back; rejects it, changing nothing, exactly
    /// when the queue is full.
    pub fn enqueue(&mut self, text: String) -> (r: Result<(), TxError>)
        requires
            old(self).wf(),
        ensures
            final(self).wf(),
            final(self).capacity() == old(self).capacity(),
            match r {
                Result::Ok(u) => old(self).contents().len() < old(self).capacity()
                    && final(self).contents() == old(self).contents().push(text@),
                Result::Err(e) => e == TxError::QueueFull
                    && old(self).contents().len() == old(self).capacity()
                    && final(self).contents() == old(self).contents(),
            },
    {
        if self.items.len() < self.bound {
            let ghost before = self.items.deep_view();
            self.items.push(text);
            proof {
                assert(self.items.deep_view() =~= before.push(text@));
            }
            Result::Ok(())
        } else {
            Result::Err(TxError::QueueFull)
        }
    }

    /// Takes the front text: always the earliest one still queued, so two
    /// texts enqueued in some order are dequeued in that order.
    pub fn dequeue(&mut self) -> (r: Option<String>)
        requires
            old(self).wf(),
        ensures
            final(self).wf(),
            final(self).capacity() == old(self).capacity(),
            match r {
                Option::Some(text) => old(self).contents().len() >= 1
                    && text@ == old(self).contents()[0]
                    && final(self).contents() == old(self).contents().skip(1),
                Option::None => old(self).contents().len() == 0
                    && final(self).contents() == old(self).contents(),
            },
    {
        if self.items.len() == 0 {
            return Option::None;
        }
        let ghost before = self.items.deep_view();
        let text = self.items.remove(0);
        proof {
            assert(self.items.deep_view() =~= before.skip(1));
        }
        Option::Some(text)
    }
}

/// Per-session delivery order: enqueuing `e1` and then `e2` places `e1`
/// strictly in front of `e2`, and every later enqueue leaves both where
/// they are, so the front-taking dequeue hands `e1` out first.
pub proof fn lemma_delivery_order(c: Seq<Seq<char>>, e1: Seq<char>, e2: Seq<char>, later: Seq<char>)
    ensures
        c.push(e1).push(e2)[c.len() as int] == e1,
        c.push(e1).push(e2)[c.len() as int + 1] == e2,
        c.push(e1).push(e2).push(later)[c.len() as int] == e1,
        c.push(e1).push(e2).push(later)[c.len() as int + 1] == e2,
        c.push(e1).push(e2).skip(1).len() < c.push(e1).push(e2).len(),
{
}

/// The one dequeue step keeps the relative order of everything behind the
/// front: what stood at `i` and `j` with `i < j` stands at `i - 1` and
/// `j - 1` afterwards, still in the same order.
pub proof fn lemma_dequeue_keeps_order(c: Seq<Seq<char>>, i: int, j: int)
    requires
        1 <= i < j < c.len(),
    ensures
        c.skip(1)[i - 1] == c[i],
        c.skip(1)[j - 1] == c[j],
        i - 1 < j - 1,
{
}

/// Whether the idle window has run out: a Ping was sent after the last
/// Pong arrived, and more than `window` ticks have passed since.  Exactly
/// then the session is closed with the idle-timeout code.
pub fn idle_check(last_ping: u64, last_pong: u64, now: u64, window: u64) -> (r: Option<CloseFrame>)
    ensures
        match r {
            Option::Some(f) => f.code == CODE_IDLE_TIMEOUT && last_pong < last_ping
                && now > last_ping + window,
            Option::None => !(last_pong < last_ping && now > last_ping + window),
        },
{
    if last_pong < last_ping && now > last_ping && now - last_ping > window {
        Option::Some(
            CloseFrame {
                code: CODE_IDLE_TIMEOUT,
                reason: String::from_str("no pong received within the configured window"),
            },
        )
    } else {
        Option::None
    }
}

} // verus!
