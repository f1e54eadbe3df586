//! The bounded message log: an ordered sequence of `(text, color)` lines.
//! Its length never exceeds its capacity; appending to a full log first
//! evicts the oldest line.

use vstd::prelude::*;
use vstd::math::min;
use crate::entity::Color;

verus! {

/// The height of the message area on the original interface panel: the
/// default log capacity.
pub const MSG_HEIGHT: usize = 6;

/// A bounded FIFO of log lines, most recent last.
pub struct Messages {
    entries: Vec<(String, Color)>,
    capacity: usize,
}

/// One append to a bounded log: evict the oldest line first if the log is
/// at capacity.
pub open spec fn log_push(
    s: Seq<(Seq<char>, Color)>,
    m: (Seq<char>, Color),
    cap: nat,
) -> Seq<(Seq<char>, Color)> {
    if s.len() < cap {
        s.push(m)
    } else {
        s.drop_first().push(m)
    }
}

/// A whole sequence of appends, oldest first.
pub open spec fn log_push_all(
    s: Seq<(Seq<char>, Color)>,
    ms: Seq<(Seq<char>, Color)>,
    cap: nat,
) -> Seq<(Seq<char>, Color)>
    decreases ms.len(),
{
    if ms.len() == 0 {
        s
    } else {
        log_push_all(log_push(s, ms.first(), cap), ms.drop_first(), cap)
    }
}

impl View for Messages {
    type V = Seq<(Seq<char>, Color)>;

    closed spec fn view(&self) -> Seq<(Seq<char>, Color)> {
        self.entries@.map_values(|e: (String, Color)| (e.0@, e.1))
    }
}

impl Messages {
    pub closed spec fn capacity(self) -> nat {
        self.capacity as nat
    }

    pub open spec fn wf(self) -> bool {
        1 <= self.capacity() && self@.len() <= self.capacity()
    }

    /// An empty log with the given capacity.
    pub fn new(capacity: usize) -> (m: Messages)
        requires
            1 <= capacity,
        ensures
            m.wf(),
            m.capacity() == capacity,
            m@ == Seq::<(Seq<char>, Color)>::empty(),
    {
        let m = Messages { entries: Vec::new(), capacity };
        proof {
            assert(m@ =~= Seq::<(Seq<char>, Color)>::empty());
        }
        m
    }

    /// The number of lines currently held.
    pub fn len(&self) -> (n: usize)
        ensures
            n == self@.len(),
    {
        self.entries.len()
    }

    /// Read one line.
    pub fn line(&self, i: usize) -> (e: &(String, Color))
        requires
            i < self@.len(),
        ensures
            (e.0@, e.1) == self@[i as int],
    {
        &self.entries[i]
    }
}

/// Append one line to the log, evicting the oldest line first if the log
/// is full.
pub fn log_message(messages: &mut Messages, text: String, color: Color)
    requires
        old(messages).wf(),
    ensures
        final(messages).wf(),
        final(messages).capacity() == old(messages).capacity(),
        final(messages)@ == log_push(old(messages)@, (text@, color), old(messages).capacity()),
{
    if messages.entries.len() == messages.capacity {
        messages.entries.remove(0);
        proof {
            assert(messages@ =~= old(messages)@.drop_first());
        }
    }
    let ghost before = messages@;
    messages.entries.push((text, color));
    proof {
        assert(messages@ =~= before.push((text@, color)));
    }
}

/// Appending a stream of lines leaves exactly the most recent lines of the
/// whole stream (existing lines followed by the appended ones), capped at
/// the capacity: the log is always a suffix of everything ever logged.
pub proof fn lemma_log_push_all_suffix(
    s: Seq<(Seq<char>, Color)>,
    ms: Seq<(Seq<char>, Color)>,
    cap: nat,
)
    requires
        1 <= cap,
        s.len() <= cap,
    ensures
        log_push_all(s, ms, cap).len() == min(cap as int, s.len() + ms.len() as int),
        log_push_all(s, ms, cap) == (s + ms).subrange(
            s.len() + ms.len() - min(cap as int, s.len() + ms.len() as int),
            s.len() + ms.len() as int,
        ),
    decreases ms.len(),
{
    let t = s + ms;
    let n = min(cap as int, t.len() as int);
    if ms.len() == 0 {
        assert(log_push_all(s, ms, cap) =~= t.subrange(t.len() - n, t.len() as int));
    } else {
        let s1 = log_push(s, ms.first(), cap);
        lemma_log_push_all_suffix(s1, ms.drop_first(), cap);
        if s.len() < cap {
            assert(s1 + ms.drop_first() =~= t);
        } else {
            assert(s1 + ms.drop_first() =~= t.drop_first());
            let t1 = t.drop_first();
            let n1 = min(cap as int, t1.len() as int);
            assert(n1 == n);
            assert(t1.subrange(t1.len() - n1, t1.len() as int) =~= t.subrange(
                t.len() - n,
                t.len() as int,
            ));
        }
    }
}

/// The message-log bound: appending more lines than the log's capacity
/// leaves exactly the last `cap` of them, oldest first.
pub proof fn lemma_log_bounded(s: Seq<(Seq<char>, Color)>, ms: Seq<(Seq<char>, Color)>, cap: nat)
    requires
        1 <= cap,
        s.len() <= cap,
    ensures
        log_push_all(s, ms, cap).len() <= cap,
        ms.len() >= cap ==> log_push_all(s, ms, cap) == ms.subrange(
            ms.len() - cap,
            ms.len() as int,
        ),
{
    lemma_log_push_all_suffix(s, ms, cap);
    if ms.len() >= cap {
        assert((s + ms).subrange(s.len() + ms.len() - cap, s.len() + ms.len() as int)
            =~= ms.subrange(ms.len() - cap, ms.len() as int));
    }
}

} // verus!
