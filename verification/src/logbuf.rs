//! Bounded, insertion-ordered buffer of log entries, one per pod.
//! Past its capacity the oldest entry is evicted first.

use vstd::prelude::*;
use std::collections::VecDeque;
use crate::strutil::{chars_of, contains_seq, contains_seq_spec, lower_seq, to_lower};
use crate::types::LogEntry;

verus! {

/// Upper bound on entries kept per pod.
pub const MAX_LOG_LINES: usize = 10000;

/// One insertion into a bounded buffer: the oldest entry leaves first
/// when the buffer is full.
pub open spec fn push_spec(s: Seq<LogEntry>, e: LogEntry, cap: nat) -> Seq<LogEntry> {
    if s.len() >= cap {
        s.drop_first().push(e)
    } else {
        s.push(e)
    }
}

/// Insertions of a whole batch, in order.
pub open spec fn push_batch_spec(s: Seq<LogEntry>, b: Seq<LogEntry>, cap: nat) -> Seq<LogEntry>
    decreases b.len(),
{
    if b.len() == 0 {
        s
    } else {
        push_batch_spec(push_spec(s, b[0], cap), b.drop_first(), cap)
    }
}

/// The last `n` entries, oldest first; all of them when `n` is large.
pub open spec fn tail_spec(s: Seq<LogEntry>, n: nat) -> Seq<LogEntry> {
    if n >= s.len() {
        s
    } else {
        s.skip(s.len() - n)
    }
}

/// An entry matches a keyword if its message holds the keyword,
/// ignoring ASCII case.
pub open spec fn matches_keyword(e: LogEntry, k: Seq<char>) -> bool {
    contains_seq_spec(lower_seq(e.message@), lower_seq(k))
}

/// Bounded per-pod ring of log lines.
pub struct LogBuffer {
    entries: VecDeque<LogEntry>,
}

impl View for LogBuffer {
    type V = Seq<LogEntry>;

    closed spec fn view(&self) -> Seq<LogEntry> {
        self.entries@
    }
}

impl LogBuffer {
    /// The buffer never holds more than `MAX_LOG_LINES` entries.
    pub closed spec fn wf(self) -> bool {
        self.entries@.len() <= MAX_LOG_LINES
    }

    pub fn new() -> (r: Self)
        ensures
            r@ == Seq::<LogEntry>::empty(),
            r.wf(),
    {
        LogBuffer { entries: VecDeque::new() }
    }

    /// Appends one entry, evicting the oldest entry first when full.
    pub fn push(&mut self, entry: LogEntry)
        requires
            old(self).wf(),
        ensures
            final(self)@ == push_spec(old(self)@, entry, MAX_LOG_LINES as nat),
            final(self).wf(),
    {
        if self.entries.len() >= MAX_LOG_LINES {
            self.entries.pop_front();
        }
        self.entries.push_back(entry);
    }

    /// Appends a batch, in order.
    pub fn push_batch(&mut self, entries: Vec<LogEntry>)
        requires
            old(self).wf(),
        ensures
            final(self)@ == push_batch_spec(old(self)@, entries@, MAX_LOG_LINES as nat),
            final(self).wf(),
    {
        let n = entries.len();
        let mut entries = entries;
        let ghost all = entries@;
        let ghost orig = self@;
        let mut i: usize = 0;
        proof {
            assert(all.skip(0) =~= all);
        }
        while i < n
            invariant
                i <= n,
                n == all.len(),
                entries@ == all,
                self.wf(),
                push_batch_spec(self@, all.skip(i as int), MAX_LOG_LINES as nat)
                    == push_batch_spec(orig, all, MAX_LOG_LINES as nat),
            decreases n - i,
        {
            let ghost rest = all.skip(i as int);
            proof {
                assert(rest[0] == all[i as int]);
                assert(rest.drop_first() =~= all.skip(i + 1));
            }
            let e = entries[i].clone();
            assert(e == all[i as int]);
            self.push(e);
            i = i + 1;
        }
        proof {
            assert(all.skip(n as int) =~= Seq::<LogEntry>::empty());
        }
    }

    /// The last `n` entries, oldest first.
    pub fn tail(&self, n: usize) -> (r: Vec<LogEntry>)
        ensures
            r@ == tail_spec(self@, n as nat),
    {
        let len = self.entries.len();
        let start: usize = if n >= len {
            0
        } else {
            len - n
        };
        let mut out: Vec<LogEntry> = Vec::new();
        let mut i: usize = start;
        while i < len
            invariant
                start <= i <= len,
                len == self@.len(),
                out@ =~= self@.subrange(start as int, i as int),
            decreases len - i,
        {
            out.push(self.entries[i].clone());
            i = i + 1;
        }
        proof {
            if n >= self@.len() {
                assert(out@ =~= self@);
            } else {
                assert(out@ =~= self@.skip(self@.len() - n));
            }
        }
        out
    }

    pub fn clear(&mut self)
        ensures
            final(self)@ == Seq::<LogEntry>::empty(),
            final(self).wf(),
    {
        self.entries.clear();
    }

    /// All entries whose message holds `keyword`, ignoring ASCII case,
    /// oldest first.
    pub fn search(&self, keyword: &str) -> (r: Vec<LogEntry>)
        ensures
            r@ == self@.filter(|e: LogEntry| matches_keyword(e, keyword@)),
    {
        let kw = to_lower(&chars_of(keyword));
        let len = self.entries.len();
        let mut out: Vec<LogEntry> = Vec::new();
        let mut i: usize = 0;
        proof {
            reveal(Seq::filter);
            assert(self@.subrange(0, 0) =~= Seq::<LogEntry>::empty());
        }
        while i < len
            invariant
                i <= len,
                len == self@.len(),
                kw@ == lower_seq(keyword@),
                out@ == self@.subrange(0, i as int).filter(
                    |e: LogEntry| matches_keyword(e, keyword@),
                ),
            decreases len - i,
        {
            let e = &self.entries[i];
            let msg = to_lower(&chars_of(e.message.as_str()));
            let hit = contains_seq(&msg, &kw);
            proof {
                reveal(Seq::filter);
                let pre = self@.subrange(0, i as int);
                let pre2 = self@.subrange(0, i + 1);
                assert(pre2.drop_last() =~= pre);
                assert(pre2.last() == self@[i as int]);
                assert(hit == matches_keyword(self@[i as int], keyword@));
            }
            if hit {
                out.push(e.clone());
            }
            i = i + 1;
        }
        proof {
            assert(self@.subrange(0, len as int) =~= self@);
        }
        out
    }

    pub fn len(&self) -> (r: usize)
        ensures
            r == self@.len(),
    {
        self.entries.len()
    }

    pub fn is_empty(&self) -> (r: bool)
        ensures
            r == (self@.len() == 0),
    {
        self.entries.len() == 0
    }
}

/// A bounded buffer stays within its capacity.
pub proof fn lemma_buffer_capacity(s: Seq<LogEntry>, b: Seq<LogEntry>, cap: nat)
    requires
        1 <= cap,
        s.len() <= cap,
    ensures
        push_batch_spec(s, b, cap).len() <= cap,
    decreases b.len(),
{
    if b.len() > 0 {
        lemma_buffer_capacity(push_spec(s, b[0], cap), b.drop_first(), cap);
    }
}

/// After any batch of insertions, the buffer holds exactly the last
/// `min(cap, total)` inserted entries, in insertion order.
pub proof fn lemma_buffer_is_suffix_of_inserted(s: Seq<LogEntry>, b: Seq<LogEntry>, cap: nat)
    requires
        1 <= cap,
        s.len() <= cap,
    ensures
        push_batch_spec(s, b, cap) == (s + b).skip(
            if s.len() + b.len() <= cap {
                0
            } else {
                s.len() + b.len() - cap
            },
        ),
    decreases b.len(),
{
    if b.len() == 0 {
        assert((s + b).skip(0) =~= s);
    } else {
        let s2 = push_spec(s, b[0], cap);
        lemma_buffer_is_suffix_of_inserted(s2, b.drop_first(), cap);
        if s.len() >= cap {
            assert(s2 + b.drop_first() =~= (s + b).skip(1));
            let total2 = s2.len() + b.len() - 1;
            if total2 <= cap {
                assert((s2 + b.drop_first()).skip(0) =~= (s + b).skip(
                    if s.len() + b.len() <= cap {
                        0
                    } else {
                        s.len() + b.len() - cap
                    },
                ));
            } else {
                assert(((s + b).skip(1)).skip(total2 - cap) =~= (s + b).skip(
                    s.len() + b.len() - cap,
                ));
            }
        } else {
            assert(s2 + b.drop_first() =~= s + b);
        }
    }
}

/// The law of the bounded log: after pushing a batch onto a buffer that
/// was within capacity, `tail(n)` yields exactly the last `n` inserted
/// entries in insertion order, for every `n` up to what the buffer holds.
pub proof fn lemma_tail_returns_last_inserted(
    s: Seq<LogEntry>,
    b: Seq<LogEntry>,
    cap: nat,
    n: nat,
)
    requires
        1 <= cap,
        s.len() <= cap,
        n <= push_batch_spec(s, b, cap).len(),
    ensures
        tail_spec(push_batch_spec(s, b, cap), n) == (s + b).skip(s.len() + b.len() - n),
{
    lemma_buffer_is_suffix_of_inserted(s, b, cap);
    let full = s + b;
    let total = full.len();
    let res = push_batch_spec(s, b, cap);
    if n >= res.len() {
        assert(res =~= full.skip(total - n));
    } else {
        assert(res.skip(res.len() - n) =~= full.skip(total - n));
    }
}

} // verus!
