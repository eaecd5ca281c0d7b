use std::collections::VecDeque;
use vstd::prelude::*;

verus! {

#[derive(Debug, Clone, Copy, PartialEq, Eq, Structural)]
pub enum QueueError {
    EmptyPool,
}

impl QueueError {
    /// The failure in words.
    pub fn message(&self) -> (r: String)
        ensures
            r@ == "no queues configured"@,
    {
        "no queues configured".to_owned()
    }
}

/// The queues that no one has at the moment, in the order in which they are given out.
#[derive(Debug)]
pub struct QueueAllocator {
    available: VecDeque<u16>,
}

/// A queue that someone has.
#[derive(Debug)]
pub struct QueueLease {
    pub qnum: u16,
}

/// No number stands in the list twice.
pub open spec fn all_different(s: Seq<u16>) -> bool {
    forall|i: int, j: int| 0 <= i < j < s.len() ==> #[trigger] s[i] != #[trigger] s[j]
}

/// The queues from the first one on.
pub open spec fn queues_of(base_qnum: u16, qnum_count: u16) -> Seq<u16> {
    Seq::new(qnum_count as nat, |i: int| (base_qnum + i) as u16)
}

/// The queue that is given out next.
pub open spec fn next_queue(s: Seq<u16>) -> Option<u16> {
    if s.len() == 0 {
        None
    } else {
        Some(s[0])
    }
}

/// The queues that are left after one was given out.
pub open spec fn queues_left(s: Seq<u16>) -> Seq<u16> {
    if s.len() == 0 {
        s
    } else {
        s.skip(1)
    }
}

/// The queues after one was given back; one that is there already is not added again.
pub open spec fn queues_with(s: Seq<u16>, qnum: u16) -> Seq<u16> {
    if s.contains(qnum) {
        s
    } else {
        s.push(qnum)
    }
}

impl View for QueueAllocator {
    type V = Seq<u16>;

    closed spec fn view(&self) -> Seq<u16> {
        self.available@
    }
}

impl QueueAllocator {
    #[verifier::type_invariant]
    spec fn no_queue_twice(self) -> bool {
        all_different(self.available@)
    }

    /// All queues from `base_qnum` on, `qnum_count` of them.
    pub fn new(base_qnum: u16, qnum_count: u16) -> (r: Result<QueueAllocator, QueueError>)
        requires
            base_qnum + qnum_count - 1 <= u16::MAX,
        ensures
            r is Err <==> qnum_count == 0,
            r matches Ok(q) ==> q@ == queues_of(base_qnum, qnum_count),
    {
        if qnum_count == 0 {
            return Err(QueueError::EmptyPool);
        }
        let mut available: VecDeque<u16> = VecDeque::new();
        let mut n: u16 = 0;
        while n < qnum_count
            invariant
                n <= qnum_count,
                base_qnum + qnum_count - 1 <= u16::MAX,
                available@ =~= Seq::new(n as nat, |i: int| (base_qnum + i) as u16),
            decreases qnum_count - n,
        {
            available.push_back(base_qnum + n);
            n = n + 1;
        }
        Ok(QueueAllocator { available })
    }

    /// Gives out the queue that has waited longest; nothing where none is left.
    pub fn acquire(&mut self) -> (r: Option<QueueLease>)
        ensures
            all_different(old(self)@),
            r is None <==> old(self)@.len() == 0,
            final(self)@ == queues_left(old(self)@),
            r matches Some(lease) ==> next_queue(old(self)@) == Some(lease.qnum),
            r matches Some(lease) ==> !final(self)@.contains(lease.qnum),
    {
        proof {
            use_type_invariant(&*self);
        }
        let ghost start = self.available@;
        let mut available: VecDeque<u16> = VecDeque::new();
        std::mem::swap(&mut available, &mut self.available);
        let taken = available.pop_front();
        self.available = available;
        match taken {
            Some(qnum) => {
                assert(self.available@ =~= start.skip(1));
                Some(QueueLease { qnum })
            },
            None => None,
        }
    }

    /// Takes a queue back, behind those that wait; says whether it was away.
    pub fn release_qnum(&mut self, qnum: u16) -> (r: bool)
        ensures
            r == !old(self)@.contains(qnum),
            final(self)@ == queues_with(old(self)@, qnum),
    {
        proof {
            use_type_invariant(&*self);
        }
        let ghost start = self.available@;
        let mut i: usize = 0;
        while i < self.available.len()
            invariant
                i <= self.available@.len(),
                self.available@ == start,
                forall|j: int| 0 <= j < i ==> start[j] != qnum,
            decreases self.available@.len() - i,
        {
            if self.available[i] == qnum {
                assert(start[i as int] == qnum);
                return false;
            }
            i = i + 1;
        }
        let mut available: VecDeque<u16> = VecDeque::new();
        std::mem::swap(&mut available, &mut self.available);
        available.push_back(qnum);
        self.available = available;
        true
    }

    /// How many queues no one has.
    pub fn available_len(&self) -> (r: usize)
        ensures
            r == self@.len(),
    {
        self.available.len()
    }
}

impl QueueLease {
    /// Gives the queue back; says whether it was away.
    pub fn release(self, allocator: &mut QueueAllocator) -> (r: bool)
        ensures
            r == !old(allocator)@.contains(self.qnum),
            final(allocator)@ == queues_with(old(allocator)@, self.qnum),
    {
        allocator.release_qnum(self.qnum)
    }
}

/// The queues are those from the first one on, as many as there shall be: each of them, once,
/// and no other.
pub proof fn queues_are_numbered_through(base_qnum: u16, qnum_count: u16, q: u16)
    requires
        base_qnum + qnum_count - 1 <= u16::MAX,
    ensures
        queues_of(base_qnum, qnum_count).len() == qnum_count,
        queues_of(base_qnum, qnum_count).contains(q) <==> base_qnum <= q && q < base_qnum
            + qnum_count,
        all_different(queues_of(base_qnum, qnum_count)),
{
    let s = queues_of(base_qnum, qnum_count);
    if base_qnum <= q && q < base_qnum + qnum_count {
        assert(s[q - base_qnum] == q);
    }
}

/// Queues are given out in the order in which they came: one that is given back comes last, so
/// that giving one out before or after another is given back makes no difference.
pub proof fn queues_come_in_turn(s: Seq<u16>, qnum: u16)
    requires
        s.len() > 0,
        all_different(s),
        !s.contains(qnum),
    ensures
        next_queue(s) == Some(s[0]),
        next_queue(queues_with(s, qnum)) == next_queue(s),
        queues_left(queues_with(s, qnum)) == queues_with(queues_left(s), qnum),
        queues_with(s, qnum).last() == qnum,
        queues_with(s, qnum).len() == s.len() + 1,
{
    assert(!s.skip(1).contains(qnum)) by {
        if s.skip(1).contains(qnum) {
            let k = choose|k: int| 0 <= k < s.skip(1).len() && s.skip(1)[k] == qnum;
            assert(s[k + 1] == qnum);
        }
    }
    assert(s.push(qnum).skip(1) =~= s.skip(1).push(qnum));
}

/// A queue that is given out is there no more, all the others still are, and giving it back
/// makes it be there again, once.
pub proof fn queues_are_given_back(s: Seq<u16>, q: u16)
    requires
        s.len() > 0,
        all_different(s),
    ensures
        queues_left(s).contains(q) <==> s.contains(q) && q != s[0],
        queues_with(queues_left(s), s[0]).contains(q) <==> s.contains(q),
        queues_with(queues_left(s), s[0]).len() == s.len(),
        queues_with(s, s[0]) == s,
{
    let rest = s.skip(1);
    if rest.contains(q) {
        let k = choose|k: int| 0 <= k < rest.len() && rest[k] == q;
        assert(s[k + 1] == q);
        assert(s[0] != s[k + 1]);
    }
    if s.contains(q) && q != s[0] {
        let k = choose|k: int| 0 <= k < s.len() && s[k] == q;
        assert(rest[k - 1] == q);
    }
    assert(!rest.contains(s[0])) by {
        if rest.contains(s[0]) {
            let k = choose|k: int| 0 <= k < rest.len() && rest[k] == s[0];
            assert(s[0] != s[k + 1]);
        }
    }
    let all = rest.push(s[0]);
    assert(all[rest.len() as int] == s[0]);
    if rest.contains(q) {
        let k = choose|k: int| 0 <= k < rest.len() && rest[k] == q;
        assert(all[k] == q);
    }
    if all.contains(q) && q != s[0] {
        let k = choose|k: int| 0 <= k < all.len() && all[k] == q;
        assert(rest[k] == q);
    }
}

} // verus!
