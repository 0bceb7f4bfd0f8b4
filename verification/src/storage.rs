//! The storages of the interpreter's bank: stacks and queues of signed
//! integers behind one uniform interface.
//!
//! `put` appends at the writing end (the top of a stack, the tail of a
//! queue); `pick` and `peek` work at the reading end (the top of a stack, the
//! head of a queue); `rput` puts a value back at the reading end, which a
//! swap uses to exchange the two values `pick` would return next.

use vstd::prelude::*;

verus! {

/// Contents after a put: the value appended at the writing end.
pub open spec fn put_contents(s: Seq<i64>, v: i64) -> Seq<i64> {
    s.push(v)
}

/// Contents after a reverse put: the value placed at the reading end.
pub open spec fn rput_contents(s: Seq<i64>, v: i64, queue: bool) -> Seq<i64> {
    if queue {
        seq![v] + s
    } else {
        s.push(v)
    }
}

/// The value a pick (or peek) returns: the element at the reading end.
pub open spec fn pick_value(s: Seq<i64>, queue: bool) -> Option<i64> {
    if s.len() == 0 {
        None
    } else if queue {
        Some(s[0])
    } else {
        Some(s.last())
    }
}

/// Contents after a pick: the reading end removed.
pub open spec fn pick_contents(s: Seq<i64>, queue: bool) -> Seq<i64> {
    if s.len() == 0 {
        s
    } else if queue {
        s.drop_first()
    } else {
        s.drop_last()
    }
}

/// Contents after a swap: the two elements nearest the reading end
/// exchanged; unchanged when there are fewer than two.
pub open spec fn swap_contents(s: Seq<i64>, queue: bool) -> Seq<i64> {
    if s.len() < 2 {
        s
    } else if queue {
        s.update(0, s[1]).update(1, s[0])
    } else {
        s.update(s.len() - 2, s.last()).update(s.len() - 1, s[s.len() - 2])
    }
}

/// One storage of the bank.
pub trait Storage {
    /// The stored values, oldest first.
    spec fn contents(&self) -> Seq<i64>;

    /// Whether the storage reads at the head (queue) or at the tail (stack).
    spec fn queue_mode(&self) -> bool;

    /// Number of stored values.
    fn len(&self) -> (r: usize)
        ensures
            r == self.contents().len(),
    ;

    /// Append a value at the writing end.
    fn put(&mut self, data: i64)
        ensures
            final(self).contents() == put_contents(old(self).contents(), data),
            final(self).queue_mode() == old(self).queue_mode(),
    ;

    /// Place a value at the reading end.
    fn rput(&mut self, data: i64)
        ensures
            final(self).contents() == rput_contents(
                old(self).contents(),
                data,
                old(self).queue_mode(),
            ),
            final(self).queue_mode() == old(self).queue_mode(),
    ;

    /// Remove and return the value at the reading end.
    fn pick(&mut self) -> (r: Option<i64>)
        ensures
            r == pick_value(old(self).contents(), old(self).queue_mode()),
            final(self).contents() == pick_contents(
                old(self).contents(),
                old(self).queue_mode(),
            ),
            final(self).queue_mode() == old(self).queue_mode(),
    ;

    /// The value `pick` would return, without removing it.
    fn peek(&self) -> (r: Option<i64>)
        ensures
            r == pick_value(self.contents(), self.queue_mode()),
    ;

    /// Exchange the two values nearest the reading end; fails (and changes
    /// nothing) when there are fewer than two.
    fn swap(&mut self) -> (r: bool)
        ensures
            r == (old(self).contents().len() >= 2),
            final(self).contents() == swap_contents(
                old(self).contents(),
                old(self).queue_mode(),
            ),
            final(self).queue_mode() == old(self).queue_mode(),
    {
        if self.len() >= 2 {
            let ghost s0 = self.contents();
            let v1 = self.pick().unwrap();
            let v2 = self.pick().unwrap();
            self.rput(v1);
            self.rput(v2);
            proof {
                if self.queue_mode() {
                    assert(self.contents() =~= swap_contents(s0, true));
                } else {
                    assert(self.contents() =~= swap_contents(s0, false));
                }
            }
            true
        } else {
            false
        }
    }
}

/// A storage backed by a vector, reading at the head or at the tail
/// according to its kind flag.
pub struct TempStorage {
    vec: Vec<i64>,
    is_queue: bool,
}

impl TempStorage {
    /// An empty storage of the given kind.
    pub fn new(is_queue: bool) -> (r: TempStorage)
        ensures
            r.contents() == Seq::<i64>::empty(),
            r.queue_mode() == is_queue,
    {
        TempStorage { vec: Vec::new(), is_queue }
    }
}

impl Storage for TempStorage {
    closed spec fn contents(&self) -> Seq<i64> {
        self.vec@
    }

    closed spec fn queue_mode(&self) -> bool {
        self.is_queue
    }

    fn len(&self) -> (r: usize)
        ensures
            r == self.contents().len(),
    {
        self.vec.len()
    }

    fn put(&mut self, data: i64)
        ensures
            final(self).contents() == put_contents(old(self).contents(), data),
            final(self).queue_mode() == old(self).queue_mode(),
    {
        self.vec.push(data);
    }

    fn rput(&mut self, data: i64)
        ensures
            final(self).contents() == rput_contents(
                old(self).contents(),
                data,
                old(self).queue_mode(),
            ),
            final(self).queue_mode() == old(self).queue_mode(),
    {
        if self.is_queue {
            self.vec.insert(0, data);
            proof {
                assert(self.vec@ =~= seq![data] + old(self).vec@);
            }
        } else {
            self.vec.push(data);
        }
    }

    fn pick(&mut self) -> (r: Option<i64>)
        ensures
            r == pick_value(old(self).contents(), old(self).queue_mode()),
            final(self).contents() == pick_contents(
                old(self).contents(),
                old(self).queue_mode(),
            ),
            final(self).queue_mode() == old(self).queue_mode(),
    {
        if self.is_queue {
            if self.vec.len() == 0 {
                None
            } else {
                let v = self.vec.remove(0);
                proof {
                    assert(self.vec@ =~= old(self).vec@.drop_first());
                }
                Some(v)
            }
        } else {
            self.vec.pop()
        }
    }

    fn peek(&self) -> (r: Option<i64>)
        ensures
            r == pick_value(self.contents(), self.queue_mode()),
    {
        if self.vec.len() == 0 {
            None
        } else if self.is_queue {
            Some(self.vec[0])
        } else {
            Some(self.vec[self.vec.len() - 1])
        }
    }
}

/// Law: on a stack, a put is immediately undone by a pick, which returns the
/// value just put.
pub proof fn lemma_stack_put_pick(s: Seq<i64>, v: i64)
    ensures
        pick_value(put_contents(s, v), false) == Some(v),
        pick_contents(put_contents(s, v), false) == s,
{
    assert(put_contents(s, v).drop_last() =~= s);
}

/// Law: a queue is first in, first out — after putting `v` and then `w` on
/// an empty queue, a pick returns `v`.
pub proof fn lemma_queue_fifo(s: Seq<i64>, v: i64, w: i64)
    requires
        s.len() == 0,
    ensures
        pick_value(put_contents(put_contents(s, v), w), true) == Some(v),
{
}

} // verus!
