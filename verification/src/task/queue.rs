//! Fixed-capacity priority-ready ring: no allocation on the scheduling path.
//!
//! One ring, highest priority first; entries of equal priority keep their
//! enqueue order, so a task re-pushed at the tail round-robins against its
//! peers. Priorities are evaluated on every `pop_best`.
use vstd::prelude::*;

verus! {

broadcast use vstd::seq_lib::group_seq_properties;

/// Capacity of the ring: the number of task slots.
pub const MAX_TASKS: usize = 32;

pub struct RunQueue {
    entries: Vec<usize>,
    head: usize,
    len: usize,
}

/// The level a deterministic priority function gives `task`.
pub open spec fn level_of<F: Fn(usize) -> u8>(priority: F, task: usize) -> u8 {
    choose|level: u8| priority.ensures((task,), level)
}

/// The priority function may be called on any task and always answers the same.
pub open spec fn priority_fn_ok<F: Fn(usize) -> u8>(priority: F) -> bool {
    &&& forall|task: usize| #[trigger] priority.requires((task,))
    &&& forall|task: usize, a: u8, b: u8|
        #![trigger priority.ensures((task,), a), priority.ensures((task,), b)]
        priority.ensures((task,), a) && priority.ensures((task,), b) ==> a == b
}

/// `k` is the earliest position of `s` that holds a highest-priority entry.
pub open spec fn is_first_best<F: Fn(usize) -> u8>(s: Seq<usize>, priority: F, k: int) -> bool {
    &&& 0 <= k < s.len()
    &&& forall|j: int| 0 <= j < s.len() ==> level_of(priority, #[trigger] s[j]) <= level_of(priority, s[k])
    &&& forall|j: int| 0 <= j < k ==> level_of(priority, #[trigger] s[j]) < level_of(priority, s[k])
}

/// The sequence without any occurrence of `task`, order kept.
pub open spec fn without(s: Seq<usize>, task: usize) -> Seq<usize> {
    s.filter(other_than(task))
}

/// Holds of every entry other than `task`.
pub open spec fn other_than(task: usize) -> spec_fn(usize) -> bool {
    |e: usize| e != task
}

impl RunQueue {
    /// The queued tasks, front first.
    pub closed spec fn view(&self) -> Seq<usize> {
        Seq::new(self.len as nat, |i: int| self.entries@[(self.head + i) % (MAX_TASKS as int)])
    }

    pub closed spec fn wf(&self) -> bool {
        &&& self.entries@.len() == MAX_TASKS
        &&& self.head < MAX_TASKS
        &&& self.len <= MAX_TASKS
    }

    pub fn new() -> (queue: Self)
        ensures
            queue.wf(),
            queue@ == Seq::<usize>::empty(),
    {
        let mut entries: Vec<usize> = Vec::new();
        let mut i: usize = 0;
        while i < MAX_TASKS
            invariant
                i <= MAX_TASKS,
                entries@.len() == i,
            decreases MAX_TASKS - i,
        {
            entries.push(0);
            i = i + 1;
        }
        let queue = RunQueue { entries, head: 0, len: 0 };
        assert(queue@ =~= Seq::<usize>::empty());
        queue
    }

    /// Number of queued tasks.
    pub fn len(&self) -> (n: usize)
        requires
            self.wf(),
        ensures
            n == self@.len(),
    {
        self.len
    }

    /// Append `task` at the tail.
    pub fn push(&mut self, task: usize)
        requires
            old(self).wf(),
            old(self)@.len() < MAX_TASKS,
        ensures
            final(self).wf(),
            final(self)@ == old(self)@.push(task),
    {
        let slot = (self.head + self.len) % MAX_TASKS;
        self.entries.set(slot, task);
        self.len = self.len + 1;
        assert(self@ =~= old(self)@.push(task));
    }

    /// Remove and return the front entry.
    pub fn pop(&mut self) -> (task: Option<usize>)
        requires
            old(self).wf(),
        ensures
            final(self).wf(),
            old(self)@.len() == 0 ==> task is None && final(self)@ == old(self)@,
            old(self)@.len() > 0 ==> task == Some(old(self)@[0]) && final(self)@ == old(
                self,
            )@.drop_first(),
    {
        if self.len == 0 {
            return None;
        }
        let task = self.entries[self.head];
        self.head = (self.head + 1) % MAX_TASKS;
        self.len = self.len - 1;
        assert(self@ =~= old(self)@.drop_first());
        Some(task)
    }

    /// The `index`-th queued entry, front first.
    fn peek_at(&self, index: usize) -> (task: usize)
        requires
            self.wf(),
            index < self@.len(),
        ensures
            task == self@[index as int],
    {
        self.entries[(self.head + index) % MAX_TASKS]
    }

    /// Drop every occurrence of `task`, keeping the order of the others.
    pub fn remove(&mut self, task: usize)
        requires
            old(self).wf(),
        ensures
            final(self).wf(),
            final(self)@ == without(old(self)@, task),
    {
        let ghost s = self@;
        let ghost keep = other_than(task);
        let count = self.len;
        let mut k: usize = 0;
        while k < count
            invariant
                self.wf(),
                count == s.len(),
                keep == other_than(task),
                k <= count,
                self@ == s.subrange(k as int, s.len() as int) + s.take(k as int).filter(keep),
            decreases count - k,
        {
            proof {
                s.take(k as int).lemma_filter_len(keep);
                assert(s.take(k as int + 1) =~= s.take(k as int).push(s[k as int]));
                s.take(k as int).lemma_filter_push(s[k as int], keep);
            }
            let entry = self.pop().unwrap();
            assert(entry == s[k as int]);
            assert(self@ =~= s.subrange(k as int + 1, s.len() as int) + s.take(k as int).filter(keep));
            let ghost rest = s.subrange(k as int + 1, s.len() as int);
            let ghost kept = s.take(k as int).filter(keep);
            if entry != task {
                self.push(entry);
                assert(keep(entry));
                assert(s.take(k as int + 1).filter(keep) == kept.push(entry));
                assert(self@ =~= rest + kept.push(entry));
            } else {
                assert(!keep(entry));
                assert(s.take(k as int + 1).filter(keep) == kept);
            }
            k = k + 1;
        }
        assert(s.take(s.len() as int) =~= s);
        assert(self@ =~= s.filter(keep));
    }

    /// Drop the entry at position `index`, keeping the order of the others.
    fn remove_at(&mut self, index: usize)
        requires
            old(self).wf(),
            index < old(self)@.len(),
        ensures
            final(self).wf(),
            final(self)@ == old(self)@.remove(index as int),
    {
        let ghost s = self@;
        let count = self.len;
        let mut k: usize = 0;
        while k < count
            invariant
                self.wf(),
                count == s.len(),
                index < count,
                k <= count,
                self@ == s.subrange(k as int, s.len() as int) + (if k <= index {
                    s.take(k as int)
                } else {
                    s.take(k as int).remove(index as int)
                }),
            decreases count - k,
        {
            let entry = self.pop().unwrap();
            assert(entry == s[k as int]);
            let ghost rest = s.subrange(k as int + 1, s.len() as int);
            assert(s.subrange(k as int, s.len() as int) =~= seq![entry] + rest);
            if k != index {
                self.push(entry);
                if k < index {
                    assert(s.take(k as int + 1) =~= s.take(k as int).push(entry));
                    assert(self@ =~= rest + s.take(k as int + 1));
                } else {
                    assert(s.take(k as int + 1).remove(index as int) =~= s.take(k as int).remove(index as int).push(entry));
                    assert(self@ =~= rest + s.take(k as int + 1).remove(index as int));
                }
            } else {
                assert(s.take(k as int + 1).remove(index as int) =~= s.take(k as int));
                assert(self@ =~= rest + s.take(k as int + 1).remove(index as int));
            }
            k = k + 1;
        }
        assert(s.take(s.len() as int).remove(index as int) =~= s.remove(index as int));
        assert(self@ =~= s.remove(index as int));
    }

    /// Remove and return the highest-priority entry, earliest first among
    /// equals; every other entry keeps its place.
    pub fn pop_best<F: Fn(usize) -> u8>(&mut self, priority: F) -> (task: Option<usize>)
        requires
            old(self).wf(),
            priority_fn_ok(priority),
        ensures
            final(self).wf(),
            old(self)@.len() == 0 ==> task is None && final(self)@ == old(self)@,
            old(self)@.len() > 0 ==> exists|k: int|
                is_first_best(old(self)@, priority, k) && task == Some(old(self)@[k])
                    && final(self)@ == old(self)@.remove(k),
            forall|j: int| 0 <= j < old(self)@.len() ==>
                priority.ensures((#[trigger] old(self)@[j],), level_of(priority, old(self)@[j])),
    {
        let ghost s = self@;
        let count = self.len;
        if count == 0 {
            return None;
        }
        let first = self.peek_at(0);
        let mut best_task = first;
        let mut best_level = priority(first);
        assert(best_level == level_of(priority, first));
        let ghost mut best_k: int = 0;
        let mut best_index: usize = 0;
        let mut i: usize = 1;
        while i < count
            invariant
                self.wf(),
                self@ == s,
                count == s.len(),
                priority_fn_ok(priority),
                1 <= i <= count,
                0 <= best_k < i,
                best_task == s[best_k],
                best_index == best_k,
                best_level == level_of(priority, best_task),
                forall|j: int| 0 <= j < i ==> level_of(priority, #[trigger] s[j]) <= best_level,
                forall|j: int| 0 <= j < best_k ==> level_of(priority, #[trigger] s[j]) < best_level,
                forall|j: int| 0 <= j < i ==> priority.ensures((#[trigger] s[j],), level_of(priority, s[j])),
            decreases count - i,
        {
            let entry = self.peek_at(i);
            let level = priority(entry);
            assert(level == level_of(priority, entry));
            if level > best_level {
                best_task = entry;
                best_level = level;
                best_index = i;
                proof {
                    best_k = i as int;
                }
            }
            i = i + 1;
        }
        assert(is_first_best(s, priority, best_k));
        self.remove_at(best_index);
        Some(best_task)
    }
}

} // verus!
