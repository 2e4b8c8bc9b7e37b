use vstd::prelude::*;

use crate::task::TaskHandle;

verus! {

/// The entries of `s` whose id differs from `id`, in their order.
pub open spec fn without_id(s: Seq<(u64, TaskHandle)>, id: u64) -> Seq<(u64, TaskHandle)>
    decreases s.len(),
{
    if s.len() == 0 {
        s
    } else if s.last().0 == id {
        without_id(s.drop_last(), id)
    } else {
        without_id(s.drop_last(), id).push(s.last())
    }
}

/// The entries of `s` whose job is still running, in their order.
pub open spec fn keep_running(s: Seq<(u64, TaskHandle)>) -> Seq<(u64, TaskHandle)>
    decreases s.len(),
{
    if s.len() == 0 {
        s
    } else if s.last().1.running_spec() {
        keep_running(s.drop_last()).push(s.last())
    } else {
        keep_running(s.drop_last())
    }
}

/// The handle registered last under `id` among the entries of `s`.
pub open spec fn lookup(s: Seq<(u64, TaskHandle)>, id: u64) -> Option<TaskHandle>
    decreases s.len(),
{
    if s.len() == 0 {
        None
    } else if s.last().0 == id {
        Some(s.last().1)
    } else {
        lookup(s.drop_last(), id)
    }
}

/// After a sweep, exactly the running jobs remain.
pub proof fn lemma_keep_running_members(s: Seq<(u64, TaskHandle)>, e: (u64, TaskHandle))
    ensures
        keep_running(s).contains(e) <==> (s.contains(e) && e.1.running_spec()),
    decreases s.len(),
{
    if s.len() > 0 {
        lemma_keep_running_members(s.drop_last(), e);
        assert(s =~= s.drop_last().push(s.last()));
        if s.drop_last().contains(e) {
            let k = choose|k: int| 0 <= k < s.drop_last().len() && s.drop_last()[k] == e;
            assert(s[k] == e);
        }
        if s.contains(e) && e != s.last() {
            let k = choose|k: int| 0 <= k < s.len() && s[k] == e;
            assert(s.drop_last()[k] == e);
        }
        if s.last().1.running_spec() {
            let t = keep_running(s.drop_last());
            if t.contains(e) {
                let k = choose|k: int| 0 <= k < t.len() && t[k] == e;
                assert(t.push(s.last())[k] == e);
            }
            if t.push(s.last()).contains(e) && e != s.last() {
                let k = choose|k: int| 0 <= k < t.len() + 1 && t.push(s.last())[k] == e;
                assert(t[k] == e);
            }
            assert(t.push(s.last())[t.len() as int] == s.last());
        }
        assert(s[s.len() - 1] == s.last());
    }
}

/// Registry of jobs by id, in order of registration.
pub struct TaskManager {
    tasks: Vec<(u64, TaskHandle)>,
}

impl TaskManager {
    /// The registered entries, oldest first.
    pub closed spec fn entries(&self) -> Seq<(u64, TaskHandle)> {
        self.tasks@
    }

    pub fn new() -> (r: TaskManager)
        ensures
            r.entries() == Seq::<(u64, TaskHandle)>::empty(),
    {
        TaskManager { tasks: Vec::new() }
    }

    /// Removes every entry whose job is no longer running.
    pub fn clear(&mut self)
        ensures
            final(self).entries() == keep_running(old(self).entries()),
    {
        let mut kept: Vec<(u64, TaskHandle)> = Vec::new();
        let mut i: usize = 0;
        while i < self.tasks.len()
            invariant
                i <= self.tasks@.len(),
                self.tasks@ == old(self).tasks@,
                kept@ == keep_running(self.tasks@.subrange(0, i as int)),
            decreases self.tasks@.len() - i,
        {
            proof {
                assert(self.tasks@.subrange(0, i + 1).drop_last() =~= self.tasks@.subrange(0, i as int));
            }
            let entry = self.tasks[i];
            if entry.1.running() {
                kept.push(entry);
            }
            i = i + 1;
        }
        proof {
            assert(self.tasks@.subrange(0, i as int) =~= self.tasks@);
        }
        self.tasks = kept;
    }

    /// The registered entries, oldest first.
    pub fn iter(&self) -> (r: Vec<(u64, TaskHandle)>)
        ensures
            r@ == self.entries(),
    {
        let mut out: Vec<(u64, TaskHandle)> = Vec::new();
        let mut i: usize = 0;
        while i < self.tasks.len()
            invariant
                i <= self.tasks@.len(),
                out@ == self.tasks@.subrange(0, i as int),
            decreases self.tasks@.len() - i,
        {
            out.push(self.tasks[i]);
            i = i + 1;
        }
        proof {
            assert(out@ =~= self.tasks@);
        }
        out
    }

    /// The handle registered under `id`, if any.
    pub fn get(&self, id: u64) -> (r: Option<TaskHandle>)
        ensures
            r == lookup(self.entries(), id),
    {
        let mut i: usize = self.tasks.len();
        proof {
            assert(self.tasks@.subrange(0, i as int) =~= self.tasks@);
        }
        while i > 0
            invariant
                i <= self.tasks@.len(),
                lookup(self.entries(), id) == lookup(self.tasks@.subrange(0, i as int), id),
            decreases i,
        {
            proof {
                assert(self.tasks@.subrange(0, i as int).drop_last() =~= self.tasks@.subrange(0, i - 1));
            }
            if self.tasks[i - 1].0 == id {
                return Some(self.tasks[i - 1].1);
            }
            i = i - 1;
        }
        proof {
            assert(self.tasks@.subrange(0, 0) =~= Seq::<(u64, TaskHandle)>::empty());
        }
        None
    }

    /// Stores `handle` under `id`, replacing an entry registered earlier
    /// under the same id, and returns the id.
    pub fn register_with_id(&mut self, handle: TaskHandle, id: u64) -> (r: u64)
        ensures
            r == id,
            final(self).entries() == without_id(old(self).entries(), id).push((id, handle)),
    {
        let mut kept: Vec<(u64, TaskHandle)> = Vec::new();
        let mut i: usize = 0;
        while i < self.tasks.len()
            invariant
                i <= self.tasks@.len(),
                self.tasks@ == old(self).tasks@,
                kept@ == without_id(self.tasks@.subrange(0, i as int), id),
            decreases self.tasks@.len() - i,
        {
            proof {
                assert(self.tasks@.subrange(0, i + 1).drop_last() =~= self.tasks@.subrange(0, i as int));
            }
            let entry = self.tasks[i];
            if entry.0 != id {
                kept.push(entry);
            }
            i = i + 1;
        }
        proof {
            assert(self.tasks@.subrange(0, i as int) =~= self.tasks@);
        }
        kept.push((id, handle));
        self.tasks = kept;
        id
    }

    /// Stores `handle` under `id`, or under a freshly drawn random id when
    /// none is given, and returns the id used.
    pub fn register(&mut self, handle: TaskHandle, id: Option<u64>) -> (r: u64)
        ensures
            id is Some ==> r == id->0,
            final(self).entries() == without_id(old(self).entries(), r).push((r, handle)),
    {
        let chosen = match id {
            Some(given) => given,
            None => random_id(),
        };
        self.register_with_id(handle, chosen)
    }
}

/// Relies on rand::random: draws a 64-bit value from the thread-local
/// generator. Nothing is known of the value.
#[verifier::external_body]
fn random_id() -> (r: u64) {
    rand::random::<u64>()
}

/// A registered handle can be found again under its id.
pub proof fn lemma_register_then_lookup(s: Seq<(u64, TaskHandle)>, id: u64, h: TaskHandle)
    ensures
        lookup(without_id(s, id).push((id, h)), id) == Some(h),
{
    assert(without_id(s, id).push((id, h)).drop_last() =~= without_id(s, id));
}

} // verus!
