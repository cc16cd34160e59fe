//! The download engine's register of tasks: each task it holds, with the
//! last control signal sent to it. A task is active while it is held, and
//! downloading while its signal is `Run`.
//!
//! The caller keeps the channels that carry the signals and the running
//! downloads; this register decides what is held and what is sent.

use vstd::prelude::*;
use crate::download_plan::CtrlSignal;
use crate::text::{str_eq, string_views};

verus! {

/// Index of the entry of `id`, searching from `k`.
pub open spec fn entry_of(s: Seq<(Seq<char>, CtrlSignal)>, id: Seq<char>, k: int) -> Option<int>
    decreases s.len() - k,
{
    if k < 0 || k >= s.len() {
        None
    } else if s[k].0 == id {
        Some(k)
    } else {
        entry_of(s, id, k + 1)
    }
}

/// The last signal sent to task `id`, while it is held.
pub open spec fn signal_of(s: Seq<(Seq<char>, CtrlSignal)>, id: Seq<char>) -> Option<CtrlSignal> {
    match entry_of(s, id, 0) {
        Some(i) => Some(s[i].1),
        None => None,
    }
}

/// The tasks downloading (signal `Run`), in the order they were started.
pub open spec fn running_ids(s: Seq<(Seq<char>, CtrlSignal)>) -> Seq<Seq<char>>
    decreases s.len(),
{
    if s.len() == 0 {
        Seq::empty()
    } else {
        let prev = running_ids(s.drop_last());
        if s.last().1 == CtrlSignal::Run {
            prev.push(s.last().0)
        } else {
            prev
        }
    }
}

/// No task is held twice.
pub open spec fn distinct_tasks(s: Seq<(Seq<char>, CtrlSignal)>) -> bool {
    forall|i: int, j: int| 0 <= i < s.len() && 0 <= j < s.len() && i != j ==> #[trigger] s[i].0 != #[trigger] s[j].0
}

pub proof fn lemma_entry_of(s: Seq<(Seq<char>, CtrlSignal)>, id: Seq<char>, k: int)
    requires
        0 <= k,
    ensures
        entry_of(s, id, k) matches Some(i) ==> k <= i < s.len() && s[i].0 == id,
        entry_of(s, id, k) is None ==> forall|j: int| k <= j < s.len() ==> s[j].0 != id,
    decreases s.len() - k,
{
    if k < s.len() && s[k].0 != id {
        lemma_entry_of(s, id, k + 1);
    }
}

/// The register of held tasks.
pub struct EngineRegistry {
    entries: Vec<(String, CtrlSignal)>,
}

pub open spec fn entry_views(v: Seq<(String, CtrlSignal)>) -> Seq<(Seq<char>, CtrlSignal)> {
    v.map_values(|e: (String, CtrlSignal)| (e.0@, e.1))
}

impl View for EngineRegistry {
    type V = Seq<(Seq<char>, CtrlSignal)>;

    closed spec fn view(&self) -> Seq<(Seq<char>, CtrlSignal)> {
        entry_views(self.entries@)
    }
}

impl EngineRegistry {
    pub open spec fn wf(&self) -> bool {
        distinct_tasks(self@)
    }

    /// A register holding nothing.
    pub fn new() -> (r: Self)
        ensures
            r.wf(),
            r@ == Seq::<(Seq<char>, CtrlSignal)>::empty(),
    {
        let r = EngineRegistry { entries: Vec::new() };
        assert(r@ =~= Seq::<(Seq<char>, CtrlSignal)>::empty());
        r
    }

    fn find(&self, id: &str) -> (r: Option<usize>)
        ensures
            match r {
                Some(i) => entry_of(self@, id@, 0) == Some(i as int),
                None => entry_of(self@, id@, 0) is None,
            },
    {
        let mut k: usize = 0;
        while k < self.entries.len()
            invariant
                k <= self.entries.len(),
                entry_of(self@, id@, 0) == entry_of(self@, id@, k as int),
            decreases self.entries.len() - k,
        {
            assert(self@[k as int] == (self.entries@[k as int].0@, self.entries@[k as int].1));
            if str_eq(self.entries[k].0.as_str(), id) {
                return Some(k);
            }
            k += 1;
        }
        None
    }

    /// Takes on task `id`, running, unless it is already held; says whether
    /// it was taken on (a download is then started for it).
    pub fn start(&mut self, id: &str) -> (r: bool)
        requires
            old(self).wf(),
        ensures
            final(self).wf(),
            r == (entry_of(old(self)@, id@, 0) is None),
            r ==> final(self)@ == old(self)@.push((id@, CtrlSignal::Run)),
            !r ==> final(self)@ == old(self)@,
    {
        let ghost s = self@;
        proof {
            lemma_entry_of(s, id@, 0);
        }
        match self.find(id) {
            Some(_) => false,
            None => {
                self.entries.push((String::from_str(id), CtrlSignal::Run));
                assert(self@ =~= s.push((id@, CtrlSignal::Run)));
                true
            },
        }
    }

    /// Sends `sig` to task `id` when it is held (pause, resume or cancel);
    /// a task not held is left alone.
    pub fn send(&mut self, id: &str, sig: CtrlSignal)
        requires
            old(self).wf(),
        ensures
            final(self).wf(),
            match entry_of(old(self)@, id@, 0) {
                Some(i) => final(self)@ == old(self)@.update(i, (id@, sig)),
                None => final(self)@ == old(self)@,
            },
    {
        let ghost s = self@;
        proof {
            lemma_entry_of(s, id@, 0);
        }
        match self.find(id) {
            Some(i) => {
                let name = self.entries[i].0.clone();
                self.entries.set(i, (name, sig));
                assert(self@ =~= s.update(i as int, (id@, sig)));
            },
            None => {},
        }
    }

    /// Lets go of task `id` once its download has ended.
    pub fn finish(&mut self, id: &str)
        requires
            old(self).wf(),
        ensures
            final(self).wf(),
            match entry_of(old(self)@, id@, 0) {
                Some(i) => final(self)@ == old(self)@.remove(i),
                None => final(self)@ == old(self)@,
            },
    {
        let ghost s = self@;
        proof {
            lemma_entry_of(s, id@, 0);
        }
        match self.find(id) {
            Some(i) => {
                self.entries.remove(i);
                assert(self@ =~= s.remove(i as int));
                assert forall|a: int, b: int|
                    0 <= a < self@.len() && 0 <= b < self@.len() && a != b implies #[trigger] self@[a].0
                    != #[trigger] self@[b].0 by {
                    let a0 = if a < i { a } else { a + 1 };
                    let b0 = if b < i { b } else { b + 1 };
                    assert(s[a0].0 != s[b0].0);
                }
            },
            None => {},
        }
    }

    /// Whether task `id` is held.
    pub fn is_active(&self, id: &str) -> (r: bool)
        ensures
            r == (entry_of(self@, id@, 0) is Some),
    {
        self.find(id).is_some()
    }

    /// The tasks downloading now.
    pub fn running_task_ids(&self) -> (r: Vec<String>)
        ensures
            string_views(r@) == running_ids(self@),
    {
        let mut r: Vec<String> = Vec::new();
        let mut k: usize = 0;
        while k < self.entries.len()
            invariant
                k <= self.entries.len(),
                string_views(r@) == running_ids(self@.subrange(0, k as int)),
            decreases self.entries.len() - k,
        {
            assert(self@.subrange(0, k + 1).drop_last() =~= self@.subrange(0, k as int));
            assert(self@[k as int] == (self.entries@[k as int].0@, self.entries@[k as int].1));
            if self.entries[k].1 == CtrlSignal::Run {
                let ghost before = string_views(r@);
                r.push(self.entries[k].0.clone());
                assert(string_views(r@) =~= before.push(self@[k as int].0));
            }
            k += 1;
        }
        assert(self@.subrange(0, self@.len() as int) =~= self@);
        r
    }

    /// How many tasks are downloading now.
    pub fn active_download_count(&self) -> (r: usize)
        ensures
            r == running_ids(self@).len(),
    {
        let mut n: usize = 0;
        let mut k: usize = 0;
        while k < self.entries.len()
            invariant
                k <= self.entries.len(),
                n == running_ids(self@.subrange(0, k as int)).len(),
                n <= k,
            decreases self.entries.len() - k,
        {
            assert(self@.subrange(0, k + 1).drop_last() =~= self@.subrange(0, k as int));
            assert(self@[k as int] == (self.entries@[k as int].0@, self.entries@[k as int].1));
            if self.entries[k].1 == CtrlSignal::Run {
                n = n + 1;
            }
            k += 1;
        }
        assert(self@.subrange(0, self@.len() as int) =~= self@);
        n
    }
}

/// A held task is listed among the downloading ones exactly when its last
/// signal is `Run`: starting a task lists it, pausing or cancelling it takes
/// it off the list, resuming puts it back, and a task let go of is not held.
pub proof fn lemma_running_iff_run(s: Seq<(Seq<char>, CtrlSignal)>, id: Seq<char>)
    requires
        distinct_tasks(s),
    ensures
        running_ids(s).contains(id) <==> signal_of(s, id) == Some(CtrlSignal::Run),
    decreases s.len(),
{
    lemma_entry_of(s, id, 0);
    if s.len() > 0 {
        let p = s.drop_last();
        assert(distinct_tasks(p)) by {
            assert forall|i: int, j: int| 0 <= i < p.len() && 0 <= j < p.len() && i != j implies #[trigger] p[i].0 != #[trigger] p[j].0 by {
                assert(s[i].0 != s[j].0);
            }
        }
        lemma_running_iff_run(p, id);
        lemma_entry_of(p, id, 0);
        let last = s.last();
        if last.0 == id {
            assert(forall|j: int| 0 <= j < p.len() ==> p[j].0 != id) by {
                assert forall|j: int| 0 <= j < p.len() implies p[j].0 != id by {
                    assert(s[j].0 != s[s.len() - 1].0);
                }
            }
            assert(signal_of(p, id) is None);
            assert(!running_ids(p).contains(id));
            assert(entry_of(s, id, 0) == Some(s.len() - 1)) by {
                lemma_entry_of(s, id, 0);
                if let Some(i) = entry_of(s, id, 0) {
                    if i < s.len() - 1 {
                        assert(s[i].0 != s[s.len() - 1].0);
                    }
                }
            }
            if last.1 == CtrlSignal::Run {
                assert(running_ids(s) == running_ids(p).push(id));
                assert(running_ids(s)[running_ids(p).len() as int] == id);
            } else {
                assert(running_ids(s) == running_ids(p));
            }
        } else {
            assert(signal_of(s, id) == signal_of(p, id)) by {
                match entry_of(s, id, 0) {
                    Some(i) => {
                        assert(i < s.len() - 1);
                        assert(p[i] == s[i]);
                        match entry_of(p, id, 0) {
                            Some(i2) => {
                                if i2 < i {
                                    assert(s[i2] == p[i2]);
                                } else if i < i2 {
                                    assert(p[i].0 == id);
                                }
                            },
                            None => {
                                assert(p[i].0 == id);
                            },
                        }
                    },
                    None => {
                        match entry_of(p, id, 0) {
                            Some(i2) => {
                                assert(s[i2] == p[i2]);
                            },
                            None => {},
                        }
                    },
                }
            }
            if last.1 == CtrlSignal::Run {
                assert(running_ids(s) == running_ids(p).push(last.0));
                assert(running_ids(s).contains(id) <==> running_ids(p).contains(id)) by {
                    if running_ids(p).contains(id) {
                        let k = choose|k: int| 0 <= k < running_ids(p).len() && running_ids(p)[k] == id;
                        assert(running_ids(s)[k] == id);
                    }
                    if running_ids(s).contains(id) {
                        let k = choose|k: int| 0 <= k < running_ids(s).len() && running_ids(s)[k] == id;
                        assert(k < running_ids(p).len());
                        assert(running_ids(p)[k] == id);
                    }
                }
            } else {
                assert(running_ids(s) == running_ids(p));
            }
        }
    } else {
        assert(running_ids(s) =~= Seq::<Seq<char>>::empty());
    }
}

} // verus!
