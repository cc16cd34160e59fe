//! The application's watch over the network and its restarts: downloads are
//! paused when the network goes away (after two failed probes in a row) and
//! resumed when it comes back, only those that the outage paused; and after
//! a crash, the interrupted downloads are started again.
//!
//! The caller probes the network every 15 seconds, pauses and resumes tasks
//! and tells the user; this module decides.

use vstd::prelude::*;
use crate::text::{str_eq, string_views};

verus! {

/// Failed probes in a row after which the network counts as gone.
pub const FAILURES_BEFORE_OFFLINE: u32 = 2;

/// What the monitor remembers between probes.
pub struct NetworkMonitor {
    /// The network's state after the last probe (`None` before the first).
    pub was_online: Option<bool>,
    pub consecutive_failures: u32,
    /// Tasks the outage paused, each once, in the order they were paused.
    pub paused: Vec<String>,
}

/// What the caller does after a probe.
#[derive(Debug, Clone, PartialEq, Eq)]
pub enum NetworkAction {
    /// Nothing changed.
    Stay,
    /// The network went away: pause the tasks that were running (they are
    /// remembered) and tell the user.
    WentOffline,
    /// The network came back: resume these tasks (or start those the engine
    /// no longer holds) and tell the user.
    BackOnline(Vec<String>),
}

/// The network counts as there while fewer than two probes in a row failed.
pub open spec fn effective_online(online: bool, failures: u32) -> bool {
    online || failures < 2
}

impl NetworkMonitor {
    /// The monitor before its first probe.
    pub fn new() -> (r: NetworkMonitor)
        ensures
            r.was_online is None,
            r.consecutive_failures == 0,
            r.paused@.len() == 0,
    {
        NetworkMonitor { was_online: None, consecutive_failures: 0, paused: Vec::new() }
    }

    /// The monitor's invariant: no task is remembered twice.
    pub open spec fn wf(&self) -> bool {
        string_views(self.paused@).no_duplicates()
    }

    /// Takes in one probe (`online`) with the tasks running at that moment.
    pub fn on_probe(&mut self, online: bool, running: &Vec<String>) -> (r: NetworkAction)
        requires
            old(self).wf(),
            old(self).consecutive_failures < u32::MAX,
        ensures
            final(self).wf(),
            final(self).consecutive_failures == (if online { 0 } else { old(self).consecutive_failures + 1 }),
            final(self).was_online == Some(effective_online(online, final(self).consecutive_failures)),
            ({
                let now = effective_online(online, final(self).consecutive_failures);
                if old(self).was_online == Some(true) && !now {
                    &&& r == NetworkAction::WentOffline
                    &&& string_views(final(self).paused@).to_set()
                        == string_views(old(self).paused@).to_set() + string_views(running@).to_set()
                } else if old(self).was_online == Some(false) && now {
                    &&& r matches NetworkAction::BackOnline(ids)
                    &&& string_views(ids@) == string_views(old(self).paused@)
                    &&& final(self).paused@.len() == 0
                } else {
                    &&& r == NetworkAction::Stay
                    &&& string_views(final(self).paused@) == string_views(old(self).paused@)
                }
            }),
    {
        if online {
            self.consecutive_failures = 0;
        } else {
            self.consecutive_failures = self.consecutive_failures + 1;
        }
        let now = online || self.consecutive_failures < FAILURES_BEFORE_OFFLINE;
        let prev = self.was_online;
        self.was_online = Some(now);
        match prev {
            Some(true) => {
                if !now {
                    self.remember(running);
                    return NetworkAction::WentOffline;
                }
            },
            Some(false) => {
                if now {
                    let mut ids: Vec<String> = Vec::new();
                    std::mem::swap(&mut ids, &mut self.paused);
                    return NetworkAction::BackOnline(ids);
                }
            },
            None => {},
        }
        NetworkAction::Stay
    }

    fn remember(&mut self, running: &Vec<String>)
        requires
            old(self).wf(),
        ensures
            final(self).wf(),
            final(self).was_online == old(self).was_online,
            final(self).consecutive_failures == old(self).consecutive_failures,
            string_views(final(self).paused@).to_set()
                == string_views(old(self).paused@).to_set() + string_views(running@).to_set(),
    {
        let ghost p0 = string_views(self.paused@).to_set();
        let mut i: usize = 0;
        assert(string_views(running@).subrange(0, 0).to_set() =~= Set::<Seq<char>>::empty());
        assert(p0 + Set::<Seq<char>>::empty() =~= p0);
        while i < running.len()
            invariant
                i <= running@.len(),
                self.wf(),
                self.was_online == old(self).was_online,
                self.consecutive_failures == old(self).consecutive_failures,
                string_views(self.paused@).to_set() == p0 + string_views(running@).subrange(0, i as int).to_set(),
            decreases running@.len() - i,
        {
            let id = &running[i];
            let ghost prev = string_views(running@).subrange(0, i as int);
            let ghost before = string_views(self.paused@);
            let mut found = false;
            let mut k: usize = 0;
            while k < self.paused.len()
                invariant
                    k <= self.paused@.len(),
                    string_views(self.paused@) == before,
                    found <==> exists|q: int| 0 <= q < k && #[trigger] before[q] == id@,
                decreases self.paused@.len() - k,
            {
                assert(before[k as int] == self.paused@[k as int]@);
                if str_eq(self.paused[k].as_str(), id.as_str()) {
                    found = true;
                }
                proof {
                    if exists|q: int| 0 <= q < k + 1 && #[trigger] before[q] == id@ {
                        let q = choose|q: int| 0 <= q < k + 1 && #[trigger] before[q] == id@;
                        if q < k {
                            assert(exists|q2: int| 0 <= q2 < k && #[trigger] before[q2] == id@);
                        }
                    }
                }
                k += 1;
            }
            if !found {
                self.paused.push(id.clone());
                proof {
                    assert(string_views(self.paused@) =~= before.push(id@));
                    assert forall|a: int, b: int| 0 <= a < b < before.len() + 1 implies string_views(self.paused@)[a] != string_views(self.paused@)[b] by {
                        if b == before.len() {
                            assert(before[a] != id@);
                        }
                    }
                    before.lemma_push_to_set_commute(id@);
                }
            } else {
                proof {
                    let q = choose|q: int| 0 <= q < k && #[trigger] before[q] == id@;
                    assert(before.to_set().contains(id@));
                }
            }
            proof {
                assert(string_views(running@).subrange(0, i + 1) =~= prev.push(id@));
                prev.lemma_push_to_set_commute(id@);
                assert(string_views(self.paused@).to_set() =~= p0 + prev.push(id@).to_set());
            }
            i += 1;
        }
        assert(string_views(running@).subrange(0, running@.len() as int) =~= string_views(running@));
    }
}

/// A single failed probe never pauses downloads: the network counts as
/// gone only from the second failure in a row, and any success brings it back.
pub proof fn lemma_outage_needs_two_failures(failures: u32)
    ensures
        effective_online(true, failures),
        !effective_online(false, failures) <==> failures >= FAILURES_BEFORE_OFFLINE,
{
}

/// Whether downloads interrupted by a crash are started again at launch:
/// unless `app.auto_resume_on_startup` is `false`.
pub fn auto_resume_enabled(setting: Option<&str>) -> (r: bool)
    ensures
        r == !(setting matches Some(s) && s@ == "false"@),
{
    match setting {
        Some(s) => !str_eq(s, "false"),
        None => true,
    }
}

/// The ids of the interrupted tasks whose record could be read and is
/// `paused`, in order.
pub open spec fn paused_ids(s: Seq<(String, Option<String>)>) -> Seq<Seq<char>>
    decreases s.len(),
{
    if s.len() == 0 {
        Seq::empty()
    } else {
        let prev = paused_ids(s.drop_last());
        if s.last().1 matches Some(st) && st@ == "paused"@ {
            prev.push(s.last().0@)
        } else {
            prev
        }
    }
}

/// The interrupted tasks to start at launch: none when that is switched
/// off, else those whose record could be read and is `paused`, in order.
pub fn startup_resumes(enabled: bool, interrupted: &Vec<(String, Option<String>)>) -> (r: Vec<String>)
    ensures
        string_views(r@) == (if enabled { paused_ids(interrupted@) } else { Seq::empty() }),
{
    let mut r: Vec<String> = Vec::new();
    if !enabled {
        assert(string_views(r@) =~= Seq::<Seq<char>>::empty());
        return r;
    }
    let mut i: usize = 0;
    assert(string_views(r@) =~= paused_ids(interrupted@.subrange(0, 0)));
    while i < interrupted.len()
        invariant
            i <= interrupted@.len(),
            string_views(r@) == paused_ids(interrupted@.subrange(0, i as int)),
        decreases interrupted@.len() - i,
    {
        assert(interrupted@.subrange(0, i + 1).drop_last() =~= interrupted@.subrange(0, i as int));
        let keep = match &interrupted[i].1 {
            Some(st) => str_eq(st.as_str(), "paused"),
            None => false,
        };
        let ghost before = string_views(r@);
        if keep {
            r.push(interrupted[i].0.clone());
            assert(string_views(r@) =~= before.push(interrupted@[i as int].0@));
        }
        i += 1;
    }
    assert(interrupted@.subrange(0, interrupted@.len() as int) =~= interrupted@);
    r
}

} // verus!
