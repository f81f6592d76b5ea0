//! Cancellation registry.
//!
//! A process-wide table maps an in-flight job's logical key to its OS process
//! identity so that an out-of-band stop request can find it. Cancelling does
//! not kill anything here: it removes the entry and hands back a plan naming
//! the process group and the process the caller must signal, since signal
//! delivery is fire-and-forget I/O. A single shared slot tracks the one
//! primary run; a keyed table tracks secondary runs independently.

use vstd::prelude::*;
use vstd::string::*;
use crate::strings::str_eq;

verus! {

/// The two targets a cooperative-stop signal must reach: the worker's process
/// group (a negative identifier) first, then the process itself, so both the
/// worker and any wrapper it was launched under receive the signal.
pub struct SignalPlan {
    /// Process-group target, the negated process identifier.
    pub group_target: i32,
    /// Direct target, the process identifier itself.
    pub process_target: i32,
}

/// A stop request found nothing held under its key: a normal, recoverable
/// condition, not a fault.
pub struct RegistryMiss;

/// Largest process identifier the registry accepts; identifiers are signalled
/// through an `i32`, so larger values could not be targeted.
pub const PID_MAX: u32 = 0x7fff_ffff;

/// The signal plan for one held process identifier.
pub open spec fn plan_for(pid: u32) -> SignalPlan {
    SignalPlan { group_target: (-(pid as int)) as i32, process_target: pid as i32 }
}

fn make_plan(pid: u32) -> (r: SignalPlan)
    requires
        0 < pid <= PID_MAX,
    ensures
        r == plan_for(pid),
{
    SignalPlan { group_target: -(pid as i32), process_target: pid as i32 }
}

/// The single shared slot tracking the primary run, enforcing the
/// one-primary-job-at-a-time policy.
pub struct PrimarySlot {
    pid: u32,
}

impl PrimarySlot {
    /// The held process identifier, if any.
    pub closed spec fn held(&self) -> Option<u32> {
        if self.pid == 0 {
            None
        } else {
            Some(self.pid)
        }
    }

    /// Every held identifier fits a signal target.
    pub closed spec fn wf(&self) -> bool {
        self.pid <= PID_MAX
    }

    /// An empty slot.
    pub fn new() -> (r: Self)
        ensures
            r.held() is None,
            r.wf(),
    {
        PrimarySlot { pid: 0 }
    }

    /// Tracks a newly spawned primary run; a previous entry is superseded.
    pub fn track(&mut self, pid: u32)
        requires
            0 < pid <= PID_MAX,
        ensures
            final(self).held() == Some(pid),
            final(self).wf(),
    {
        self.pid = pid;
    }

    /// Clears the slot; a no-op when nothing is held.
    pub fn clear(&mut self)
        ensures
            final(self).held() is None,
            final(self).wf(),
    {
        self.pid = 0;
    }

    /// Takes the held identifier for a stop request. When a run is
    /// held, the slot is cleared and the signal plan for it is returned;
    /// when none is, the miss is reported and nothing changes.
    pub fn take_for_stop(&mut self) -> (r: Result<SignalPlan, RegistryMiss>)
        requires
            old(self).wf(),
        ensures
            final(self).wf(),
            final(self).held() is None,
            match r {
                Ok(plan) => old(self).held() == Some(plan.process_target as u32) && plan
                    == plan_for(plan.process_target as u32),
                Err(_) => old(self).held() is None,
            },
    {
        if self.pid == 0 {
            Err(RegistryMiss)
        } else {
            let pid = self.pid;
            self.pid = 0;
            Ok(make_plan(pid))
        }
    }
}

/// The keyed table's contents as a map from key characters to process
/// identifiers, later entries winning.
pub open spec fn entries_map(s: Seq<(String, u32)>) -> Map<Seq<char>, u32>
    decreases s.len(),
{
    if s.len() == 0 {
        Map::empty()
    } else {
        entries_map(s.drop_last()).insert(s.last().0@, s.last().1)
    }
}

/// No two entries share a key.
pub open spec fn keys_unique(s: Seq<(String, u32)>) -> bool {
    forall|i: int, j: int| 0 <= i < j < s.len() ==> s[i].0@ != s[j].0@
}

/// All stored identifiers fit a signal target.
pub open spec fn pids_ok(s: Seq<(String, u32)>) -> bool {
    forall|i: int| 0 <= i < s.len() ==> 0 < #[trigger] s[i].1 <= PID_MAX
}

proof fn lemma_entries_map_dom(s: Seq<(String, u32)>, k: Seq<char>)
    ensures
        entries_map(s).dom().contains(k) <==> exists|i: int| 0 <= i < s.len() && s[i].0@ == k,
    decreases s.len(),
{
    if s.len() > 0 {
        lemma_entries_map_dom(s.drop_last(), k);
        if exists|i: int| 0 <= i < s.len() && s[i].0@ == k {
            let i = choose|i: int| 0 <= i < s.len() && s[i].0@ == k;
            if i < s.len() - 1 {
                assert(s.drop_last()[i].0@ == k);
            }
        }
        if entries_map(s).dom().contains(k) {
            if s.last().0@ != k {
                let i = choose|i: int| 0 <= i < s.drop_last().len() && s.drop_last()[i].0@ == k;
                assert(s[i].0@ == k);
            }
        }
    }
}

proof fn lemma_entries_map_at(s: Seq<(String, u32)>, i: int)
    requires
        keys_unique(s),
        0 <= i < s.len(),
    ensures
        entries_map(s).dom().contains(s[i].0@),
        entries_map(s)[s[i].0@] == s[i].1,
    decreases s.len(),
{
    lemma_entries_map_dom(s, s[i].0@);
    if i < s.len() - 1 {
        assert(s.drop_last()[i] == s[i]);
        lemma_entries_map_at(s.drop_last(), i);
        assert(s.last().0@ != s[i].0@);
    }
}

proof fn lemma_entries_map_remove(s: Seq<(String, u32)>, i: int)
    requires
        keys_unique(s),
        0 <= i < s.len(),
    ensures
        entries_map(s.remove(i)) =~= entries_map(s).remove(s[i].0@),
        keys_unique(s.remove(i)),
    decreases s.len(),
{
    let k = s[i].0@;
    assert forall|a: int, b: int| 0 <= a < b < s.remove(i).len() implies s.remove(i)[a].0@ != s.remove(
        i,
    )[b].0@ by {
        let a0 = if a < i { a } else { a + 1 };
        let b0 = if b < i { b } else { b + 1 };
        assert(s.remove(i)[a] == s[a0] && s.remove(i)[b] == s[b0]);
    }
    if i == s.len() - 1 {
        assert(s.remove(i) =~= s.drop_last());
        lemma_entries_map_dom(s.drop_last(), k);
        assert(!entries_map(s.drop_last()).dom().contains(k));
        assert(entries_map(s.drop_last()) =~= entries_map(s).remove(k));
    } else {
        lemma_entries_map_remove(s.drop_last(), i);
        assert(s.remove(i).drop_last() =~= s.drop_last().remove(i));
        assert(s.remove(i).last() == s.last());
        assert(entries_map(s.remove(i)) =~= entries_map(s.drop_last().remove(i)).insert(
            s.last().0@,
            s.last().1,
        ));
        assert(s.last().0@ != k);
        assert(entries_map(s.remove(i)) =~= entries_map(s).remove(k));
    }
}

/// The keyed cancellation registry.
pub struct KeyedRegistry {
    entries: Vec<(String, u32)>,
}

impl KeyedRegistry {
    /// The registry's contents as a map.
    pub closed spec fn view(&self) -> Map<Seq<char>, u32> {
        entries_map(self.entries@)
    }

    /// The registry's internal invariant.
    pub closed spec fn wf(&self) -> bool {
        keys_unique(self.entries@) && pids_ok(self.entries@)
    }

    /// An empty registry.
    pub fn new() -> (r: Self)
        ensures
            r@ == Map::<Seq<char>, u32>::empty(),
            r.wf(),
    {
        KeyedRegistry { entries: Vec::new() }
    }

    fn find(&self, key: &str) -> (r: Option<usize>)
        requires
            self.wf(),
        ensures
            match r {
                Some(i) => i < self.entries@.len() && self.entries@[i as int].0@ == key@,
                None => !self@.dom().contains(key@),
            },
    {
        let mut i: usize = 0;
        while i < self.entries.len()
            invariant
                self.wf(),
                i <= self.entries@.len(),
                forall|j: int| 0 <= j < i ==> self.entries@[j].0@ != key@,
            decreases self.entries@.len() - i,
        {
            if str_eq(self.entries[i].0.as_str(), key) {
                return Some(i);
            }
            i += 1;
        }
        proof {
            lemma_entries_map_dom(self.entries@, key@);
        }
        None
    }

    /// Inserts or overwrites the entry for `key`: the last writer wins, a new
    /// run under the same key superseding a previous one.
    pub fn register(&mut self, key: String, pid: u32)
        requires
            old(self).wf(),
            0 < pid <= PID_MAX,
        ensures
            final(self).wf(),
            final(self)@ == old(self)@.insert(key@, pid),
    {
        match self.find(key.as_str()) {
            Some(i) => {
                proof {
                    lemma_entries_map_remove(self.entries@, i as int);
                }
                let ghost pre = self.entries@;
                self.entries.remove(i);
                self.entries.push((key, pid));
                proof {
                    assert(self.entries@.drop_last() =~= pre.remove(i as int));
                    assert(self@ =~= old(self)@.insert(key@, pid));
                }
            },
            None => {
                let ghost pre = self.entries@;
                self.entries.push((key, pid));
                proof {
                    assert(self.entries@.drop_last() =~= pre);
                    assert(self@ =~= old(self)@.insert(key@, pid));
                    assert forall|a: int, b: int|
                        0 <= a < b < self.entries@.len() implies self.entries@[a].0@
                        != self.entries@[b].0@ by {
                        if b < self.entries@.len() - 1 {
                            assert(pre[a] == self.entries@[a] && pre[b] == self.entries@[b]);
                        } else {
                            assert(pre[a] == self.entries@[a]);
                            lemma_entries_map_dom(pre, self.entries@[b].0@);
                        }
                    }
                }
            },
        }
    }

    /// Looks up the held process identifier for `key`.
    pub fn lookup(&self, key: &str) -> (r: Option<u32>)
        requires
            self.wf(),
        ensures
            match r {
                Some(pid) => self@.dom().contains(key@) && self@[key@] == pid,
                None => !self@.dom().contains(key@),
            },
    {
        match self.find(key) {
            Some(i) => {
                proof {
                    lemma_entries_map_at(self.entries@, i as int);
                }
                Some(self.entries[i].1)
            },
            None => None,
        }
    }

    /// Handles a stop request for `key`. When the key is held, its entry
    /// is cleared — signal delivery cannot be confirmed, so the entry goes
    /// regardless — and the signal plan for the held process is returned;
    /// when it is not, the miss is reported and nothing changes.
    pub fn cancel(&mut self, key: &str) -> (r: Result<SignalPlan, RegistryMiss>)
        requires
            old(self).wf(),
        ensures
            final(self).wf(),
            match r {
                Ok(plan) => old(self)@.dom().contains(key@) && plan == plan_for(
                    old(self)@[key@],
                ) && final(self)@ == old(self)@.remove(key@),
                Err(_) => !old(self)@.dom().contains(key@) && final(self)@ == old(self)@,
            },
    {
        match self.find(key) {
            Some(i) => {
                proof {
                    lemma_entries_map_at(self.entries@, i as int);
                    lemma_entries_map_remove(self.entries@, i as int);
                }
                let pid = self.entries[i].1;
                self.entries.remove(i);
                Ok(make_plan(pid))
            },
            None => Err(RegistryMiss),
        }
    }

    /// Removes the entry for `key`, unconditionally called when a run
    /// completes. Removal is idempotent: on an already-absent key nothing
    /// changes and nothing fails.
    pub fn deregister(&mut self, key: &str)
        requires
            old(self).wf(),
        ensures
            final(self).wf(),
            final(self)@ == old(self)@.remove(key@),
            !old(self)@.dom().contains(key@) ==> final(self)@ == old(self)@,
    {
        match self.find(key) {
            Some(i) => {
                proof {
                    lemma_entries_map_remove(self.entries@, i as int);
                }
                self.entries.remove(i);
            },
            None => {
                proof {
                    assert(self@ =~= old(self)@.remove(key@));
                }
            },
        }
    }
}

/// Removing an absent key is a no-op: the precise statement of deregister's
/// idempotence on a key that is not held.
pub proof fn lemma_remove_absent(m: Map<Seq<char>, u32>, k: Seq<char>)
    requires
        !m.dom().contains(k),
    ensures
        m.remove(k) =~= m,
{
}

} // verus!
