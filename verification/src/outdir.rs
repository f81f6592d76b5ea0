//! Versioned output manager.
//!
//! Before a run starts, a staging directory named by a sortable second-
//! resolution timestamp identifier is allocated under the output root. On a
//! clean success the staging directory is promoted: renamed to a fresh
//! completion-time identifier, the original identifier standing in when the
//! rename fails, since a run's success must not be voided by a cosmetic
//! rename failure. On any other outcome it is discarded. The manager keeps
//! the model of which version directories the root holds; the surrounding
//! application mirrors each transition onto the real filesystem.

use vstd::prelude::*;
use vstd::string::*;
use crate::clock::{parts_in_range, DateTimeParts};
use crate::strings::{
    lemma_pad2_len, lemma_pad4_len, lex_le, pad2_chars, pad4_chars, push_pad2, push_pad4,
};

verus! {

/// The identifier characters for one calendar reading: zero-padded year,
/// month and day, an underscore, then zero-padded hour, minute and second.
/// Fixed-width, so the lexicographic order of identifiers follows time.
pub open spec fn timestamp_id_chars(p: DateTimeParts) -> Seq<char>
    recommends
        p.year >= 0,
{
    pad4_chars(p.year as nat) + pad2_chars(p.month as nat) + pad2_chars(p.day as nat)
        + seq!['_'] + pad2_chars(p.hour as nat) + pad2_chars(p.minute as nat) + pad2_chars(
        p.second as nat,
    )
}

/// Formats the identifier for one calendar reading.
pub fn format_timestamp_id(p: &DateTimeParts) -> (r: String)
    requires
        p.year >= 0,
    ensures
        r@ == timestamp_id_chars(*p),
        p.year <= 9999 && parts_in_range(*p) ==> r@.len() == 15,
{
    let mut out = String::new();
    push_pad4(&mut out, p.year as u32);
    push_pad2(&mut out, p.month);
    push_pad2(&mut out, p.day);
    proof {
        reveal_strlit("_");
        assert("_"@ =~= seq!['_']);
    }
    out.append("_");
    push_pad2(&mut out, p.hour);
    push_pad2(&mut out, p.minute);
    push_pad2(&mut out, p.second);
    assert(out@ =~= timestamp_id_chars(*p));
    proof {
        if p.year <= 9999 && parts_in_range(*p) {
            lemma_pad4_len(p.year as nat);
            lemma_pad2_len(p.month as nat);
            lemma_pad2_len(p.day as nat);
            lemma_pad2_len(p.hour as nat);
            lemma_pad2_len(p.minute as nat);
            lemma_pad2_len(p.second as nat);
        }
    }
    out
}

/// Formats the identifier for a reading whose year fits the identifier
/// format, and reports the reading that does not.
pub fn timestamp_id_from(p: &DateTimeParts) -> (r: Option<String>)
    ensures
        match r {
            Some(s) => p.year >= 0 && s@ == timestamp_id_chars(*p),
            None => p.year < 0,
        },
{
    if p.year >= 0 {
        Some(format_timestamp_id(p))
    } else {
        None
    }
}

/// Calendar order on readings, fields compared most significant first.
pub open spec fn parts_le(p: DateTimeParts, q: DateTimeParts) -> bool {
    if p.year != q.year {
        p.year < q.year
    } else if p.month != q.month {
        p.month < q.month
    } else if p.day != q.day {
        p.day < q.day
    } else if p.hour != q.hour {
        p.hour < q.hour
    } else if p.minute != q.minute {
        p.minute < q.minute
    } else {
        p.second <= q.second
    }
}

/// The identifier format is fixed-width and zero-padded, so identifiers
/// sort like time: an earlier reading's identifier sorts at or before a
/// later one's, and the plain lexicographic sort of a listing is
/// chronological.
#[verifier::rlimit(100)]
pub proof fn lemma_identifier_order_follows_time(p: DateTimeParts, q: DateTimeParts)
    requires
        0 <= p.year <= 9999,
        0 <= q.year <= 9999,
        parts_in_range(p),
        parts_in_range(q),
        parts_le(p, q),
    ensures
        lex_le(timestamp_id_chars(p), timestamp_id_chars(q)),
{
    let sep = seq!['_'];
    let r2p = pad2_chars(p.minute as nat) + pad2_chars(p.second as nat);
    let r3p = pad2_chars(p.hour as nat) + r2p;
    let r4p = sep + r3p;
    let r5p = pad2_chars(p.day as nat) + r4p;
    let r6p = pad2_chars(p.month as nat) + r5p;
    let r2q = pad2_chars(q.minute as nat) + pad2_chars(q.second as nat);
    let r3q = pad2_chars(q.hour as nat) + r2q;
    let r4q = sep + r3q;
    let r5q = pad2_chars(q.day as nat) + r4q;
    let r6q = pad2_chars(q.month as nat) + r5q;
    assert(timestamp_id_chars(p) =~= pad4_chars(p.year as nat) + r6p);
    assert(timestamp_id_chars(q) =~= pad4_chars(q.year as nat) + r6q);
    crate::strings::lemma_pad4_len(p.year as nat);
    crate::strings::lemma_pad4_len(q.year as nat);
    crate::strings::lemma_pad2_len(p.month as nat);
    crate::strings::lemma_pad2_len(q.month as nat);
    crate::strings::lemma_pad2_len(p.day as nat);
    crate::strings::lemma_pad2_len(q.day as nat);
    crate::strings::lemma_pad2_len(p.hour as nat);
    crate::strings::lemma_pad2_len(q.hour as nat);
    crate::strings::lemma_pad2_len(p.minute as nat);
    crate::strings::lemma_pad2_len(q.minute as nat);
    crate::strings::lemma_lex_concat(
        pad4_chars(p.year as nat),
        r6p,
        pad4_chars(q.year as nat),
        r6q,
    );
    if p.year != q.year {
        crate::strings::lemma_pad4_monotone(p.year as nat, q.year as nat);
    } else {
        crate::strings::lemma_lex_concat(
            pad2_chars(p.month as nat),
            r5p,
            pad2_chars(q.month as nat),
            r5q,
        );
        if p.month != q.month {
            crate::strings::lemma_pad2_monotone(p.month as nat, q.month as nat);
        } else {
            crate::strings::lemma_lex_concat(
                pad2_chars(p.day as nat),
                r4p,
                pad2_chars(q.day as nat),
                r4q,
            );
            if p.day != q.day {
                crate::strings::lemma_pad2_monotone(p.day as nat, q.day as nat);
            } else {
                crate::strings::lemma_lex_concat(sep, r3p, sep, r3q);
                crate::strings::lemma_lex_concat(
                    pad2_chars(p.hour as nat),
                    r2p,
                    pad2_chars(q.hour as nat),
                    r2q,
                );
                if p.hour != q.hour {
                    crate::strings::lemma_pad2_monotone(p.hour as nat, q.hour as nat);
                } else {
                    crate::strings::lemma_lex_concat(
                        pad2_chars(p.minute as nat),
                        pad2_chars(p.second as nat),
                        pad2_chars(q.minute as nat),
                        pad2_chars(q.second as nat),
                    );
                    if p.minute != q.minute {
                        crate::strings::lemma_pad2_monotone(p.minute as nat, q.minute as nat);
                    } else {
                        if p.second != q.second {
                            crate::strings::lemma_pad2_monotone(p.second as nat, q.second as nat);
                        } else {
                            crate::strings::lemma_lex_refl(pad2_chars(p.second as nat));
                        }
                    }
                }
            }
        }
    }
}

/// The names held by a root, later entries winning, as a set of characters.
pub open spec fn names_set(s: Seq<String>) -> Set<Seq<char>>
    decreases s.len(),
{
    if s.len() == 0 {
        Set::empty()
    } else {
        names_set(s.drop_last()).insert(s.last()@)
    }
}

/// No two held names are the same.
pub open spec fn names_unique(s: Seq<String>) -> bool {
    forall|i: int, j: int| 0 <= i < j < s.len() ==> s[i]@ != s[j]@
}

proof fn lemma_names_set_contains(s: Seq<String>, k: Seq<char>)
    ensures
        names_set(s).contains(k) <==> exists|i: int| 0 <= i < s.len() && s[i]@ == k,
    decreases s.len(),
{
    if s.len() > 0 {
        lemma_names_set_contains(s.drop_last(), k);
        if exists|i: int| 0 <= i < s.len() && s[i]@ == k {
            let i = choose|i: int| 0 <= i < s.len() && s[i]@ == k;
            if i < s.len() - 1 {
                assert(s.drop_last()[i]@ == k);
            }
        }
        if names_set(s).contains(k) {
            if s.last()@ != k {
                let i = choose|i: int| 0 <= i < s.drop_last().len() && s.drop_last()[i]@ == k;
                assert(s[i]@ == k);
            }
        }
    }
}

proof fn lemma_names_set_remove(s: Seq<String>, i: int)
    requires
        names_unique(s),
        0 <= i < s.len(),
    ensures
        names_set(s.remove(i)) =~= names_set(s).remove(s[i]@),
        names_unique(s.remove(i)),
    decreases s.len(),
{
    let k = s[i]@;
    assert forall|a: int, b: int| 0 <= a < b < s.remove(i).len() implies s.remove(i)[a]@ != s.remove(
        i,
    )[b]@ by {
        let a0 = if a < i { a } else { a + 1 };
        let b0 = if b < i { b } else { b + 1 };
        assert(s.remove(i)[a] == s[a0] && s.remove(i)[b] == s[b0]);
    }
    if i == s.len() - 1 {
        assert(s.remove(i) =~= s.drop_last());
        lemma_names_set_contains(s.drop_last(), k);
        assert(!names_set(s.drop_last()).contains(k));
        assert(names_set(s.drop_last()) =~= names_set(s).remove(k));
    } else {
        lemma_names_set_remove(s.drop_last(), i);
        assert(s.remove(i).drop_last() =~= s.drop_last().remove(i));
        assert(s.remove(i).last() == s.last());
        assert(names_set(s.remove(i)) =~= names_set(s.drop_last().remove(i)).insert(s.last()@));
        assert(s.last()@ != k);
        assert(names_set(s.remove(i)) =~= names_set(s).remove(k));
    }
}

/// The model of one output root: the set of version-directory names it
/// currently holds. The surrounding application mirrors every transition
/// onto the filesystem; a directory removed behind the model's back only
/// makes the model's removals no-ops there, which the contracts tolerate.
pub struct OutputRoot {
    names: Vec<String>,
}

impl OutputRoot {
    /// The held names.
    pub closed spec fn view(&self) -> Set<Seq<char>> {
        names_set(self.names@)
    }

    /// The root's internal invariant.
    pub closed spec fn wf(&self) -> bool {
        names_unique(self.names@)
    }

    /// A model holding nothing yet; allocations fill it in.
    pub fn new() -> (r: Self)
        ensures
            r@ == Set::<Seq<char>>::empty(),
            r.wf(),
    {
        OutputRoot { names: Vec::new() }
    }

    fn find(&self, name: &str) -> (r: Option<usize>)
        requires
            self.wf(),
        ensures
            match r {
                Some(i) => i < self.names@.len() && self.names@[i as int]@ == name@,
                None => !self@.contains(name@),
            },
    {
        let mut i: usize = 0;
        while i < self.names.len()
            invariant
                self.wf(),
                i <= self.names@.len(),
                forall|j: int| 0 <= j < i ==> self.names@[j]@ != name@,
            decreases self.names@.len() - i,
        {
            if crate::strings::str_eq(self.names[i].as_str(), name) {
                return Some(i);
            }
            i += 1;
        }
        proof {
            lemma_names_set_contains(self.names@, name@);
        }
        None
    }

    /// Whether the root holds a directory of this name.
    pub fn contains(&self, name: &str) -> (r: bool)
        requires
            self.wf(),
        ensures
            r == self@.contains(name@),
    {
        match self.find(name) {
            Some(i) => {
                proof {
                    lemma_names_set_contains(self.names@, name@);
                }
                true
            },
            None => false,
        }
    }

    /// Allocates the staging directory `id`; creating a directory that
    /// already exists changes nothing.
    pub fn allocate(&mut self, id: String)
        requires
            old(self).wf(),
        ensures
            final(self).wf(),
            final(self)@ == old(self)@.insert(id@),
    {
        self.insert_name(id);
    }

    fn insert_name(&mut self, id: String)
        requires
            old(self).wf(),
        ensures
            final(self).wf(),
            final(self)@ == old(self)@.insert(id@),
    {
        match self.find(id.as_str()) {
            Some(i) => {
                proof {
                    lemma_names_set_contains(self.names@, id@);
                    assert(self@ =~= old(self)@.insert(id@));
                }
            },
            None => {
                let ghost pre = self.names@;
                self.names.push(id);
                proof {
                    assert(self.names@.drop_last() =~= pre);
                    assert(self@ =~= old(self)@.insert(self.names@.last()@));
                    assert forall|a: int, b: int|
                        0 <= a < b < self.names@.len() implies self.names@[a]@
                        != self.names@[b]@ by {
                        if b < self.names@.len() - 1 {
                            assert(pre[a] == self.names@[a] && pre[b] == self.names@[b]);
                        } else {
                            assert(pre[a] == self.names@[a]);
                            lemma_names_set_contains(pre, self.names@[b]@);
                        }
                    }
                }
            },
        }
    }

    fn remove_name(&mut self, name: &str)
        requires
            old(self).wf(),
        ensures
            final(self).wf(),
            final(self)@ == old(self)@.remove(name@),
            !old(self)@.contains(name@) ==> final(self)@ == old(self)@,
    {
        match self.find(name) {
            Some(i) => {
                proof {
                    lemma_names_set_remove(self.names@, i as int);
                }
                self.names.remove(i);
            },
            None => {
                proof {
                    assert(self@ =~= old(self)@.remove(name@));
                }
            },
        }
    }

    /// Promotes the staging directory on a clean success: when the rename
    /// onto the fresh completion-time identifier went through, the staging
    /// name is gone and the fresh name is held; when it failed, nothing
    /// changed and the staging identifier stands as the final one. Returns
    /// the identifier the finished version is known by.
    pub fn promote(&mut self, staging_id: &str, fresh_id: String, rename_ok: bool) -> (r: String)
        requires
            old(self).wf(),
        ensures
            final(self).wf(),
            rename_ok ==> final(self)@ == old(self)@.remove(staging_id@).insert(fresh_id@) && r@
                == fresh_id@,
            !rename_ok ==> final(self)@ == old(self)@ && r@ == staging_id@,
    {
        if rename_ok {
            self.remove_name(staging_id);
            let kept = fresh_id.clone();
            self.insert_name(fresh_id);
            kept
        } else {
            String::from_str(staging_id)
        }
    }

    /// Discards the staging directory on any non-success outcome. Removal is
    /// total: a directory already removed externally simply is not held, and
    /// discarding it changes nothing and raises nothing.
    pub fn discard(&mut self, staging_id: &str)
        requires
            old(self).wf(),
        ensures
            final(self).wf(),
            final(self)@ == old(self)@.remove(staging_id@),
            !old(self)@.contains(staging_id@) ==> final(self)@ == old(self)@,
    {
        self.remove_name(staging_id);
    }
}

/// Round trip of allocation and promotion: promoting an allocated staging
/// directory leaves the fresh identifier held and the staging identifier
/// gone, unless the rename failed, in which case the staging identifier is
/// still held and stands as the final one.
pub proof fn lemma_allocate_promote_round_trip(
    root: Set<Seq<char>>,
    staging_id: Seq<char>,
    fresh_id: Seq<char>,
    rename_ok: bool,
)
    ensures
        ({
            let allocated = root.insert(staging_id);
            let after = if rename_ok {
                allocated.remove(staging_id).insert(fresh_id)
            } else {
                allocated
            };
            &&& rename_ok ==> after.contains(fresh_id)
            &&& rename_ok && fresh_id != staging_id ==> !after.contains(staging_id)
            &&& !rename_ok ==> after.contains(staging_id)
        }),
{
}

} // verus!
