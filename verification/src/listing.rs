//! Read-only enumeration of finished dataset versions.
//!
//! The application scans the dataset root and reports, for each entry, its
//! name and what it holds; this module keeps the entries that look like
//! version directories, derives their display fields, sorts them newest
//! first — the identifier format is fixed-width, so lexicographic order
//! follows time — and appends the one legacy flat layout, when present, as
//! the implicit oldest entry after every timestamped one.

use vstd::prelude::*;
use vstd::string::*;
use crate::strings::{join_path, lemma_lex_total, lemma_lex_trans, lex_le, str_lex_le};

verus! {

/// Everything reported about one dataset version.
pub struct DatasetVersionInfo {
    /// Timestamp identifier, or `legacy` for the flat layout.
    pub version: String,
    /// Full path of the version directory.
    pub path: String,
    /// Number of training records.
    pub train_count: usize,
    /// Number of validation records.
    pub valid_count: usize,
    /// Size of the training file in bytes.
    pub train_size: u64,
    /// Size of the validation file in bytes.
    pub valid_size: u64,
    /// Human-readable creation time.
    pub created: String,
}

/// What the application observed about one entry of the dataset root.
pub struct DirProbe {
    /// The entry's file name.
    pub name: String,
    /// Whether the entry is a directory.
    pub is_dir: bool,
    /// Whether the directory holds a training file.
    pub has_train: bool,
    /// Number of training records.
    pub train_count: usize,
    /// Number of validation records.
    pub valid_count: usize,
    /// Size of the training file in bytes.
    pub train_size: u64,
    /// Size of the validation file in bytes.
    pub valid_size: u64,
}

/// What the application observed about a legacy flat layout, training and
/// validation files directly under the dataset root.
pub struct LegacyProbe {
    /// Number of training records.
    pub train_count: usize,
    /// Number of validation records.
    pub valid_count: usize,
    /// Size of the training file in bytes.
    pub train_size: u64,
    /// Size of the validation file in bytes.
    pub valid_size: u64,
    /// Human-readable creation time.
    pub created: String,
}

/// The display form of a timestamp identifier: `YYYYMMDD_HHMMSS` becomes
/// `YYYY-MM-DD HH:MM`; anything shorter is shown as it is.
pub open spec fn display_of(ts: Seq<char>) -> Seq<char> {
    if ts.len() >= 15 {
        ts.subrange(0, 4) + seq!['-'] + ts.subrange(4, 6) + seq!['-'] + ts.subrange(6, 8)
            + seq![' '] + ts.subrange(9, 11) + seq![':'] + ts.subrange(11, 13)
    } else {
        ts
    }
}

/// Renders a timestamp identifier for display.
pub fn parse_timestamp_display(ts: &str) -> (r: String)
    ensures
        r@ == display_of(ts@),
{
    let n = ts.unicode_len();
    if n >= 15 {
        let mut out = String::new();
        proof {
            reveal_strlit("-");
            reveal_strlit(" ");
            reveal_strlit(":");
            assert("-"@ =~= seq!['-']);
            assert(" "@ =~= seq![' ']);
            assert(":"@ =~= seq![':']);
        }
        out.append(ts.substring_char(0, 4));
        out.append("-");
        out.append(ts.substring_char(4, 6));
        out.append("-");
        out.append(ts.substring_char(6, 8));
        out.append(" ");
        out.append(ts.substring_char(9, 11));
        out.append(":");
        out.append(ts.substring_char(11, 13));
        assert(out@ =~= display_of(ts@));
        out
    } else {
        String::from_str(ts)
    }
}

/// A character that blank lines are made of.
pub open spec fn is_blank_char(c: char) -> bool {
    c == ' ' || c == '\t' || c == '\r'
}

/// Record count of the remaining text: newline-separated lines holding any
/// character beyond blanks, `seen` telling whether the current line already
/// holds one.
pub open spec fn count_records_from(s: Seq<char>, seen: bool) -> nat
    decreases s.len(),
{
    if s.len() == 0 {
        if seen {
            1
        } else {
            0
        }
    } else if s[0] == '\n' {
        (if seen {
            1nat
        } else {
            0nat
        }) + count_records_from(s.skip(1), false)
    } else {
        count_records_from(s.skip(1), seen || !is_blank_char(s[0]))
    }
}

/// How many non-blank newline-separated records the text holds.
pub open spec fn record_count(s: Seq<char>) -> nat {
    count_records_from(s, false)
}

/// Counts the non-blank lines of a newline-separated text, the number of
/// records a dataset file holds.
pub fn count_jsonl_lines(content: &str) -> (r: usize)
    ensures
        r == record_count(content@),
{
    let n = content.unicode_len();
    let mut acc: usize = 0;
    let mut seen = false;
    let mut i: usize = 0;
    proof {
        assert(content@.skip(0) =~= content@);
    }
    while i < n
        invariant
            i <= n,
            n == content@.len(),
            record_count(content@) == acc + count_records_from(content@.skip(i as int), seen),
            acc + (if seen {
                1int
            } else {
                0int
            }) <= i,
        decreases n - i,
    {
        let ghost rest = content@.skip(i as int);
        let c = content.get_char(i);
        proof {
            assert(rest[0] == content@[i as int]);
            assert(rest.skip(1) =~= content@.skip(i + 1));
        }
        if c == '\n' {
            if seen {
                acc += 1;
            }
            seen = false;
        } else {
            if c == ' ' || c == '\t' || c == '\r' {
            } else {
                seen = true;
            }
        }
        i += 1;
    }
    proof {
        assert(content@.skip(n as int) =~= Seq::<char>::empty());
    }
    if seen {
        acc += 1;
    }
    acc
}

/// The probes that count as version directories: directories holding a
/// training file.
pub open spec fn kept_probes(s: Seq<DirProbe>) -> Seq<DirProbe>
    decreases s.len(),
{
    if s.len() == 0 {
        Seq::empty()
    } else if s.last().is_dir && s.last().has_train {
        kept_probes(s.drop_last()).push(s.last())
    } else {
        kept_probes(s.drop_last())
    }
}

/// Whether `e` is the listing entry derived from probe `p` under `root`.
pub open spec fn made_from(root: Seq<char>, p: DirProbe, e: DatasetVersionInfo) -> bool {
    &&& e.version@ == p.name@
    &&& e.path@ == root + seq!['/'] + p.name@
    &&& e.train_count == p.train_count
    &&& e.valid_count == p.valid_count
    &&& e.train_size == p.train_size
    &&& e.valid_size == p.valid_size
    &&& e.created@ == display_of(p.name@)
}

/// Whether `e` is the synthetic entry for the legacy flat layout under
/// `root`: its identifier is `legacy` and its path is the root itself.
pub open spec fn legacy_made(root: Seq<char>, lp: LegacyProbe, e: DatasetVersionInfo) -> bool {
    &&& e.version@ == "legacy"@
    &&& e.path@ == root
    &&& e.train_count == lp.train_count
    &&& e.valid_count == lp.valid_count
    &&& e.train_size == lp.train_size
    &&& e.valid_size == lp.valid_size
    &&& e.created@ == lp.created@
}

/// Newest first: every later entry's identifier sorts at or below every
/// earlier one's.
pub open spec fn sorted_desc(s: Seq<DatasetVersionInfo>) -> bool {
    forall|i: int, j: int| 0 <= i < j < s.len() ==> lex_le(#[trigger] s[j].version@, #[trigger] s[i].version@)
}

/// Whether `part` holds exactly the entries derived from the probes `ks`, in
/// some order.
pub open spec fn listing_of(root: Seq<char>, ks: Seq<DirProbe>, part: Seq<DatasetVersionInfo>) -> bool {
    exists|pre: Seq<DatasetVersionInfo>|
        pre.len() == ks.len() && (forall|j: int|
            0 <= j < ks.len() ==> made_from(root, ks[j], #[trigger] pre[j])) && part.to_multiset()
            == pre.to_multiset()
}

proof fn lemma_insert_to_multiset(s: Seq<DatasetVersionInfo>, j: int, x: DatasetVersionInfo)
    requires
        0 <= j <= s.len(),
    ensures
        s.insert(j, x).to_multiset() =~= s.to_multiset().insert(x),
{
    broadcast use vstd::seq_lib::group_to_multiset_ensures;

    let t = s.insert(j, x);
    assert(t.remove(j) =~= s);
    assert(t[j] == x);
    assert(t.to_multiset().remove(x) =~= s.to_multiset());
    assert(t.contains(x));
    assert(t.to_multiset().count(x) > 0);
    assert forall|a: DatasetVersionInfo|
        t.to_multiset().count(a) == s.to_multiset().insert(x).count(a) by {
        if a == x {
            assert(t.to_multiset().remove(x).count(a) == t.to_multiset().count(a) - 1);
        } else {
            assert(t.to_multiset().remove(x).count(a) == t.to_multiset().count(a));
        }
    }
}

fn sort_infos_desc(v: &mut Vec<DatasetVersionInfo>)
    ensures
        final(v)@.len() == old(v)@.len(),
        sorted_desc(final(v)@),
        final(v)@.to_multiset() == old(v)@.to_multiset(),
{
    if v.len() <= 1 {
        return ;
    }
    let mut i: usize = 1;
    while i < v.len()
        invariant
            1 <= i <= v@.len(),
            v@.len() == old(v)@.len(),
            v@.to_multiset() == old(v)@.to_multiset(),
            sorted_desc(v@.take(i as int)),
        decreases v@.len() - i,
    {
        let ghost pre = v@;
        let x = v.remove(i);
        proof {
            broadcast use vstd::seq_lib::group_to_multiset_ensures;

            assert(v@ =~= pre.remove(i as int));
            assert(v@.take(i as int) =~= pre.take(i as int));
        }
        let ghost trimmed = v@;
        let mut j: usize = 0;
        let mut found = false;
        while j < i && !found
            invariant
                j <= i,
                i < pre.len(),
                v@ == trimmed,
                trimmed.len() == pre.len() - 1,
                trimmed.take(i as int) == pre.take(i as int),
                sorted_desc(trimmed.take(i as int)),
                found ==> j < i && lex_le(trimmed[j as int].version@, x.version@),
                forall|a: int| 0 <= a < j ==> !lex_le(#[trigger] trimmed[a].version@, x.version@),
            decreases i - j, (if found {
                0int
            } else {
                1int
            }),
        {
            if str_lex_le(v[j].version.as_str(), x.version.as_str()) {
                found = true;
            } else {
                proof {
                    assert(trimmed.take(i as int)[j as int] == trimmed[j as int]);
                }
                j += 1;
            }
        }
        let ghost jj = j as int;
        proof {
            assert(jj == i || lex_le(trimmed[jj].version@, x.version@));
        }
        v.insert(j, x);
        proof {
            lemma_insert_to_multiset(trimmed, jj, x);
            assert(v@.to_multiset() =~= old(v)@.to_multiset()) by {
                broadcast use vstd::seq_lib::group_to_multiset_ensures;

                assert(pre.remove(i as int).to_multiset() =~= pre.to_multiset().remove(
                    pre[i as int],
                ));
                assert(pre.to_multiset().count(pre[i as int]) > 0);
                assert forall|a: DatasetVersionInfo|
                    trimmed.to_multiset().insert(x).count(a) == pre.to_multiset().count(a) by {}
            }
            let merged = v@;
            assert forall|a: int, b: int| 0 <= a < b < i + 1 implies lex_le(
                #[trigger] merged[b].version@,
                #[trigger] merged[a].version@,
            ) by {
                let sp = trimmed.take(i as int);
                assert(forall|k: int|
                    0 <= k < i + 1 ==> merged[k] == if k < jj {
                        sp[k]
                    } else if k == jj {
                        x
                    } else {
                        sp[k - 1]
                    });
                if b < jj {
                    assert(lex_le(sp[b].version@, sp[a].version@));
                } else if b == jj {
                    assert(!lex_le(sp[a].version@, x.version@));
                    lemma_lex_total(sp[a].version@, x.version@);
                } else {
                    if a < jj {
                        if jj < i {
                            assert(lex_le(trimmed[jj].version@, x.version@));
                            if b - 1 > jj {
                                assert(lex_le(sp[b - 1].version@, sp[jj].version@));
                            }
                            assert(lex_le(sp[b - 1].version@, x.version@)) by {
                                if b - 1 > jj {
                                    lemma_lex_trans(
                                        sp[b - 1].version@,
                                        sp[jj].version@,
                                        x.version@,
                                    );
                                }
                            }
                            assert(!lex_le(sp[a].version@, x.version@));
                            lemma_lex_total(sp[a].version@, x.version@);
                            lemma_lex_trans(sp[b - 1].version@, x.version@, sp[a].version@);
                        }
                    } else if a == jj {
                        assert(jj < i);
                        assert(lex_le(trimmed[jj].version@, x.version@));
                        if b - 1 > jj {
                            assert(lex_le(sp[b - 1].version@, sp[jj].version@));
                            lemma_lex_trans(sp[b - 1].version@, sp[jj].version@, x.version@);
                        }
                    } else {
                        assert(lex_le(sp[b - 1].version@, sp[a - 1].version@));
                    }
                }
            }
            assert(sorted_desc(merged.take(i + 1)));
        }
        i += 1;
    }
    proof {
        assert(v@.take(v@.len() as int) =~= v@);
    }
}

/// Builds the version listing: one entry per directory probe holding a
/// training file, sorted newest first, and the legacy flat layout, when
/// present, appended after every timestamped entry as the implicit oldest
/// one. A root with no matching entries and no legacy files yields an empty
/// listing.
pub fn list_dataset_versions(
    root_path: &str,
    probes: Vec<DirProbe>,
    legacy: Option<LegacyProbe>,
) -> (r: Vec<DatasetVersionInfo>)
    ensures
        ({
            let ks = kept_probes(probes@);
            let nk = ks.len() as int;
            &&& r@.len() == nk + (match legacy {
                Some(_) => 1int,
                None => 0int,
            })
            &&& sorted_desc(r@.take(nk))
            &&& listing_of(root_path@, ks, r@.take(nk))
            &&& (match legacy {
                Some(lp) => legacy_made(root_path@, lp, r@[r@.len() - 1]),
                None => true,
            })
        }),
{
    let mut infos: Vec<DatasetVersionInfo> = Vec::new();
    let mut i: usize = 0;
    while i < probes.len()
        invariant
            i <= probes@.len(),
            infos@.len() == kept_probes(probes@.take(i as int)).len(),
            forall|j: int|
                0 <= j < infos@.len() ==> made_from(
                    root_path@,
                    kept_probes(probes@.take(i as int))[j],
                    #[trigger] infos@[j],
                ),
        decreases probes@.len() - i,
    {
        let p = &probes[i];
        proof {
            assert(probes@.take(i + 1).drop_last() =~= probes@.take(i as int));
            assert(probes@.take(i + 1).last() == probes@[i as int]);
        }
        if p.is_dir && p.has_train {
            let entry = DatasetVersionInfo {
                version: p.name.clone(),
                path: join_path(root_path, p.name.as_str()),
                train_count: p.train_count,
                valid_count: p.valid_count,
                train_size: p.train_size,
                valid_size: p.valid_size,
                created: parse_timestamp_display(p.name.as_str()),
            };
            infos.push(entry);
        }
        i += 1;
    }
    proof {
        assert(probes@.take(probes@.len() as int) =~= probes@);
    }
    let ghost built = infos@;
    sort_infos_desc(&mut infos);
    proof {
        let ks = kept_probes(probes@);
        assert(infos@.take(ks.len() as int) =~= infos@);
        assert(listing_of(root_path@, ks, infos@)) by {
            assert(built.len() == ks.len() && (forall|j: int|
                0 <= j < ks.len() ==> made_from(root_path@, ks[j], #[trigger] built[j]))
                && infos@.to_multiset() == built.to_multiset());
        }
    }
    match legacy {
        Some(lp) => {
            let ghost sorted_part = infos@;
            let entry = DatasetVersionInfo {
                version: String::from_str("legacy"),
                path: String::from_str(root_path),
                train_count: lp.train_count,
                valid_count: lp.valid_count,
                train_size: lp.train_size,
                valid_size: lp.valid_size,
                created: lp.created,
            };
            infos.push(entry);
            proof {
                let nk = kept_probes(probes@).len() as int;
                assert(infos@.take(nk) =~= sorted_part);
            }
            infos
        },
        None => infos,
    }
}

/// Whether a probe counts as a version directory.
pub open spec fn is_version_probe(p: DirProbe) -> bool {
    p.is_dir && p.has_train
}

/// The name of the newest version directory among the probes: the largest
/// identifier, since the identifier format is fixed-width and monotonic.
/// Nothing when no probe is a version directory.
pub fn latest_version_name(probes: &Vec<DirProbe>) -> (r: Option<String>)
    ensures
        (match r {
            Some(n) => (exists|i: int|
                0 <= i < probes@.len() && is_version_probe(#[trigger] probes@[i])
                    && probes@[i].name@ == n@) && (forall|i: int|
                0 <= i < probes@.len() && is_version_probe(#[trigger] probes@[i]) ==> lex_le(
                    probes@[i].name@,
                    n@,
                )),
            None => forall|i: int| 0 <= i < probes@.len() ==> !is_version_probe(#[trigger] probes@[i]),
        }),
{
    let mut best: Option<String> = None;
    let mut i: usize = 0;
    while i < probes.len()
        invariant
            i <= probes@.len(),
            (match best {
                Some(n) => (exists|j: int|
                    0 <= j < i && is_version_probe(#[trigger] probes@[j]) && probes@[j].name@
                        == n@) && (forall|j: int|
                    0 <= j < i && is_version_probe(#[trigger] probes@[j]) ==> lex_le(
                        probes@[j].name@,
                        n@,
                    )),
                None => forall|j: int| 0 <= j < i ==> !is_version_probe(#[trigger] probes@[j]),
            }),
        decreases probes@.len() - i,
    {
        let p = &probes[i];
        if p.is_dir && p.has_train {
            let better = match &best {
                None => true,
                Some(b) => str_lex_le(b.as_str(), p.name.as_str()),
            };
            if better {
                proof {
                    crate::strings::lemma_lex_refl(probes@[i as int].name@);
                    if best is Some {
                        let b0 = best->0;
                        assert forall|j: int|
                            0 <= j < i + 1 && is_version_probe(#[trigger] probes@[j]) implies lex_le(
                            probes@[j].name@,
                            probes@[i as int].name@,
                        ) by {
                            if j < i {
                                crate::strings::lemma_lex_trans(
                                    probes@[j].name@,
                                    b0@,
                                    probes@[i as int].name@,
                                );
                            }
                        }
                    }
                }
                best = Some(p.name.clone());
            } else {
                proof {
                    let b0 = best->0;
                    crate::strings::lemma_lex_total(b0@, probes@[i as int].name@);
                }
            }
        }
        i += 1;
    }
    best
}

} // verus!
