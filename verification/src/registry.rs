//! The process table: the in-memory image of the registry directory, which
//! maps each profile identifier to the process id of its watcher. One file
//! per profile holds the textual process id; here a table of records models
//! that directory, and the record file names and contents are parsed and
//! rendered by verified functions.

use vstd::prelude::*;
use vstd::string::*;
use crate::text::{parse_pid, spec_parse_pid, str_eq};

verus! {

/// One persisted association between a profile identifier and its record
/// content: the process id of its watcher, or nothing when the stored text
/// does not parse as one. A record whose content is malformed is still a
/// record — presence of the file, not readability, says "running".
pub struct Record {
    pub name: String,
    pub pid: Option<u32>,
}

/// The registry: at most one record per profile identifier.
pub struct ProcessTable {
    records: Vec<Record>,
}

/// The map a sequence of records stands for; a later record with the same
/// name would win, but a well-formed table holds no duplicates. A key bound
/// to `None` is a present record with malformed content.
pub open spec fn table_map(s: Seq<Record>) -> Map<Seq<char>, Option<u32>>
    decreases s.len(),
{
    if s.len() == 0 {
        Map::empty()
    } else {
        table_map(s.drop_last()).insert(s.last().name@, s.last().pid)
    }
}

/// No two records share a profile identifier.
pub open spec fn distinct_names(s: Seq<Record>) -> bool {
    forall|i: int, j: int| 0 <= i < j < s.len() ==> s[i].name@ != s[j].name@
}

impl View for ProcessTable {
    type V = Map<Seq<char>, Option<u32>>;

    closed spec fn view(&self) -> Map<Seq<char>, Option<u32>> {
        table_map(self.records@)
    }
}

/// Why a stored process id could not be handed back: the record is absent,
/// or it is present but its content does not parse as a process id. The two
/// stay distinct, as a present-but-corrupt record must not pass for a
/// stopped watcher.
#[derive(Clone, Copy, PartialEq, Eq, Structural, Debug)]
pub enum ReadError {
    NotFound,
    Malformed,
}

proof fn lemma_table_contains(s: Seq<Record>, n: Seq<char>)
    ensures
        table_map(s).contains_key(n) <==> (exists|i: int| 0 <= i < s.len() && s[i].name@ == n),
    decreases s.len(),
{
    if s.len() > 0 {
        let s1 = s.drop_last();
        lemma_table_contains(s1, n);
        if n == s.last().name@ {
            assert(s[s.len() - 1].name@ == n);
        } else {
            if exists|i: int| 0 <= i < s1.len() && s1[i].name@ == n {
                let i = choose|i: int| 0 <= i < s1.len() && s1[i].name@ == n;
                assert(s[i].name@ == n);
            }
            if exists|i: int| 0 <= i < s.len() && s[i].name@ == n {
                let i = choose|i: int| 0 <= i < s.len() && s[i].name@ == n;
                assert(i < s.len() - 1);
                assert(s1[i].name@ == n);
            }
        }
    }
}

proof fn lemma_table_value(s: Seq<Record>, i: int)
    requires
        distinct_names(s),
        0 <= i < s.len(),
    ensures
        table_map(s).contains_key(s[i].name@),
        table_map(s)[s[i].name@] == s[i].pid,
    decreases s.len(),
{
    let s1 = s.drop_last();
    if i < s.len() - 1 {
        assert(distinct_names(s1));
        lemma_table_value(s1, i);
        assert(s[i].name@ != s.last().name@);
    }
}

proof fn lemma_table_remove(s: Seq<Record>, i: int)
    requires
        distinct_names(s),
        0 <= i < s.len(),
    ensures
        table_map(s.remove(i)) == table_map(s).remove(s[i].name@),
    decreases s.len(),
{
    let n = s[i].name@;
    if i == s.len() - 1 {
        assert(s.remove(i) =~= s.drop_last());
        lemma_table_contains(s.drop_last(), n);
        assert(!table_map(s.drop_last()).contains_key(n));
        assert(table_map(s).remove(n) =~= table_map(s.drop_last()));
    } else {
        let s1 = s.drop_last();
        assert(distinct_names(s1));
        lemma_table_remove(s1, i);
        assert(s.remove(i).drop_last() =~= s1.remove(i));
        assert(s.remove(i).last() == s.last());
        assert(s.last().name@ != n);
        assert(table_map(s.remove(i)) =~= table_map(s).remove(n));
    }
}

impl ProcessTable {
    /// No two records share a profile identifier.
    pub closed spec fn wf(&self) -> bool {
        distinct_names(self.records@)
    }

    /// An empty table.
    pub fn new() -> (t: ProcessTable)
        ensures
            t.wf(),
            t@ == Map::<Seq<char>, Option<u32>>::empty(),
    {
        ProcessTable { records: Vec::new() }
    }

    /// True iff a record for the profile is present.
    pub fn contains(&self, name: &str) -> (r: bool)
        requires
            self.wf(),
        ensures
            r == self@.contains_key(name@),
    {
        let n = self.records.len();
        let mut i: usize = 0;
        while i < n
            invariant
                self.wf(),
                n == self.records@.len(),
                i <= n,
                forall|j: int| 0 <= j < i ==> self.records@[j].name@ != name@,
            decreases n - i,
        {
            if str_eq(self.records[i].name.as_str(), name) {
                proof {
                    lemma_table_value(self.records@, i as int);
                }
                return true;
            }
            i = i + 1;
        }
        proof {
            lemma_table_contains(self.records@, name@);
        }
        false
    }

    /// Adds a record with the given content; the caller has confirmed that
    /// none is present.
    fn put(&mut self, name: &str, value: Option<u32>)
        requires
            old(self).wf(),
            !old(self)@.contains_key(name@),
        ensures
            final(self).wf(),
            final(self)@ == old(self)@.insert(name@, value),
    {
        proof {
            lemma_table_contains(self.records@, name@);
        }
        let record = Record { name: name.to_owned(), pid: value };
        self.records.push(record);
        proof {
            assert(self.records@.drop_last() =~= old(self).records@);
        }
    }

    /// Records the process id of a freshly spawned watcher. The caller must
    /// have confirmed that no record is present; this is not an atomic
    /// test-and-set.
    pub fn create(&mut self, name: &str, pid: u32)
        requires
            old(self).wf(),
            !old(self)@.contains_key(name@),
        ensures
            final(self).wf(),
            final(self)@ == old(self)@.insert(name@, Some(pid)),
    {
        self.put(name, Some(pid));
    }

    /// The process id stored for the profile: absence and a present record
    /// with unreadable content are reported as distinct failures.
    pub fn read(&self, name: &str) -> (r: Result<u32, ReadError>)
        requires
            self.wf(),
        ensures
            !self@.contains_key(name@) ==> r == Err::<u32, ReadError>(ReadError::NotFound),
            self@.contains_key(name@) ==> r == match self@[name@] {
                Some(pid) => Ok::<u32, ReadError>(pid),
                None => Err::<u32, ReadError>(ReadError::Malformed),
            },
    {
        let n = self.records.len();
        let mut i: usize = 0;
        while i < n
            invariant
                self.wf(),
                n == self.records@.len(),
                i <= n,
                forall|j: int| 0 <= j < i ==> self.records@[j].name@ != name@,
            decreases n - i,
        {
            if str_eq(self.records[i].name.as_str(), name) {
                proof {
                    lemma_table_value(self.records@, i as int);
                }
                return match self.records[i].pid {
                    Some(pid) => Ok(pid),
                    None => Err(ReadError::Malformed),
                };
            }
            i = i + 1;
        }
        proof {
            lemma_table_contains(self.records@, name@);
        }
        Err(ReadError::NotFound)
    }

    /// Deletes the record for the profile; reports whether one was present,
    /// so that absence stays distinguishable for the caller.
    pub fn remove(&mut self, name: &str) -> (r: bool)
        requires
            old(self).wf(),
        ensures
            final(self).wf(),
            final(self)@ == old(self)@.remove(name@),
            r == old(self)@.contains_key(name@),
    {
        let n = self.records.len();
        let mut i: usize = 0;
        while i < n
            invariant
                self.wf(),
                self@ == old(self)@,
                self.records@ == old(self).records@,
                n == self.records@.len(),
                i <= n,
                forall|j: int| 0 <= j < i ==> self.records@[j].name@ != name@,
            decreases n - i,
        {
            if str_eq(self.records[i].name.as_str(), name) {
                proof {
                    lemma_table_value(self.records@, i as int);
                    lemma_table_remove(self.records@, i as int);
                }
                let ghost s = self.records@;
                self.records.remove(i);
                proof {
                    assert(self.records@ =~= s.remove(i as int));
                    assert forall|p: int, q: int|
                        0 <= p < q < self.records@.len() implies self.records@[p].name@
                        != self.records@[q].name@ by {
                        let pp = if p < i { p } else { p + 1 };
                        let qq = if q < i { q } else { q + 1 };
                        assert(self.records@[p] == s[pp]);
                        assert(self.records@[q] == s[qq]);
                    }
                }
                return true;
            }
            i = i + 1;
        }
        proof {
            lemma_table_contains(self.records@, name@);
            assert(self@.remove(name@) =~= self@);
        }
        false
    }

    /// The profile identifiers with an extant record: exactly the domain of
    /// the table, each exactly once, in no promised order.
    pub fn list(&self) -> (r: Vec<String>)
        requires
            self.wf(),
        ensures
            forall|k: int| 0 <= k < r@.len() ==> self@.contains_key(#[trigger] r@[k]@),
            forall|n: Seq<char>|
                self@.contains_key(n) ==> exists|k: int| 0 <= k < r@.len() && #[trigger] r@[k]@ == n,
            forall|k1: int, k2: int| 0 <= k1 < k2 < r@.len() ==> r@[k1]@ != r@[k2]@,
    {
        let n = self.records.len();
        let mut out: Vec<String> = Vec::new();
        let mut i: usize = 0;
        while i < n
            invariant
                self.wf(),
                n == self.records@.len(),
                i <= n,
                out@.len() == i,
                forall|k: int| 0 <= k < i ==> #[trigger] out@[k]@ == self.records@[k].name@,
            decreases n - i,
        {
            out.push(self.records[i].name.clone());
            i = i + 1;
        }
        proof {
            assert forall|k: int| 0 <= k < out@.len() implies self@.contains_key(
                #[trigger] out@[k]@,
            ) by {
                lemma_table_value(self.records@, k);
            }
            assert forall|nm: Seq<char>| self@.contains_key(nm) implies exists|k: int|
                0 <= k < out@.len() && #[trigger] out@[k]@ == nm by {
                lemma_table_contains(self.records@, nm);
                let k = choose|k: int| 0 <= k < self.records@.len() && self.records@[k].name@ == nm;
                assert(out@[k]@ == nm);
            }
        }
        out
    }
}

/// The fixed suffix of a record file name.
pub open spec fn record_suffix() -> Seq<char> {
    seq!['.', 'p', 'i', 'd']
}

/// The file name a profile's record is stored under.
pub fn record_file_name(name: &str) -> (r: String)
    ensures
        r@ == name@ + record_suffix(),
{
    let mut s = name.to_owned();
    s.append(".pid");
    proof {
        reveal_strlit(".pid");
        assert(".pid"@ =~= record_suffix());
    }
    s
}

/// The profile identifier a file name stands for: the stem before the fixed
/// suffix, or nothing when the suffix is missing.
pub open spec fn spec_record_profile(fname: Seq<char>) -> Option<Seq<char>> {
    if fname.len() >= 4 && fname.subrange(fname.len() - 4, fname.len() as int)
        == record_suffix() {
        Some(fname.subrange(0, fname.len() - 4))
    } else {
        None
    }
}

/// Recovers the profile identifier from a record file name.
pub fn profile_from_file_name(fname: &str) -> (r: Option<String>)
    ensures
        r.deep_view() == spec_record_profile(fname@),
{
    let len = fname.unicode_len();
    if len < 4 {
        return None;
    }
    let c0 = fname.get_char(len - 4);
    let c1 = fname.get_char(len - 3);
    let c2 = fname.get_char(len - 2);
    let c3 = fname.get_char(len - 1);
    if c0 == '.' && c1 == 'p' && c2 == 'i' && c3 == 'd' {
        let stem = fname.substring_char(0, len - 4).to_owned();
        proof {
            assert(fname@.subrange(len - 4, len as int) =~= record_suffix());
        }
        Some(stem)
    } else {
        proof {
            assert(fname@.subrange(len - 4, len as int) != record_suffix());
        }
        None
    }
}

/// One file of the registry directory: its name and its textual content.
pub struct RecordFile {
    pub file_name: String,
    pub contents: String,
}

/// The table that a directory listing stands for: each file whose name
/// carries the record suffix contributes a record — bound to its process id
/// when the content parses, and marked malformed when it does not, so that
/// a corrupt record never passes for an absent one. On a duplicate
/// identifier the earlier file wins.
pub open spec fn spec_load(entries: Seq<RecordFile>) -> Map<Seq<char>, Option<u32>>
    decreases entries.len(),
{
    if entries.len() == 0 {
        Map::empty()
    } else {
        let m = spec_load(entries.drop_last());
        let e = entries.last();
        match spec_record_profile(e.file_name@) {
            Some(nm) => if !m.contains_key(nm) {
                m.insert(nm, spec_parse_pid(e.contents@))
            } else {
                m
            },
            None => m,
        }
    }
}

impl ProcessTable {
    /// Builds the table from a directory listing.
    pub fn from_entries(entries: &Vec<RecordFile>) -> (t: ProcessTable)
        ensures
            t.wf(),
            t@ == spec_load(entries@),
    {
        let mut t = ProcessTable::new();
        let n = entries.len();
        let mut i: usize = 0;
        while i < n
            invariant
                t.wf(),
                n == entries@.len(),
                i <= n,
                t@ == spec_load(entries@.subrange(0, i as int)),
            decreases n - i,
        {
            if let Some(nm) = profile_from_file_name(entries[i].file_name.as_str()) {
                if !t.contains(nm.as_str()) {
                    let pid = parse_pid(entries[i].contents.as_str());
                    t.put(nm.as_str(), pid);
                }
            }
            proof {
                assert(entries@.subrange(0, i + 1).drop_last() =~= entries@.subrange(0, i as int));
                assert(entries@.subrange(0, i + 1).last() == entries@[i as int]);
            }
            i = i + 1;
        }
        proof {
            assert(entries@.subrange(0, n as int) =~= entries@);
        }
        t
    }
}

/// The round trip of a record file name: the name that `record_file_name`
/// builds for a profile resolves back to exactly that profile.
pub proof fn lemma_record_file_name_round_trip(name: Seq<char>)
    ensures
        spec_record_profile(name + record_suffix()) == Some(name),
{
    let f = name + record_suffix();
    assert(f.subrange(f.len() - 4, f.len() as int) =~= record_suffix());
    assert(f.subrange(0, f.len() - 4) =~= name);
}

/// The set of profiles a directory listing loads does not depend on the
/// order the directory was enumerated in: a profile is loaded exactly when
/// some file of the listing carries its name under the record suffix —
/// whether or not the file's content parses.
pub proof fn lemma_load_domain(entries: Seq<RecordFile>, n: Seq<char>)
    ensures
        spec_load(entries).contains_key(n) <==> exists|i: int|
            0 <= i < entries.len() && spec_record_profile(#[trigger] entries[i].file_name@)
                == Some(n),
    decreases entries.len(),
{
    if entries.len() > 0 {
        let s1 = entries.drop_last();
        let e = entries.last();
        lemma_load_domain(s1, n);
        if spec_record_profile(e.file_name@) == Some(n) {
            assert(spec_load(entries).contains_key(n));
            assert(spec_record_profile(entries[entries.len() - 1].file_name@) == Some(n));
        } else {
            assert(spec_load(entries).contains_key(n) == spec_load(s1).contains_key(n));
            if exists|i: int|
                0 <= i < s1.len() && spec_record_profile(#[trigger] s1[i].file_name@) == Some(n) {
                let i = choose|i: int|
                    0 <= i < s1.len() && spec_record_profile(#[trigger] s1[i].file_name@) == Some(
                        n,
                    );
                assert(spec_record_profile(entries[i].file_name@) == Some(n));
            }
            if exists|i: int|
                0 <= i < entries.len() && spec_record_profile(#[trigger] entries[i].file_name@)
                    == Some(n) {
                let i = choose|i: int|
                    0 <= i < entries.len() && spec_record_profile(
                        #[trigger] entries[i].file_name@,
                    ) == Some(n);
                assert(i < entries.len() - 1);
                assert(spec_record_profile(s1[i].file_name@) == Some(n));
            }
        }
    }
}

/// The record law: once `create(p, pid)` has succeeded, the profile is
/// present with that id, and stays so under operations on other profiles,
/// until `remove(p)`, after which it is absent.
pub proof fn lemma_record_lifecycle(m: Map<Seq<char>, Option<u32>>, p: Seq<char>, pid: u32)
    ensures
        m.insert(p, Some(pid)).contains_key(p),
        m.insert(p, Some(pid))[p] == Some(pid),
        !m.insert(p, Some(pid)).remove(p).contains_key(p),
        forall|q: Seq<char>, qpid: Option<u32>|
            q != p ==> (#[trigger] m.insert(p, Some(pid)).insert(q, qpid)).contains_key(p)
                && m.insert(p, Some(pid)).insert(q, qpid)[p] == Some(pid),
        forall|q: Seq<char>|
            q != p ==> (#[trigger] m.insert(p, Some(pid)).remove(q)).contains_key(p) && m.insert(
                p,
                Some(pid),
            ).remove(q)[p] == Some(pid),
{
}

} // verus!
