//! Which process started which.
//!
//! The table is filled by the start of programs. A process that ran before
//! tracing began is looked up in `/proc` when it is first asked for.

use std::collections::HashMap;

use vstd::prelude::*;

use crate::text;
use crate::text::{chars_of, parse_u32, trim, trim_bounds};

verus! {

broadcast use vstd::std_specs::hash::group_hash_axioms;

struct PidInfo {
    ppid: u32,
    comm: String,
    cgroup_id: u64,
    last_seen_ns: u64,
}

/// What is known of a process.
#[verifier::ext_equal]
pub ghost struct PidEntry {
    pub ppid: u32,
    pub comm: Seq<char>,
    pub cgroup_id: u64,
    pub last_seen_ns: u64,
}

spec fn entry_of(info: PidInfo) -> PidEntry {
    PidEntry {
        ppid: info.ppid,
        comm: info.comm@,
        cgroup_id: info.cgroup_id,
        last_seen_ns: info.last_seen_ns,
    }
}

/// What stands before the first line feed.
pub open spec fn first_line(s: Seq<char>) -> Seq<char>
    decreases s.len(),
{
    if s.len() == 0 || s[0] == '\n' {
        Seq::empty()
    } else {
        seq![s[0]] + first_line(s.skip(1))
    }
}

/// The parent process that a status text names: the number behind `PPid:` on
/// the first line that begins so, and 0 where there is no such line or no
/// number on it.
pub open spec fn status_ppid(s: Seq<char>) -> u32
    decreases s.len(),
    via status_ppid_decreases
{
    let line = first_line(s);
    if text::starts_with(line, seq!['P', 'P', 'i', 'd', ':']) {
        match text::u32_value(text::trimmed(line.skip(5))) {
            Some(n) => n,
            None => 0,
        }
    } else if line.len() >= s.len() {
        0
    } else {
        status_ppid(s.skip(line.len() as int + 1))
    }
}

#[via_fn]
proof fn status_ppid_decreases(s: Seq<char>) {
}

proof fn lemma_first_line(s: Seq<char>, n: int)
    requires
        0 <= n <= s.len(),
        forall|i: int| 0 <= i < n ==> s[i] != '\n',
        n == s.len() || s[n] == '\n',
    ensures
        first_line(s) == s.take(n),
    decreases s.len(),
{
    if n > 0 {
        lemma_first_line(s.skip(1), n - 1);
        assert(seq![s[0]] + s.skip(1).take(n - 1) =~= s.take(n));
    } else {
        assert(s.take(0) =~= Seq::empty());
    }
}

/// Reads the parent process out of a status text.
pub fn parse_status_ppid(content: &str) -> (r: u32)
    ensures
        r == status_ppid(content@),
{
    let v = chars_of(content);
    let mut from: usize = 0;
    assert(v@.skip(0) =~= v@);
    loop
        invariant
            v@ == content@,
            from <= v@.len(),
            status_ppid(v@.skip(from as int)) == status_ppid(content@),
        decreases v@.len() - from,
    {
        let mut to: usize = from;
        while to < v.len() && v[to] != '\n'
            invariant
                from <= to <= v@.len(),
                forall|i: int| from <= i < to ==> v@[i] != '\n',
            decreases v@.len() - to,
        {
            to = to + 1;
        }
        let ghost s = v@.skip(from as int);
        let ghost line = first_line(s);
        proof {
            lemma_first_line(s, to - from);
            assert(line =~= v@.subrange(from as int, to as int));
        }
        let named: bool = to - from >= 5 && v[from] == 'P' && v[from + 1] == 'P' && v[from + 2]
            == 'i' && v[from + 3] == 'd' && v[from + 4] == ':';
        proof {
            let p = seq!['P', 'P', 'i', 'd', ':'];
            if named {
                assert(line.take(5) =~= p);
            }
            if text::starts_with(line, p) {
                assert(line.take(5)[0] == p[0]);
                assert(line.take(5)[1] == p[1]);
                assert(line.take(5)[2] == p[2]);
                assert(line.take(5)[3] == p[3]);
                assert(line.take(5)[4] == p[4]);
            }
            assert(named == text::starts_with(line, p));
        }
        if named {
            let (a, b) = trim_bounds(&v, from + 5, to);
            assert(line.skip(5) =~= v@.subrange(from + 5, to as int));
            return match parse_u32(&v, a, b) {
                Some(n) => n,
                None => 0,
            };
        }
        if to == v.len() {
            return 0;
        }
        assert(s.skip(line.len() as int + 1) =~= v@.skip(to + 1));
        from = to + 1;
    }
}

/// Parent processes by process number.
pub struct PidTable {
    table: HashMap<u32, PidInfo>,
}

impl View for PidTable {
    type V = Map<u32, PidEntry>;

    closed spec fn view(&self) -> Map<u32, PidEntry> {
        self.table@.map_values(|info: PidInfo| entry_of(info))
    }
}

/// The text of a file that may be missing: nothing where it is.
pub open spec fn text_or_empty(o: Option<&str>) -> Seq<char> {
    match o {
        Some(s) => s@,
        None => Seq::empty(),
    }
}

/// The parent that is found for a process: what the table holds, else what the
/// status text says.
pub open spec fn found(m: Map<u32, PidEntry>, pid: u32, status: Seq<char>) -> u32 {
    if m.contains_key(pid) {
        m[pid].ppid
    } else {
        status_ppid(status)
    }
}

/// The table after a lookup: a parent that was read is remembered, unless it
/// is 0.
pub open spec fn remembered(
    m: Map<u32, PidEntry>,
    pid: u32,
    status: Seq<char>,
    comm: Seq<char>,
) -> Map<u32, PidEntry> {
    if m.contains_key(pid) || status_ppid(status) == 0 {
        m
    } else {
        m.insert(
            pid,
            PidEntry {
                ppid: status_ppid(status),
                comm: text::trimmed(comm),
                cgroup_id: 0,
                last_seen_ns: 0,
            },
        )
    }
}

impl PidTable {
    /// An empty table.
    pub fn new() -> (r: Self)
        ensures
            r@ == Map::<u32, PidEntry>::empty(),
    {
        let r = PidTable { table: HashMap::new() };
        assert(r@ =~= Map::empty());
        r
    }

    /// Takes in the start of a program.
    pub fn update_from_exec(
        &mut self,
        pid: u32,
        ppid: u32,
        comm: &str,
        cgroup_id: u64,
        timestamp_ns: u64,
    )
        ensures
            final(self)@ == old(self)@.insert(
                pid,
                PidEntry { ppid, comm: comm@, cgroup_id, last_seen_ns: timestamp_ns },
            ),
    {
        let info = PidInfo { ppid, comm: comm.to_owned(), cgroup_id, last_seen_ns: timestamp_ns };
        self.table.insert(pid, info);
        assert(self@ =~= old(self)@.insert(pid, entry_of(info)));
    }

    /// The parent that the table holds; `None` where the process has to be
    /// looked up in `/proc`.
    pub fn cached_ppid(&self, pid: u32) -> (r: Option<u32>)
        ensures
            r == (if self@.contains_key(pid) {
                Some(self@[pid].ppid)
            } else {
                None
            }),
    {
        match self.table.get(&pid) {
            Some(info) => Some(info.ppid),
            None => None,
        }
    }

    /// The parent of a process, or 0. Where the table does not hold it, it is
    /// read out of `status` and, unless it is 0, remembered with the name in
    /// `comm`: these are the texts of the process's files in `/proc`, `None`
    /// where they could not be read.
    pub fn lookup_ppid(&mut self, pid: u32, status: Option<&str>, comm: Option<&str>) -> (r: u32)
        ensures
            r == found(old(self)@, pid, text_or_empty(status)),
            final(self)@ == remembered(
                old(self)@,
                pid,
                text_or_empty(status),
                text_or_empty(comm),
            ),
            old(self)@.contains_key(pid) ==> r == old(self)@[pid].ppid && final(self)@ == old(
                self,
            )@,
            !old(self)@.contains_key(pid) ==> {
                &&& status is Some ==> r == status_ppid(status->Some_0@)
                &&& status is None ==> r == 0
                &&& final(self)@.contains_key(pid) <==> r != 0
                &&& final(self)@.contains_key(pid) ==> {
                    &&& final(self)@[pid].ppid == r
                    &&& final(self)@[pid].comm == text::trimmed(text_or_empty(comm))
                    &&& final(self)@[pid].cgroup_id == 0
                    &&& final(self)@[pid].last_seen_ns == 0
                }
            },
            forall|other: u32| #[trigger]
                final(self)@.contains_key(other) && other != pid ==> old(self)@.contains_key(other)
                    && final(self)@[other] == old(self)@[other],
            forall|other: u32| #[trigger]
                old(self)@.contains_key(other) ==> {
                    &&& final(self)@.contains_key(other)
                    &&& final(self)@[other] == old(self)@[other]
                },
    {
        match self.cached_ppid(pid) {
            Some(ppid) => {
                return ppid;
            },
            None => {},
        }
        let ppid: u32 = match status {
            Some(s) => parse_status_ppid(s),
            None => 0,
        };
        if ppid != 0 {
            let name = match comm {
                Some(s) => trim(s),
                None => String::new(),
            };
            let info = PidInfo { ppid, comm: name, cgroup_id: 0, last_seen_ns: 0 };
            self.table.insert(pid, info);
            assert(self@ =~= old(self)@.insert(pid, entry_of(info)));
        }
        ppid
    }

    /// Forgets the processes that were last seen before `cutoff_ns`.
    pub fn gc_stale(&mut self, cutoff_ns: u64)
        ensures
            forall|pid: u32| #[trigger]
                final(self)@.contains_key(pid) <==> old(self)@.contains_key(pid) && old(
                    self,
                )@[pid].last_seen_ns >= cutoff_ns,
            forall|pid: u32| #[trigger]
                final(self)@.contains_key(pid) ==> final(self)@[pid] == old(self)@[pid],
    {
        let ghost before = self.table@;
        let mut pids: Vec<u32> = Vec::new();
        for pid in it: self.table.keys()
            invariant
                self.table@ == before,
                pids@.len() == it.index(),
                forall|i: int| 0 <= i < pids@.len() ==> pids@[i] == *it.seq()[i],
                it.seq().unref().to_set() == before.dom(),
                it.index() == it.seq().len() ==> pids@ =~= it.seq().unref(),
        {
            pids.push(*pid);
        }
        assert(pids@.to_set() == before.dom());
        let mut i: usize = 0;
        while i < pids.len()
            invariant
                i <= pids@.len(),
                pids@.to_set() == before.dom(),
                forall|p: u32| #[trigger]
                    self.table@.contains_key(p) ==> before.contains_key(p) && self.table@[p]
                        == before[p],
                forall|p: u32| #[trigger]
                    before.contains_key(p) && before[p].last_seen_ns >= cutoff_ns
                        ==> self.table@.contains_key(p),
                forall|j: int|
                    0 <= j < i && before[#[trigger] pids@[j]].last_seen_ns < cutoff_ns
                        ==> !self.table@.contains_key(pids@[j]),
            decreases pids@.len() - i,
        {
            let pid: u32 = pids[i];
            assert(pids@.to_set().contains(pid));
            let stale: bool = match self.table.get(&pid) {
                Some(info) => info.last_seen_ns < cutoff_ns,
                None => false,
            };
            if stale {
                let _gone = self.table.remove(&pid);
            }
            i = i + 1;
        }
        proof {
            assert forall|p: u32| #[trigger] self.table@.contains_key(p)
                implies before[p].last_seen_ns
                >= cutoff_ns by {
                assert(pids@.to_set().contains(p));
                let j = choose|j: int| 0 <= j < pids@.len() && pids@[j] == p;
                assert(before[pids@[j]].last_seen_ns >= cutoff_ns);
            }
        }
    }
}

/// What a lookup found is what the next lookup finds, whatever `/proc` says by
/// then.
pub proof fn lookup_is_stable(
    m: Map<u32, PidEntry>,
    pid: u32,
    status: Seq<char>,
    comm: Seq<char>,
    later: Seq<char>,
)
    requires
        found(m, pid, status) != 0,
    ensures
        found(remembered(m, pid, status, comm), pid, later) == found(m, pid, status),
{
}

/// A lookup for one process changes nothing for another.
pub proof fn lookup_leaves_others(
    m: Map<u32, PidEntry>,
    pid: u32,
    status: Seq<char>,
    comm: Seq<char>,
    other: u32,
    later: Seq<char>,
)
    requires
        other != pid,
    ensures
        found(remembered(m, pid, status, comm), other, later) == found(m, other, later),
{
}

/// After the start of a program its parent is what the start said.
pub proof fn start_is_found(m: Map<u32, PidEntry>, pid: u32, e: PidEntry, status: Seq<char>)
    ensures
        found(m.insert(pid, e), pid, status) == e.ppid,
{
}

/// A line that does not begin with the name of the entry is passed over.
pub proof fn other_lines_are_passed_over(line: Seq<char>, rest: Seq<char>)
    requires
        !line.contains('\n'),
        !text::starts_with(line, "PPid:"@),
    ensures
        status_ppid(line) == 0,
        status_ppid(line + "\n"@ + rest) == status_ppid(rest),
{
    reveal_strlit("PPid:");
    reveal_strlit("\n");
    assert("PPid:"@ =~= seq!['P', 'P', 'i', 'd', ':']);
    assert forall|i: int| 0 <= i < line.len() implies line[i] != '\n' by {
        assert(line.contains(line[i]));
    }
    lemma_first_line(line, line.len() as int);
    assert(line.take(line.len() as int) =~= line);
    let s = line + "\n"@ + rest;
    assert forall|i: int| 0 <= i < line.len() implies s[i] != '\n' by {
        assert(s[i] == line[i]);
    }
    lemma_first_line(s, line.len() as int);
    assert(s.take(line.len() as int) =~= line);
    assert(s.skip(line.len() as int + 1) =~= rest);
}

/// The number behind the name of the entry is the parent, whatever blanks stand
/// around it and whatever lines follow.
pub proof fn parent_is_read(before: Seq<char>, n: u32, after: Seq<char>, rest: Seq<char>)
    requires
        forall|i: int|
            0 <= i < before.len() ==> #[trigger] before[i] == ' ' || before[i] == '\t',
        forall|i: int| 0 <= i < after.len() ==> #[trigger] after[i] == ' ' || after[i] == '\t',
    ensures
        status_ppid("PPid:"@ + before + text::decimal(n as nat) + after) == n,
        status_ppid("PPid:"@ + before + text::decimal(n as nat) + after + "\n"@ + rest) == n,
{
    reveal_strlit("PPid:");
    reveal_strlit("\n");
    let number = text::decimal(n as nat);
    let head = seq!['P', 'P', 'i', 'd', ':'];
    assert("PPid:"@ =~= head);
    text::decimal_reads_back(n as nat);
    text::numbers_are_read(n, number);
    text::surroundings_are_trimmed(before, number, after);
    let line = "PPid:"@ + before + number + after;
    assert forall|i: int| 0 <= i < line.len() implies line[i] != '\n' by {
        if i >= 5 + before.len() + number.len() {
            assert(line[i] == after[i - 5 - before.len() - number.len()]);
        } else if i >= 5 + before.len() {
            assert(line[i] == number[i - 5 - before.len()]);
        } else if i >= 5 {
            assert(line[i] == before[i - 5]);
        } else {
            assert(line[i] == head[i]);
        }
    }
    lemma_first_line(line, line.len() as int);
    assert(line.take(line.len() as int) =~= line);
    assert(line.take(5) =~= head);
    assert(line.skip(5) =~= before + number + after);
    let s = line + "\n"@ + rest;
    assert forall|i: int| 0 <= i < line.len() implies s[i] != '\n' by {
        assert(s[i] == line[i]);
    }
    lemma_first_line(s, line.len() as int);
    assert(s.take(line.len() as int) =~= line);
}

} // verus!
