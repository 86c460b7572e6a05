//! Which capabilities may be carried out.

use vstd::prelude::*;

use crate::text;
use crate::text::same_text;

verus! {

/// What the policy says of one capability.
#[derive(Clone, Debug)]
pub struct PolicyEntry {
    pub name: String,
    pub enabled: bool,
    pub allow_execute: bool,
}

impl PolicyEntry {
    /// The capability may be carried out.
    pub open spec fn open_for_all(self) -> bool {
        self.enabled && self.allow_execute
    }
}

/// The policy: its entries, in the order of its file.
#[derive(Clone, Debug)]
pub struct ExecutionPolicy {
    pub capabilities: Vec<PolicyEntry>,
}

/// The first entry of a capability.
pub open spec fn entry_of(entries: Seq<PolicyEntry>, name: Seq<char>) -> Option<PolicyEntry>
    decreases entries.len(),
{
    if entries.len() == 0 {
        None
    } else if entries[0].name@ == name {
        Some(entries[0])
    } else {
        entry_of(entries.skip(1), name)
    }
}

/// The capability has an entry that is enabled and allows execution.
pub open spec fn allowed(entries: Seq<PolicyEntry>, name: Seq<char>) -> bool {
    entry_of(entries, name) matches Some(e) && e.open_for_all()
}

/// The names of the capabilities that may be carried out.
pub open spec fn open_names(entries: Seq<PolicyEntry>) -> Seq<Seq<char>> {
    entries.filter(|e: PolicyEntry| e.open_for_all()).map_values(|e: PolicyEntry| e.name@)
}

impl ExecutionPolicy {
    /// The entry of a capability.
    pub fn lookup(&self, name: &str) -> (r: Option<&PolicyEntry>)
        ensures
            r is Some <==> entry_of(self.capabilities@, name@) is Some,
            r matches Some(e) ==> entry_of(self.capabilities@, name@) == Some(*e),
            r is None <==> forall|i: int|
                0 <= i < self.capabilities@.len() ==> (#[trigger] self.capabilities@[i]).name@
                    != name@,
            r matches Some(e) ==> exists|i: int|
                {
                    &&& 0 <= i < self.capabilities@.len()
                    &&& (#[trigger] self.capabilities@[i]).name@ == name@
                    &&& *e == self.capabilities@[i]
                    &&& forall|j: int|
                        0 <= j < i ==> (#[trigger] self.capabilities@[j]).name@ != name@
                },
    {
        let mut i: usize = 0;
        assert(self.capabilities@.skip(0) =~= self.capabilities@);
        while i < self.capabilities.len()
            invariant
                i <= self.capabilities@.len(),
                entry_of(self.capabilities@.skip(i as int), name@) == entry_of(
                    self.capabilities@,
                    name@,
                ),
                forall|j: int|
                    0 <= j < i ==> (#[trigger] self.capabilities@[j]).name@ != name@,
            decreases self.capabilities@.len() - i,
        {
            if same_text(self.capabilities[i].name.as_str(), name) {
                return Some(&self.capabilities[i]);
            }
            assert(self.capabilities@.skip(i as int).skip(1) =~= self.capabilities@.skip(i + 1));
            i = i + 1;
        }
        None
    }

    /// The capability may be carried out.
    pub fn allows_execute(&self, name: &str) -> (r: bool)
        ensures
            r == allowed(self.capabilities@, name@),
            r <==> exists|i: int|
                {
                    &&& 0 <= i < self.capabilities@.len()
                    &&& (#[trigger] self.capabilities@[i]).name@ == name@
                    &&& self.capabilities@[i].enabled
                    &&& self.capabilities@[i].allow_execute
                    &&& forall|j: int|
                        0 <= j < i ==> (#[trigger] self.capabilities@[j]).name@ != name@
                },
    {
        proof {
            first_entry_decides(self.capabilities@, name@);
        }
        match self.lookup(name) {
            Some(e) => e.enabled && e.allow_execute,
            None => false,
        }
    }

    /// The names of the capabilities that may be carried out.
    pub fn graduated(&self) -> (r: Vec<String>)
        ensures
            text::texts(r@) == open_names(self.capabilities@),
            text::texts(r@) == self.capabilities@.filter(
                |e: PolicyEntry| e.enabled && e.allow_execute,
            ).map_values(|e: PolicyEntry| e.name@),
    {
        let ghost all = self.capabilities@;
        let ghost keep = |e: PolicyEntry| e.open_for_all();
        let ghost name = |e: PolicyEntry| e.name@;
        let mut r: Vec<String> = Vec::new();
        let mut i: usize = 0;
        proof {
            assert(all.take(0).filter(keep) =~= Seq::empty()) by {
                reveal(Seq::filter);
            }
            assert(text::texts(r@) =~= all.take(0).filter(keep).map_values(name));
        }
        while i < self.capabilities.len()
            invariant
                all == self.capabilities@,
                i <= all.len(),
                keep == (|e: PolicyEntry| e.open_for_all()),
                name == (|e: PolicyEntry| e.name@),
                text::texts(r@) == all.take(i as int).filter(keep).map_values(name),
            decreases all.len() - i,
        {
            let ghost before = all.take(i as int).filter(keep);
            proof {
                reveal(Seq::filter);
                assert(all.take(i + 1).drop_last() =~= all.take(i as int));
            }
            let e = &self.capabilities[i];
            if e.enabled && e.allow_execute {
                let ghost texts = text::texts(r@);
                r.push(e.name.clone());
                proof {
                    assert(text::texts(r@) =~= texts.push(all[i as int].name@));
                    assert(before.push(all[i as int]).map_values(name) =~= before.map_values(
                        name,
                    ).push(all[i as int].name@));
                }
            }
            i = i + 1;
        }
        assert(all.take(i as int) =~= all);
        assert(keep =~= (|e: PolicyEntry| e.enabled && e.allow_execute));
        r
    }
}

/// The first entry of a capability decides: it is the one that is looked up, and
/// the capability may be carried out exactly where this entry is enabled and
/// allows it.
pub proof fn first_entry_decides(entries: Seq<PolicyEntry>, name: Seq<char>)
    ensures
        entry_of(entries, name) matches Some(e) ==> exists|i: int|
            {
                &&& 0 <= i < entries.len()
                &&& (#[trigger] entries[i]).name@ == name
                &&& e == entries[i]
                &&& forall|j: int| 0 <= j < i ==> (#[trigger] entries[j]).name@ != name
            },
        entry_of(entries, name) is None <==> forall|i: int|
            0 <= i < entries.len() ==> (#[trigger] entries[i]).name@ != name,
        allowed(entries, name) <==> exists|i: int|
            {
                &&& 0 <= i < entries.len()
                &&& (#[trigger] entries[i]).name@ == name
                &&& entries[i].enabled
                &&& entries[i].allow_execute
                &&& forall|j: int| 0 <= j < i ==> (#[trigger] entries[j]).name@ != name
            },
    decreases entries.len(),
{
    if entries.len() > 0 {
        let rest = entries.skip(1);
        first_entry_decides(rest, name);
        assert(entries[0].name@ == entries[0].name@);
        if entries[0].name@ != name {
            assert forall|i: int| 0 <= i < rest.len() implies #[trigger] rest[i] == entries[
            i + 1] by {}
            if entry_of(rest, name) is Some {
                let i = choose|i: int|
                    {
                        &&& 0 <= i < rest.len()
                        &&& (#[trigger] rest[i]).name@ == name
                        &&& entry_of(rest, name)->Some_0 == rest[i]
                        &&& forall|j: int| 0 <= j < i ==> (#[trigger] rest[j]).name@ != name
                    };
                assert(entries[i + 1].name@ == name);
                assert forall|j: int| 0 <= j < i + 1
                    implies (#[trigger] entries[j]).name@ != name by {
                    if j > 0 {
                        assert(rest[j - 1].name@ != name);
                    }
                }
            } else {
                assert forall|i: int| 0 <= i < entries.len() implies (#[trigger] entries[i]).name@
                    != name by {
                    if i > 0 {
                        assert(rest[i - 1].name@ != name);
                    }
                }
            }
        }
    }
}

} // verus!
