//! The configuration value: a registry of named program definitions.

use vstd::prelude::*;

use crate::config_file::ProcmanConfigFileError;
use crate::loader::ProcmanConfigLoad;
use crate::parser::ProcmanConfigParseError;
use crate::program_name::ProgramName;
use crate::text::{str_eq, texts};

verus! {

/// The definition of one program: its command line, command first.
#[derive(Debug)]
pub struct ProgramConfig {
    command: Vec<String>,
}

impl View for ProgramConfig {
    type V = Seq<Seq<char>>;

    closed spec fn view(&self) -> Seq<Seq<char>> {
        texts(self.command@)
    }
}

impl ProgramConfig {
    /// A program run by the given command line.
    pub fn new(command: Vec<String>) -> (r: ProgramConfig)
        ensures
            r@ == texts(command@),
    {
        ProgramConfig { command }
    }

    /// The command line, command first.
    pub fn command(&self) -> (r: &Vec<String>)
        ensures
            texts(r@) == self@,
    {
        &self.command
    }
}

/// The loaded configuration: program definitions keyed by program name.
#[derive(Debug)]
pub struct ProcmanConfig {
    programs: Vec<(ProgramName, ProgramConfig)>,
}

/// Failures of a whole load: locating the file, or reading and parsing it.
#[derive(Debug)]
pub enum ProcmanConfigError {
    FindFile(ProcmanConfigFileError),
    ParseFile(ProcmanConfigParseError),
}

type Entries = Seq<(ProgramName, ProgramConfig)>;

/// Entry `i` of `s` carries the name `k`.
spec fn holds_at(s: Entries, i: int, k: Seq<char>) -> bool {
    0 <= i < s.len() && s[i].0@ == k
}

/// No two entries of `s` carry the same name.
spec fn unique_names(s: Entries) -> bool {
    forall|i: int, j: int|
        0 <= i < s.len() && 0 <= j < s.len() && #[trigger] s[i].0@ == #[trigger] s[j].0@ ==> i == j
}

/// The mapping from names to command lines that the entries of `s` give.
spec fn entries_map(s: Entries) -> Map<Seq<char>, Seq<Seq<char>>> {
    Map::new(
        |k: Seq<char>| exists|i: int| holds_at(s, i, k),
        |k: Seq<char>| s[choose|i: int| holds_at(s, i, k)].1@,
    )
}

proof fn lemma_lookup(s: Entries, i: int)
    requires
        unique_names(s),
        0 <= i < s.len(),
    ensures
        entries_map(s).contains_key(s[i].0@),
        entries_map(s)[s[i].0@] == s[i].1@,
{
    let k = s[i].0@;
    assert(holds_at(s, i, k));
    let c = choose|c: int| holds_at(s, c, k);
    assert(s[c].0@ == s[i].0@);
}

/// Replacing entry `i`, or appending a new last entry, under name `k`
/// updates the mapping at `k` alone.
proof fn lemma_store(before: Entries, after: Entries, i: int, k: Seq<char>, v: Seq<Seq<char>>)
    requires
        unique_names(before),
        0 <= i <= before.len(),
        i < before.len() ==> before[i].0@ == k,
        i == before.len() ==> forall|j: int| 0 <= j < before.len() ==> before[j].0@ != k,
        after.len() == if i < before.len() { before.len() } else { before.len() + 1 },
        after[i].0@ == k,
        after[i].1@ == v,
        forall|j: int| 0 <= j < before.len() && j != i ==> after[j] == before[j],
    ensures
        unique_names(after),
        entries_map(after) == entries_map(before).insert(k, v),
{
    assert forall|a: int, b: int|
        0 <= a < after.len() && 0 <= b < after.len() && #[trigger] after[a].0@
            == #[trigger] after[b].0@ implies a == b by {
        if a != i && b != i {
            assert(before[a].0@ == before[b].0@);
        } else if a == i && b != i {
            assert(before[b].0@ == k);
        } else if b == i && a != i {
            assert(before[a].0@ == k);
        }
    }
    let m = entries_map(before).insert(k, v);
    assert forall|key: Seq<char>| #[trigger] entries_map(after).contains_key(key) <==> m.contains_key(key) by {
        if entries_map(before).contains_key(key) {
            let c = choose|c: int| holds_at(before, c, key);
            if c != i {
                assert(holds_at(after, c, key));
            } else {
                assert(holds_at(after, i, key));
            }
        }
        if key == k {
            assert(holds_at(after, i, key));
        }
        if entries_map(after).contains_key(key) {
            let c = choose|c: int| holds_at(after, c, key);
            if c != i {
                assert(holds_at(before, c, key));
            }
        }
    }
    assert forall|key: Seq<char>| #[trigger] entries_map(after).contains_key(key) implies entries_map(after)[key]
        == m[key] by {
        let c = choose|c: int| holds_at(after, c, key);
        lemma_lookup(after, c);
        if c != i {
            assert(key != k);
            assert(holds_at(before, c, key));
            lemma_lookup(before, c);
        }
    }
    assert(entries_map(after) =~= m);
}

proof fn lemma_len(s: Entries)
    requires
        unique_names(s),
    ensures
        entries_map(s).len() == s.len(),
{
    let names = s.map_values(|p: (ProgramName, ProgramConfig)| p.0@);
    assert(names.no_duplicates());
    assert(entries_map(s).dom() =~= names.to_set()) by {
        assert forall|k: Seq<char>| #[trigger] entries_map(s).dom().contains(k) implies names.to_set().contains(k) by {
            let c = choose|c: int| holds_at(s, c, k);
            assert(names[c] == k);
        }
        assert forall|k: Seq<char>| #[trigger] names.to_set().contains(k) implies entries_map(s).dom().contains(k) by {
            let c = choose|c: int| 0 <= c < names.len() && names[c] == k;
            assert(holds_at(s, c, k));
        }
    }
    names.unique_seq_to_set();
}

impl View for ProcmanConfig {
    type V = Map<Seq<char>, Seq<Seq<char>>>;

    closed spec fn view(&self) -> Map<Seq<char>, Seq<Seq<char>>> {
        entries_map(self.programs@)
    }
}

impl ProcmanConfig {
    #[verifier::type_invariant]
    spec fn inv(&self) -> bool {
        unique_names(self.programs@)
    }

    /// A configuration without programs.
    pub fn new() -> (r: ProcmanConfig)
        ensures
            r@ == Map::<Seq<char>, Seq<Seq<char>>>::empty(),
    {
        let r = ProcmanConfig { programs: Vec::new() };
        assert(r@ =~= Map::<Seq<char>, Seq<Seq<char>>>::empty());
        r
    }

    /// Defines a program, replacing any earlier definition under the same name.
    pub fn insert(&mut self, name: ProgramName, program: ProgramConfig)
        ensures
            final(self)@ == old(self)@.insert(name@, program@),
    {
        proof {
            use_type_invariant(&*self);
        }
        let ghost k = name@;
        let ghost v = program@;
        let mut taken = ProcmanConfig::new();
        std::mem::swap(self, &mut taken);
        proof {
            use_type_invariant(&taken);
        }
        let mut programs = taken.programs;
        let ghost before = programs@;
        let mut i: usize = 0;
        while i < programs.len()
            invariant
                i <= programs@.len(),
                programs@ == before,
                name@ == k,
                forall|j: int| 0 <= j < i ==> programs@[j].0@ != k,
            ensures
                i <= programs@.len(),
                programs@ == before,
                forall|j: int| 0 <= j < i ==> programs@[j].0@ != k,
                i < programs@.len() ==> programs@[i as int].0@ == k,
            decreases programs.len() - i,
        {
            if str_eq(programs[i].0.as_str(), name.as_str()) {
                break;
            }
            i = i + 1;
        }
        if i < programs.len() {
            programs.set(i, (name, program));
        } else {
            programs.push((name, program));
        }
        proof {
            lemma_store(before, programs@, i as int, k, v);
        }
        *self = ProcmanConfig { programs };
    }

    /// The definition of the named program, if there is one.
    pub fn get(&self, name: &str) -> (r: Option<&ProgramConfig>)
        ensures
            r is Some <==> self@.contains_key(name@),
            r matches Some(p) ==> p@ == self@[name@],
    {
        proof {
            use_type_invariant(self);
        }
        let mut i: usize = 0;
        while i < self.programs.len()
            invariant
                unique_names(self.programs@),
                i <= self.programs@.len(),
                forall|j: int| 0 <= j < i ==> self.programs@[j].0@ != name@,
            decreases self.programs.len() - i,
        {
            if str_eq(self.programs[i].0.as_str(), name) {
                proof {
                    lemma_lookup(self.programs@, i as int);
                }
                return Some(&self.programs[i].1);
            }
            i = i + 1;
        }
        proof {
            if self@.contains_key(name@) {
                let c = choose|c: int| holds_at(self.programs@, c, name@);
                assert(self.programs@[c].0@ != name@);
            }
        }
        None
    }

    /// The number of programs.
    pub fn len(&self) -> (r: usize)
        ensures
            r == self@.len(),
    {
        proof {
            use_type_invariant(self);
            lemma_len(self.programs@);
        }
        self.programs.len()
    }

    /// The program names, in no particular order.
    pub fn program_names(&self) -> (r: Vec<String>)
        ensures
            r@.len() == self@.len(),
            forall|k: Seq<char>| self@.contains_key(k) <==> texts(r@).contains(k),
    {
        proof {
            use_type_invariant(self);
            lemma_len(self.programs@);
        }
        let mut r: Vec<String> = Vec::new();
        let mut i: usize = 0;
        while i < self.programs.len()
            invariant
                i <= self.programs@.len(),
                r@.len() == i,
                forall|j: int| 0 <= j < i ==> (#[trigger] r@[j])@ == self.programs@[j].0@,
            decreases self.programs.len() - i,
        {
            r.push(String::from_str(self.programs[i].0.as_str()));
            i = i + 1;
        }
        assert forall|k: Seq<char>| self@.contains_key(k) <==> texts(r@).contains(k) by {
            if self@.contains_key(k) {
                let c = choose|c: int| holds_at(self.programs@, c, k);
                assert(texts(r@)[c] == k);
            }
            if texts(r@).contains(k) {
                let c = choose|c: int| 0 <= c < texts(r@).len() && texts(r@)[c] == k;
                assert(holds_at(self.programs@, c, k));
            }
        }
        r
    }

    /// Starts loading: from the given file, or by searching for one.
    pub fn load_from_file(path: Option<&str>) -> (r: ProcmanConfigLoad)
        ensures
            r.started_from(path),
    {
        ProcmanConfigLoad::start(path)
    }
}

} // verus!
