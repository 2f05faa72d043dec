//! The capability module registry: named function tables mounted under
//! global identifiers in the script's namespace.
//!
//! Registration under an already-taken name fully replaces the earlier
//! table; scripts never observe a merged table.
use vstd::prelude::*;

use crate::kvmap;

verus! {

/// A named, immutable-after-mount table of native functions, identified
/// by the function names the script will see.
pub struct CapabilityModule {
    pub functions: Vec<String>,
}

impl View for CapabilityModule {
    type V = Seq<Seq<char>>;

    open spec fn view(&self) -> Seq<Seq<char>> {
        self.functions.deep_view()
    }
}

/// The global namespace of mounted modules: a map from global identifier
/// to the mounted function table.
pub struct Registry {
    entries: Vec<(String, CapabilityModule)>,
}

impl View for Registry {
    type V = Map<Seq<char>, Seq<Seq<char>>>;

    closed spec fn view(&self) -> Map<Seq<char>, Seq<Seq<char>>> {
        kvmap::assoc_map(self.entries@)
    }
}

impl Registry {
    /// Well-formedness: no global identifier is stored twice.
    pub closed spec fn wf(&self) -> bool {
        kvmap::distinct_keys(self.entries@)
    }

    /// An empty namespace.
    pub fn new() -> (r: Registry)
        ensures
            r.wf(),
            r@ == Map::<Seq<char>, Seq<Seq<char>>>::empty(),
    {
        Registry { entries: Vec::new() }
    }

    /// The position of a mounted name, if any.
    fn find_index(&self, name: &String) -> (r: Option<usize>)
        ensures
            match r {
                Some(i) => i < self.entries@.len() && self.entries@[i as int].0@ == name@,
                None => !kvmap::has_key(self.entries@, name@),
            },
    {
        let mut i: usize = 0;
        while i < self.entries.len()
            invariant
                i <= self.entries@.len(),
                forall|j: int| 0 <= j < i ==> self.entries@[j].0@ != name@,
            decreases self.entries@.len() - i,
        {
            if self.entries[i].0 == *name {
                return Some(i);
            }
            i += 1;
        }
        None
    }

    /// Mounts `module` under `name`; a table already mounted under `name`
    /// is fully replaced.
    pub fn register(&mut self, name: String, module: CapabilityModule)
        requires
            old(self).wf(),
        ensures
            final(self).wf(),
            final(self)@ == old(self)@.insert(name@, module@),
    {
        match self.find_index(&name) {
            None => {
                proof {
                    kvmap::lemma_assoc_map_push(self.entries@, name, module);
                }
                self.entries.push((name, module));
                proof {
                    assert(kvmap::distinct_keys(self.entries@));
                }
            },
            Some(i) => {
                let ghost s0 = self.entries@;
                proof {
                    kvmap::lemma_assoc_map_remove::<String, CapabilityModule>(s0, i as int);
                }
                let _ = self.entries.remove(i);
                proof {
                    assert forall|j: int|
                        0 <= j < self.entries@.len() implies self.entries@[j].0@ != name@ by {
                        if j < i {
                            assert(self.entries@[j] == s0[j]);
                        } else {
                            assert(self.entries@[j] == s0[j + 1]);
                        }
                    }
                    assert(kvmap::distinct_keys(self.entries@));
                    kvmap::lemma_assoc_map_push(self.entries@, name, module);
                }
                self.entries.push((name, module));
                proof {
                    assert(kvmap::distinct_keys(self.entries@));
                    assert(kvmap::assoc_map(s0).remove(s0[i as int].0@).insert(name@, module@)
                        =~= kvmap::assoc_map(s0).insert(name@, module@));
                }
            },
        }
    }

    /// The table mounted under `name`, if any.
    pub fn lookup(&self, name: &String) -> (r: Option<&CapabilityModule>)
        requires
            self.wf(),
        ensures
            match r {
                Some(m) => self@.dom().contains(name@) && m@ == self@[name@],
                None => !self@.dom().contains(name@),
            },
    {
        proof {
            kvmap::lemma_assoc_map_dom::<String, CapabilityModule>(self.entries@);
        }
        match self.find_index(name) {
            Some(i) => {
                proof {
                    kvmap::lemma_assoc_map_index::<String, CapabilityModule>(
                        self.entries@,
                        i as int,
                    );
                }
                Some(&self.entries[i].1)
            },
            None => None,
        }
    }
}

/// Law: registering `first` and then `second` under one name leaves the
/// namespace exactly as if only `second` had been registered; a lookup
/// under that name sees only the second module's functions.
pub proof fn lemma_register_replaces(
    globals: Map<Seq<char>, Seq<Seq<char>>>,
    name: Seq<char>,
    first: Seq<Seq<char>>,
    second: Seq<Seq<char>>,
)
    ensures
        globals.insert(name, first).insert(name, second) == globals.insert(name, second),
        globals.insert(name, first).insert(name, second)[name] == second,
{
    assert(globals.insert(name, first).insert(name, second) =~= globals.insert(name, second));
}

} // verus!
