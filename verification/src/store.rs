//! The shell's two name-keyed stores: the variable store and the
//! program registry. Both are modelled as maps from names to values;
//! the latest insertion for a name wins.
use crate::executable::Program;
use vstd::prelude::*;
use vstd::string::StrSliceExecFns;

verus! {

struct VarEntry {
    name: String,
    value: String,
}

/// The map that a run of entries denotes: later entries override
/// earlier ones.
spec fn var_map_of(entries: Seq<VarEntry>) -> Map<Seq<char>, Seq<char>>
    decreases entries.len(),
{
    if entries.len() == 0 {
        Map::empty()
    } else {
        var_map_of(entries.drop_last()).insert(entries.last().name@, entries.last().value@)
    }
}

/// The variable store: a mapping of name to string value.
pub struct Vars {
    entries: Vec<VarEntry>,
}

impl View for Vars {
    type V = Map<Seq<char>, Seq<char>>;

    closed spec fn view(&self) -> Map<Seq<char>, Seq<char>> {
        var_map_of(self.entries@)
    }
}

/// Whether two strings hold the same characters.
pub fn str_eq(a: &str, b: &str) -> (r: bool)
    ensures
        r == (a@ == b@),
{
    let n = a.unicode_len();
    if n != b.unicode_len() {
        proof {
            assert(a@ != b@);
        }
        return false;
    }
    let mut k: usize = 0;
    loop
        invariant
            k <= n,
            n == a@.len() == b@.len(),
            forall|t: int| 0 <= t < k ==> a@[t] == b@[t],
        ensures
            if k == n {
                a@ == b@
            } else {
                a@ != b@
            },
        decreases n - k,
    {
        if k == n {
            proof {
                assert(a@ =~= b@);
            }
            break ;
        }
        if a.get_char(k) != b.get_char(k) {
            break ;
        }
        k = k + 1;
    }
    k == n
}

impl Vars {
    /// An empty store.
    pub fn new() -> (v: Vars)
        ensures
            v@ == Map::<Seq<char>, Seq<char>>::empty(),
    {
        let v = Vars { entries: Vec::new() };
        proof {
            assert(v.entries@ =~= Seq::<VarEntry>::empty());
        }
        v
    }

    /// The value bound to `name`, or `None` when the name is unknown.
    pub fn get(&self, name: &str) -> (r: Option<&String>)
        ensures
            match r {
                Some(value) => self@.contains_key(name@) && value@ == self@[name@],
                None => !self@.contains_key(name@),
            },
    {
        let ghost all = self.entries@;
        let mut k = self.entries.len();
        proof {
            assert(all.take(k as int) =~= all);
        }
        loop
            invariant
                k <= self.entries@.len(),
                all == self.entries@,
                var_map_of(all).contains_key(name@) == var_map_of(all.take(k as int)).contains_key(
                    name@,
                ),
                var_map_of(all).contains_key(name@) ==> var_map_of(all)[name@] == var_map_of(
                    all.take(k as int),
                )[name@],
            ensures
                if k > 0 {
                    var_map_of(all).contains_key(name@) && all[k - 1].name@ == name@ && var_map_of(
                        all,
                    )[name@] == all[k - 1].value@
                } else {
                    !var_map_of(all).contains_key(name@)
                },
            decreases k,
        {
            if k == 0 {
                proof {
                    assert(all.take(0) =~= Seq::<VarEntry>::empty());
                }
                break ;
            }
            let hit = str_eq(self.entries[k - 1].name.as_str(), name);
            proof {
                assert(all.take(k as int).last() == all[k - 1]);
                assert(all.take(k as int).drop_last() =~= all.take(k - 1));
            }
            if hit {
                break ;
            }
            k = k - 1;
        }
        if k > 0 {
            Some(&self.entries[k - 1].value)
        } else {
            None
        }
    }

    /// Bind `name` to `value`, replacing any earlier binding.
    pub fn insert(&mut self, name: String, value: String)
        ensures
            final(self)@ == old(self)@.insert(name@, value@),
    {
        let ghost n = name@;
        let ghost v = value@;
        self.entries.push(VarEntry { name, value });
        proof {
            assert(self.entries@.drop_last() =~= old(self).entries@);
            assert(self.entries@.last().name@ == n && self.entries@.last().value@ == v);
        }
    }
}

struct ProgEntry {
    name: String,
    program: Program,
}

/// The map that a run of registry entries denotes.
spec fn prog_map_of(entries: Seq<ProgEntry>) -> Map<Seq<char>, Program>
    decreases entries.len(),
{
    if entries.len() == 0 {
        Map::empty()
    } else {
        prog_map_of(entries.drop_last()).insert(entries.last().name@, entries.last().program)
    }
}

/// The program registry: a mapping of command name to program
/// descriptor, queried by name on every dispatch.
pub struct Executables {
    entries: Vec<ProgEntry>,
}

impl View for Executables {
    type V = Map<Seq<char>, Program>;

    closed spec fn view(&self) -> Map<Seq<char>, Program> {
        prog_map_of(self.entries@)
    }
}

impl Executables {
    /// An empty registry.
    pub fn new() -> (e: Executables)
        ensures
            e@ == Map::<Seq<char>, Program>::empty(),
    {
        let e = Executables { entries: Vec::new() };
        proof {
            assert(e.entries@ =~= Seq::<ProgEntry>::empty());
        }
        e
    }

    /// The program registered under `name`, or `None`.
    pub fn get(&self, name: &str) -> (r: Option<Program>)
        ensures
            match r {
                Some(program) => self@.contains_key(name@) && program == self@[name@],
                None => !self@.contains_key(name@),
            },
    {
        let ghost all = self.entries@;
        let mut k = self.entries.len();
        proof {
            assert(all.take(k as int) =~= all);
        }
        loop
            invariant
                k <= self.entries@.len(),
                all == self.entries@,
                prog_map_of(all).contains_key(name@) == prog_map_of(
                    all.take(k as int),
                ).contains_key(name@),
                prog_map_of(all).contains_key(name@) ==> prog_map_of(all)[name@] == prog_map_of(
                    all.take(k as int),
                )[name@],
            ensures
                if k > 0 {
                    prog_map_of(all).contains_key(name@) && all[k - 1].name@ == name@
                        && prog_map_of(all)[name@] == all[k - 1].program
                } else {
                    !prog_map_of(all).contains_key(name@)
                },
            decreases k,
        {
            if k == 0 {
                proof {
                    assert(all.take(0) =~= Seq::<ProgEntry>::empty());
                }
                break ;
            }
            let hit = str_eq(self.entries[k - 1].name.as_str(), name);
            proof {
                assert(all.take(k as int).last() == all[k - 1]);
                assert(all.take(k as int).drop_last() =~= all.take(k - 1));
            }
            if hit {
                break ;
            }
            k = k - 1;
        }
        if k > 0 {
            Some(self.entries[k - 1].program)
        } else {
            None
        }
    }

    /// Whether a program is registered under `name`.
    pub fn contains(&self, name: &str) -> (r: bool)
        ensures
            r == self@.contains_key(name@),
    {
        match self.get(name) {
            Some(_) => true,
            None => false,
        }
    }

    /// Register `program` under `name`, replacing any earlier entry.
    pub fn insert(&mut self, name: String, program: Program)
        ensures
            final(self)@ == old(self)@.insert(name@, program),
    {
        let ghost n = name@;
        self.entries.push(ProgEntry { name, program });
        proof {
            assert(self.entries@.drop_last() =~= old(self).entries@);
            assert(self.entries@.last().name@ == n && self.entries@.last().program == program);
        }
    }
}

} // verus!
