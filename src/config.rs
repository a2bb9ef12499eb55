//! The configuration of the wrapper: directories, a global option block and
//! per-identifier option blocks.

use vstd::prelude::*;

use registorder_map::RegistOrderMap;

use crate::text::views;

verus! {

#[verifier::external_type_specification]
#[verifier::external_body]
#[verifier::reject_recursive_types(K)]
#[verifier::reject_recursive_types(V)]
pub struct ExRegistOrderMap<K, V>(RegistOrderMap<K, V>);

/// The entries of an environment block, in the order they were registered.
pub uninterp spec fn env_entries(m: RegistOrderMap<String, String>) -> Seq<(Seq<char>, Seq<char>)>;

/// Relies on `RegistOrderMap::new`: a map with no entries.
#[verifier::external_body]
fn empty_env() -> (r: RegistOrderMap<String, String>)
    ensures
        env_entries(r) == Seq::<(Seq<char>, Seq<char>)>::empty(),
{
    RegistOrderMap::new()
}

/// Relies on `RegistOrderMap::iter`: it visits the entries in the order they
/// were registered.
#[verifier::external_body]
fn env_list(m: &RegistOrderMap<String, String>) -> (r: Vec<(String, String)>)
    ensures
        r@.map_values(|p: (String, String)| (p.0@, p.1@)) == env_entries(*m),
{
    let mut r = Vec::new();
    for (name, value) in m.iter() {
        r.push((name.clone(), value.clone()));
    }
    r
}

/// Where the wrapper keeps its files.
pub struct ConfigEzCron {
    /// The directory of the run logs.
    pub log_dir: String,
    /// The directory of the lock markers.
    pub pid_dir: String,
}

/// An option block: hooks, working directory and environment.
pub struct ConfigOption {
    pub reports: Vec<String>,
    pub notifies: Vec<String>,
    pub cwd: Option<String>,
    pub env: RegistOrderMap<String, String>,
}

impl ConfigOption {
    /// An option block that sets nothing.
    pub fn new() -> (r: ConfigOption)
        ensures
            r.reports@.len() == 0,
            r.notifies@.len() == 0,
            r.cwd is None,
            env_entries(r.env) == Seq::<(Seq<char>, Seq<char>)>::empty(),
    {
        ConfigOption { reports: Vec::new(), notifies: Vec::new(), cwd: None, env: empty_env() }
    }

    /// The environment assignments of the block, in order.
    pub fn env_assignments(&self) -> (r: Vec<(String, String)>)
        ensures
            r@.map_values(|p: (String, String)| (p.0@, p.1@)) == env_entries(self.env),
    {
        env_list(&self.env)
    }
}

/// The whole configuration.
pub struct Config {
    pub ezcron: ConfigEzCron,
    /// The block that applies to every job.
    pub option: Option<ConfigOption>,
    /// The blocks of single jobs, by job identifier.
    pub options: Vec<(String, ConfigOption)>,
}

/// The block of job `identifer`: the first one registered under it.
pub open spec fn block_for(options: Seq<(String, ConfigOption)>, identifer: Seq<char>) -> Option<
    ConfigOption,
>
    decreases options.len(),
{
    if options.len() == 0 {
        None
    } else if options[0].0@ == identifer {
        Some(options[0].1)
    } else {
        block_for(options.drop_first(), identifer)
    }
}

impl Config {
    /// The index of the block of job `identifer`, if it has one.
    pub fn find_option(&self, identifer: &str) -> (r: Option<usize>)
        ensures
            match block_for(self.options@, identifer@) {
                None => r is None,
                Some(b) => r matches Some(i) && i < self.options@.len() && self.options@[i as int].1 == b,
            },
    {
        let key = String::from_str(identifer);
        let mut i: usize = 0;
        assert(self.options@.skip(0) =~= self.options@);
        while i < self.options.len()
            invariant
                i <= self.options@.len(),
                key@ == identifer@,
                block_for(self.options@, identifer@) == block_for(self.options@.skip(i as int), identifer@),
            decreases self.options@.len() - i,
        {
            assert(self.options@.skip(i as int).drop_first() =~= self.options@.skip(i + 1));
            if self.options[i].0 == key {
                return Some(i);
            }
            i = i + 1;
        }
        None
    }
}

} // verus!
