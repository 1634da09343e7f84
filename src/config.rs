//! The configuration: per-module options, keyed by module name.
use vstd::prelude::*;
use crate::text::str_equal;

verus! {

/// Sensor selection for the CPU module.
pub struct TemperatureConfig {
    pub device: Option<String>,
    pub pattern: Option<String>,
}

/// Whether a module exposes its `json` file.
pub struct JsonConfig {
    pub enabled: Option<bool>,
}

/// Whether a module exposes its `shell` file.
pub struct ShellConfig {
    pub enabled: Option<bool>,
}

/// The options of one module.
pub struct ModuleConfig {
    pub enabled: Option<bool>,
    pub timeout_s: Option<u64>,
    pub temperature: Option<TemperatureConfig>,
    pub json: Option<JsonConfig>,
    pub shell: Option<ShellConfig>,
}

impl ModuleConfig {
    pub fn new() -> (r: Self)
        ensures
            r.enabled is None,
            r.timeout_s is None,
            r.temperature is None,
            r.json is None,
            r.shell is None,
    {
        ModuleConfig { enabled: None, timeout_s: None, temperature: None, json: None, shell: None }
    }

    pub open spec fn spec_enabled(&self) -> bool {
        self.enabled == Some(true)
    }

    pub open spec fn spec_json_enabled(&self) -> bool {
        self.json is Some && self.json->0.enabled == Some(true)
    }

    pub open spec fn spec_shell_enabled(&self) -> bool {
        self.shell is Some && self.shell->0.enabled == Some(true)
    }

    /// The module is switched on: `enabled` is present and true.
    pub fn is_enabled(&self) -> (r: bool)
        ensures
            r == self.spec_enabled(),
    {
        match self.enabled {
            Some(b) => b,
            None => false,
        }
    }

    /// The module exposes a `json` file.
    pub fn json_enabled(&self) -> (r: bool)
        ensures
            r == self.spec_json_enabled(),
    {
        match &self.json {
            Some(c) => match c.enabled {
                Some(b) => b,
                None => false,
            },
            None => false,
        }
    }

    /// The module exposes a `shell` file.
    pub fn shell_enabled(&self) -> (r: bool)
        ensures
            r == self.spec_shell_enabled(),
    {
        match &self.shell {
            Some(c) => match c.enabled {
                Some(b) => b,
                None => false,
            },
            None => false,
        }
    }
}

/// The configuration of all modules: each entry names a module and gives
/// its options.
pub struct Config {
    pub modules: Vec<(String, ModuleConfig)>,
}

/// The index of the first entry named `name`.
pub open spec fn config_index(s: Seq<(String, ModuleConfig)>, name: Seq<char>) -> Option<int>
    decreases s.len(),
{
    if s.len() == 0 {
        None
    } else {
        match config_index(s.drop_last(), name) {
            Some(i) => Some(i),
            None => if s.last().0@ == name {
                Some(s.len() - 1)
            } else {
                None
            },
        }
    }
}

/// The entry found for a name lies in the list and carries that name.
pub proof fn lemma_config_index_bound(s: Seq<(String, ModuleConfig)>, name: Seq<char>)
    ensures
        config_index(s, name) is Some ==> 0 <= config_index(s, name)->0 < s.len()
            && s[config_index(s, name)->0].0@ == name,
    decreases s.len(),
{
    if s.len() > 0 {
        lemma_config_index_bound(s.drop_last(), name);
    }
}

/// No two entries name the same module.
pub open spec fn distinct_keys(s: Seq<(String, ModuleConfig)>) -> bool {
    forall|a: int, b: int| 0 <= a < s.len() && 0 <= b < s.len() && a != b ==> (#[trigger] s[a]).0@ != (#[trigger] s[b]).0@
}

impl Config {
    /// Whether the configuration maps each module name to one entry at most.
    pub open spec fn wf(&self) -> bool {
        distinct_keys(self.modules@)
    }

    /// The configuration with these entries, whose names are distinct, as
    /// the keys of the configuration file's object are.
    pub fn new(modules: Vec<(String, ModuleConfig)>) -> (r: Self)
        requires
            distinct_keys(modules@),
        ensures
            r.modules == modules,
            r.wf(),
    {
        Config { modules }
    }

    /// The options of module `name`, if the configuration has an entry for it.
    pub fn module(&self, name: &str) -> (r: Option<&ModuleConfig>)
        ensures
            match config_index(self.modules@, name@) {
                Some(i) => r is Some && *r->0 == self.modules@[i].1,
                None => r is None,
            },
    {
        let mut i: usize = 0;
        while i < self.modules.len()
            invariant
                i <= self.modules@.len(),
                config_index(self.modules@.take(i as int), name@) is None,
            decreases self.modules@.len() - i,
        {
            proof {
                assert(self.modules@.take(i + 1).drop_last() =~= self.modules@.take(i as int));
            }
            if str_equal(self.modules[i].0.as_str(), name) {
                proof {
                    lemma_prefix_index(self.modules@, i as int + 1, name@);
                }
                return Some(&self.modules[i].1);
            }
            i = i + 1;
        }
        proof {
            assert(self.modules@.take(i as int) =~= self.modules@);
        }
        None
    }
}

proof fn lemma_prefix_index(s: Seq<(String, ModuleConfig)>, k: int, name: Seq<char>)
    requires
        0 < k <= s.len(),
        config_index(s.take(k), name) is Some,
    ensures
        config_index(s, name) == config_index(s.take(k), name),
    decreases s.len(),
{
    if k < s.len() {
        assert(s.drop_last().take(k) =~= s.take(k));
        lemma_prefix_index(s.drop_last(), k, name);
    } else {
        assert(s.take(k) =~= s);
    }
}

} // verus!
