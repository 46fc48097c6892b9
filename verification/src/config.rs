//! The loader's configuration: per-scheduler, per-mode flags, the
//! built-in defaults, and how a mode's flags are resolved.

use vstd::prelude::*;

use crate::sched::{
    all_modes, all_modes_spec, all_scheds, all_scheds_spec, mode_name_spec, sched_name_spec,
    sched_of_name_spec, SchedMode, SupportedSched,
};
use crate::text::str_eq;

verus! {

/// The view of an optional list of strings.
pub open spec fn opt_strings_view(o: Option<Vec<String>>) -> Option<Seq<Seq<char>>> {
    match o {
        Some(v) => Some(v.deep_view()),
        None => None,
    }
}

/// A copy of `v`, string by string.
pub fn clone_strings(v: &Vec<String>) -> (res: Vec<String>)
    ensures
        res.deep_view() == v.deep_view(),
{
    let mut res: Vec<String> = Vec::new();
    let n = v.len();
    for i in 0..n
        invariant
            n == v.len(),
            res.deep_view() == v.deep_view().take(i as int),
    {
        let ghost pre = res.deep_view();
        res.push(v[i].clone());
        assert(res.deep_view() =~= pre.push(v[i as int]@));
        assert(v.deep_view().take(i + 1) =~= v.deep_view().take(i as int).push(v[i as int]@));
    }
    assert(v.deep_view().take(n as int) =~= v.deep_view());
    res
}

/// The views of a sequence of string slices.
pub open spec fn strs_view(v: Seq<&'static str>) -> Seq<Seq<char>> {
    v.map_values(|x: &'static str| x@)
}

/// Owned copies of the string slices in `v`.
pub fn strs_to_strings(v: &Vec<&'static str>) -> (res: Vec<String>)
    ensures
        res.deep_view() == strs_view(v@),
{
    let mut res: Vec<String> = Vec::new();
    let n = v.len();
    for i in 0..n
        invariant
            n == v.len(),
            res.deep_view() == strs_view(v@).take(i as int),
    {
        let ghost pre = res.deep_view();
        let s: &str = v[i];
        res.push(s.to_owned());
        assert(res.deep_view() =~= pre.push(v@[i as int]@));
        assert(strs_view(v@).take(i + 1) =~= strs_view(v@).take(i as int).push(v@[i as int]@));
    }
    assert(strs_view(v@).take(n as int) =~= strs_view(v@));
    res
}

/// The built-in flags of `sched` in `mode`.
pub open spec fn default_flag_strs(sched: SupportedSched, mode: SchedMode) -> Seq<&'static str> {
    match sched {
        SupportedSched::Bpfland => match mode {
            SchedMode::LowLatency => seq!["-m", "performance", "-w"],
            SchedMode::PowerSave => seq!["-s", "20000", "-m", "powersave", "-I", "100", "-t", "100"],
            SchedMode::Server => seq!["-s", "20000", "-S"],
            SchedMode::Gaming => seq!["-m", "all"],
            SchedMode::Auto => seq!["-m", "auto"],
        },
        SupportedSched::Lavd => match mode {
            SchedMode::Gaming | SchedMode::LowLatency => seq!["--performance", "--pinned-slice-us", "500"],
            SchedMode::PowerSave => seq!["--powersave", "--pinned-slice-us", "500"],
            SchedMode::Server => seq!["--performance", "--slice-min-us", "3000", "--slice-max-us", "10000", "--pinned-slice-us", "3000"],
            SchedMode::Auto => seq!["--autopilot", "--pinned-slice-us", "500"],
        },
        SupportedSched::P2DQ => match mode {
            SchedMode::Gaming => seq!["--task-slice", "true", "-f", "--sched-mode", "performance"],
            SchedMode::LowLatency => seq!["-y", "-f", "--task-slice", "true"],
            SchedMode::PowerSave => seq!["--sched-mode", "efficiency"],
            SchedMode::Server => seq!["--keep-running"],
            SchedMode::Auto => seq!["--sched-mode", "default"],
        },
        SupportedSched::Tickless => match mode {
            SchedMode::Gaming => seq!["-f", "5000", "-s", "5000"],
            SchedMode::LowLatency => seq!["-f", "5000", "-s", "1000"],
            SchedMode::PowerSave => seq!["-f", "50"],
            SchedMode::Server => seq!["-f", "100"],
            SchedMode::Auto => seq![],
        },
        SupportedSched::Cosmos => match mode {
            SchedMode::Gaming => seq!["-s", "700"],
            SchedMode::LowLatency => seq!["-s", "700", "-m", "performance", "-w"],
            SchedMode::PowerSave => seq!["-m", "powersave"],
            SchedMode::Server | SchedMode::Auto => seq![],
        },
        SupportedSched::Cake => match mode {
            SchedMode::Gaming | SchedMode::Server => seq!["--profile", "gaming"],
            SchedMode::LowLatency => seq!["--profile", "esports"],
            SchedMode::PowerSave => seq!["--profile", "battery"],
            SchedMode::Auto => seq!["--profile", "default"],
        },
        SupportedSched::Rusty
        | SupportedSched::Rustland
        | SupportedSched::Beerland
        | SupportedSched::Pandemonium
        | SupportedSched::Flash
        | SupportedSched::Flow
        | SupportedSched::Forge => seq![],
    }
}


/// The built-in flags of `scx_sched` in `sched_mode`; used where the
/// configuration gives none.
pub fn get_default_scx_flags_for_mode(scx_sched: &SupportedSched, sched_mode: SchedMode) -> (res: Vec<
    &'static str,
>)
    ensures
        res@ == default_flag_strs(*scx_sched, sched_mode),
{
    let v: Vec<&'static str> = match scx_sched {
        SupportedSched::Bpfland => match sched_mode {
            SchedMode::LowLatency => vec!["-m", "performance", "-w"],
            SchedMode::PowerSave => vec!["-s", "20000", "-m", "powersave", "-I", "100", "-t", "100"],
            SchedMode::Server => vec!["-s", "20000", "-S"],
            SchedMode::Gaming => vec!["-m", "all"],
            SchedMode::Auto => vec!["-m", "auto"],
        },
        SupportedSched::Lavd => match sched_mode {
            SchedMode::Gaming | SchedMode::LowLatency => vec!["--performance", "--pinned-slice-us", "500"],
            SchedMode::PowerSave => vec!["--powersave", "--pinned-slice-us", "500"],
            SchedMode::Server => vec!["--performance", "--slice-min-us", "3000", "--slice-max-us", "10000", "--pinned-slice-us", "3000"],
            SchedMode::Auto => vec!["--autopilot", "--pinned-slice-us", "500"],
        },
        SupportedSched::P2DQ => match sched_mode {
            SchedMode::Gaming => vec!["--task-slice", "true", "-f", "--sched-mode", "performance"],
            SchedMode::LowLatency => vec!["-y", "-f", "--task-slice", "true"],
            SchedMode::PowerSave => vec!["--sched-mode", "efficiency"],
            SchedMode::Server => vec!["--keep-running"],
            SchedMode::Auto => vec!["--sched-mode", "default"],
        },
        SupportedSched::Tickless => match sched_mode {
            SchedMode::Gaming => vec!["-f", "5000", "-s", "5000"],
            SchedMode::LowLatency => vec!["-f", "5000", "-s", "1000"],
            SchedMode::PowerSave => vec!["-f", "50"],
            SchedMode::Server => vec!["-f", "100"],
            SchedMode::Auto => vec![],
        },
        SupportedSched::Cosmos => match sched_mode {
            SchedMode::Gaming => vec!["-s", "700"],
            SchedMode::LowLatency => vec!["-s", "700", "-m", "performance", "-w"],
            SchedMode::PowerSave => vec!["-m", "powersave"],
            SchedMode::Server | SchedMode::Auto => vec![],
        },
        SupportedSched::Cake => match sched_mode {
            SchedMode::Gaming | SchedMode::Server => vec!["--profile", "gaming"],
            SchedMode::LowLatency => vec!["--profile", "esports"],
            SchedMode::PowerSave => vec!["--profile", "battery"],
            SchedMode::Auto => vec!["--profile", "default"],
        },
        SupportedSched::Rusty
        | SupportedSched::Rustland
        | SupportedSched::Beerland
        | SupportedSched::Pandemonium
        | SupportedSched::Flash
        | SupportedSched::Flow
        | SupportedSched::Forge => vec![],
    };
    assert(v@ =~= default_flag_strs(*scx_sched, sched_mode));
    v
}


/// The built-in flags of `sched` in `mode`, as character sequences.
pub open spec fn default_flags_spec(sched: SupportedSched, mode: SchedMode) -> Seq<Seq<char>> {
    strs_view(default_flag_strs(sched, mode))
}

/// Flags for each mode of one scheduler; `None` means "not configured".
#[derive(Debug, Clone)]
pub struct Sched {
    pub auto_mode: Option<Vec<String>>,
    pub gaming_mode: Option<Vec<String>>,
    pub lowlatency_mode: Option<Vec<String>>,
    pub powersave_mode: Option<Vec<String>>,
    pub server_mode: Option<Vec<String>>,
}

impl Sched {
    /// The configured flags for `mode`, if any.
    pub open spec fn flags_for(&self, mode: SchedMode) -> Option<Seq<Seq<char>>> {
        match mode {
            SchedMode::Auto => opt_strings_view(self.auto_mode),
            SchedMode::Gaming => opt_strings_view(self.gaming_mode),
            SchedMode::LowLatency => opt_strings_view(self.lowlatency_mode),
            SchedMode::PowerSave => opt_strings_view(self.powersave_mode),
            SchedMode::Server => opt_strings_view(self.server_mode),
        }
    }
}

impl Default for Sched {
    /// A scheduler entry that configures no mode.
    fn default() -> (res: Sched)
        ensures
            forall|m: SchedMode| res.flags_for(m) is None,
    {
        Sched {
            auto_mode: None,
            gaming_mode: None,
            lowlatency_mode: None,
            powersave_mode: None,
            server_mode: None,
        }
    }
}

/// A copy of an optional list of strings.
fn clone_opt_strings(o: &Option<Vec<String>>) -> (res: Option<Vec<String>>)
    ensures
        opt_strings_view(res) == opt_strings_view(*o),
{
    match o {
        Some(v) => Some(clone_strings(v)),
        None => None,
    }
}

/// The flags that `sched_config` gives for `sched_mode`, if it gives any.
pub fn extract_scx_flags_from_config(sched_config: &Sched, sched_mode: SchedMode) -> (res: Option<
    Vec<String>,
>)
    ensures
        opt_strings_view(res) == sched_config.flags_for(sched_mode),
{
    match sched_mode {
        SchedMode::Gaming => clone_opt_strings(&sched_config.gaming_mode),
        SchedMode::LowLatency => clone_opt_strings(&sched_config.lowlatency_mode),
        SchedMode::PowerSave => clone_opt_strings(&sched_config.powersave_mode),
        SchedMode::Server => clone_opt_strings(&sched_config.server_mode),
        SchedMode::Auto => clone_opt_strings(&sched_config.auto_mode),
    }
}

/// The owned built-in flags of `scx_sched` in `mode`.
fn default_flags_owned(scx_sched: &SupportedSched, mode: SchedMode) -> (res: Vec<String>)
    ensures
        res.deep_view() == default_flags_spec(*scx_sched, mode),
{
    let v = get_default_scx_flags_for_mode(scx_sched, mode);
    strs_to_strings(&v)
}

/// A scheduler entry holding the built-in flags of `scx_sched` for every mode.
pub fn get_default_sched_for_config(scx_sched: &SupportedSched) -> (res: Sched)
    ensures
        forall|m: SchedMode| #[trigger] res.flags_for(m) == Some(default_flags_spec(*scx_sched, m)),
{
    Sched {
        auto_mode: Some(default_flags_owned(scx_sched, SchedMode::Auto)),
        gaming_mode: Some(default_flags_owned(scx_sched, SchedMode::Gaming)),
        lowlatency_mode: Some(default_flags_owned(scx_sched, SchedMode::LowLatency)),
        powersave_mode: Some(default_flags_owned(scx_sched, SchedMode::PowerSave)),
        server_mode: Some(default_flags_owned(scx_sched, SchedMode::Server)),
    }
}


/// Scheduler entries keyed by scheduler name; a key occurs at most once.
pub struct SchedTable {
    entries: Vec<(String, Sched)>,
}

/// Whether `key` is the key of some entry.
pub open spec fn has_key(entries: Seq<(String, Sched)>, key: Seq<char>) -> bool {
    exists|i: int| 0 <= i < entries.len() && (#[trigger] entries[i]).0@ == key
}

/// No key occurs twice.
pub open spec fn keys_unique(entries: Seq<(String, Sched)>) -> bool {
    forall|i: int, j: int|
        0 <= i < entries.len() && 0 <= j < entries.len() && i != j ==> (#[trigger] entries[i]).0@
            != (#[trigger] entries[j]).0@
}

/// The entries as a map from key to scheduler entry.
pub open spec fn entries_map(entries: Seq<(String, Sched)>) -> Map<Seq<char>, Sched> {
    Map::new(
        |k: Seq<char>| has_key(entries, k),
        |k: Seq<char>| entries[choose|i: int| 0 <= i < entries.len() && (#[trigger] entries[i]).0@ == k].1,
    )
}

proof fn lemma_entries_map_at(entries: Seq<(String, Sched)>, i: int)
    requires
        keys_unique(entries),
        0 <= i < entries.len(),
    ensures
        entries_map(entries).contains_key(entries[i].0@),
        entries_map(entries)[entries[i].0@] == entries[i].1,
{
    let k = entries[i].0@;
    assert(has_key(entries, k));
    let j = choose|j: int| 0 <= j < entries.len() && (#[trigger] entries[j]).0@ == k;
    assert(j == i);
}

impl View for SchedTable {
    type V = Map<Seq<char>, Sched>;

    closed spec fn view(&self) -> Map<Seq<char>, Sched> {
        entries_map(self.entries@)
    }
}

impl SchedTable {
    #[verifier::type_invariant]
    closed spec fn unique_keys(self) -> bool {
        keys_unique(self.entries@)
    }

    /// A table with no entries.
    pub fn new() -> (res: SchedTable)
        ensures
            res@ == Map::<Seq<char>, Sched>::empty(),
    {
        let res = SchedTable { entries: Vec::new() };
        assert(res@ =~= Map::<Seq<char>, Sched>::empty());
        res
    }

    /// Position of the entry with key `key`, if any.
    fn find(&self, key: &str) -> (res: Option<usize>)
        ensures
            match res {
                Some(i) => i < self.entries@.len() && self.entries@[i as int].0@ == key@,
                None => !has_key(self.entries@, key@),
            },
    {
        let n = self.entries.len();
        for i in 0..n
            invariant
                n == self.entries@.len(),
                forall|j: int| 0 <= j < i ==> (#[trigger] self.entries@[j]).0@ != key@,
        {
            if str_eq(self.entries[i].0.as_str(), key) {
                return Some(i);
            }
        }
        None
    }

    /// The entry for `key`, if the table has one.
    pub fn get(&self, key: &str) -> (res: Option<&Sched>)
        ensures
            match res {
                Some(v) => self@.contains_key(key@) && self@[key@] == *v,
                None => !self@.contains_key(key@),
            },
    {
        proof {
            use_type_invariant(self);
        }
        match self.find(key) {
            Some(i) => {
                proof {
                    lemma_entries_map_at(self.entries@, i as int);
                }
                Some(&self.entries[i].1)
            },
            None => None,
        }
    }

    /// Whether the table has an entry for `key`.
    pub fn contains_key(&self, key: &str) -> (res: bool)
        ensures
            res == self@.contains_key(key@),
    {
        self.find(key).is_some()
    }

    /// Sets the entry for `key` to `value`, replacing an earlier one.
    pub fn insert(&mut self, key: String, value: Sched)
        ensures
            final(self)@ == old(self)@.insert(key@, value),
    {
        proof {
            use_type_invariant(&*self);
        }
        let ghost old_entries = self.entries@;
        let found = self.find(key.as_str());
        let ghost kv = key@;
        let ghost idx: int = match found {
            Some(i) => i as int,
            None => old_entries.len() as int,
        };
        let mut entries: Vec<(String, Sched)> = Vec::new();
        std::mem::swap(&mut entries, &mut self.entries);
        match found {
            Some(i) => {
                let ghost k = key@;
                entries.set(i, (key, value));
                proof {
                    let e = entries@;
                    assert forall|a: int, b: int|
                        0 <= a < e.len() && 0 <= b < e.len() && a != b implies (#[trigger] e[a]).0@
                        != (#[trigger] e[b]).0@ by {
                        if a != i && b != i {
                            assert(e[a] == old_entries[a] && e[b] == old_entries[b]);
                        } else if a == i {
                            assert(e[b] == old_entries[b]);
                            assert(old_entries[i as int].0@ == k);
                        } else {
                            assert(e[a] == old_entries[a]);
                            assert(old_entries[i as int].0@ == k);
                        }
                    }
                }
            },
            None => {
                entries.push((key, value));
                proof {
                    let e = entries@;
                    assert forall|a: int, b: int|
                        0 <= a < e.len() && 0 <= b < e.len() && a != b implies (#[trigger] e[a]).0@
                        != (#[trigger] e[b]).0@ by {
                        if a < old_entries.len() && b < old_entries.len() {
                            assert(e[a] == old_entries[a] && e[b] == old_entries[b]);
                        } else if a < old_entries.len() {
                            assert(e[a] == old_entries[a]);
                        } else {
                            assert(e[b] == old_entries[b]);
                        }
                    }
                }
            },
        }
        assert(entries@[idx].0@ == kv && entries@[idx].1 == value);
        assert(forall|j: int| 0 <= j < entries@.len() && j != idx ==> entries@[j] == old_entries[j]);
        assert(entries@.len() == old_entries.len() || (entries@.len() == old_entries.len() + 1 && idx
            == old_entries.len()));
        self.entries = entries;
        proof {
            use_type_invariant(&*self);
            let e = self.entries@;
            let m = entries_map(e);
            let om = entries_map(old_entries).insert(key@, value);
            assert forall|k: Seq<char>| #[trigger] m.contains_key(k) <==> om.contains_key(k) by {
                if k == key@ {
                    assert(has_key(e, k)) by {
                        assert(e[idx].0@ == k);
                    }
                } else {
                    if has_key(e, k) {
                        let j = choose|j: int| 0 <= j < e.len() && (#[trigger] e[j]).0@ == k;
                        assert(j != idx);
                        assert(old_entries[j].0@ == k);
                    }
                    if has_key(old_entries, k) {
                        let j = choose|j: int|
                            0 <= j < old_entries.len() && (#[trigger] old_entries[j]).0@ == k;
                        if j == idx {
                            assert(old_entries[j].0@ == kv);
                        }
                        assert(e[j].0@ == k);
                    }
                }
            }
            assert forall|k: Seq<char>| #[trigger] m.contains_key(k) implies m[k] == om[k] by {
                let j = choose|j: int| 0 <= j < e.len() && (#[trigger] e[j]).0@ == k;
                lemma_entries_map_at(e, j);
                if k != key@ {
                    assert(j != idx);
                    assert(old_entries[j] == e[j]);
                    lemma_entries_map_at(old_entries, j);
                } else {
                    lemma_entries_map_at(e, idx);
                }
            }
            assert(m =~= om);
        }
    }

    /// The keys of the table, each once.
    pub fn keys(&self) -> (res: Vec<String>)
        ensures
            res.deep_view().no_duplicates(),
            forall|k: Seq<char>| self@.contains_key(k) <==> res.deep_view().contains(k),
    {
        proof {
            use_type_invariant(self);
        }
        let mut res: Vec<String> = Vec::new();
        let n = self.entries.len();
        for i in 0..n
            invariant
                n == self.entries@.len(),
                keys_unique(self.entries@),
                res.deep_view().len() == i,
                forall|j: int| 0 <= j < i ==> res.deep_view()[j] == (#[trigger] self.entries@[j]).0@,
        {
            res.push(self.entries[i].0.clone());
        }
        proof {
            let d = res.deep_view();
            assert forall|a: int, b: int| 0 <= a < d.len() && 0 <= b < d.len() && a != b implies d[a]
                != d[b] by {
                assert(d[a] == self.entries@[a].0@ && d[b] == self.entries@[b].0@);
            }
            assert forall|k: Seq<char>| self@.contains_key(k) <==> d.contains(k) by {
                if self@.contains_key(k) {
                    let j = choose|j: int| 0 <= j < n && (#[trigger] self.entries@[j]).0@ == k;
                    assert(d[j] == k);
                }
                if d.contains(k) {
                    let j = choose|j: int| 0 <= j < d.len() && d[j] == k;
                    assert(self.entries@[j].0@ == k);
                }
            }
        }
        res
    }
}


/// The loader's configuration.
pub struct Config {
    /// Scheduler started when the loader starts, if any.
    pub default_sched: Option<SupportedSched>,
    /// Mode used when none is asked for, if set.
    pub default_mode: Option<SchedMode>,
    /// Per-scheduler flags, keyed by full scheduler name.
    pub scheds: SchedTable,
}

impl Default for Config {
    /// A configuration that sets nothing.
    fn default() -> (res: Config)
        ensures
            res.default_sched is None,
            res.default_mode is None,
            res.scheds@ == Map::<Seq<char>, Sched>::empty(),
    {
        Config { default_sched: None, default_mode: None, scheds: SchedTable::new() }
    }
}

/// Why a configuration could not be had.
#[derive(Debug)]
pub enum ConfigError {
    /// No configuration file exists at any of the searched paths.
    NotFound,
    /// The configuration file is empty.
    Empty,
    /// The configuration file could not be read.
    Read(String),
    /// The configuration file is not valid TOML for a configuration.
    Parse(String),
}

/// The flags that a mode resolves to: the configured ones when the
/// scheduler's entry sets that mode (even to an empty list), the built-in
/// ones otherwise.
pub open spec fn scx_flags_spec(
    scheds: Map<Seq<char>, Sched>,
    sched: SupportedSched,
    mode: SchedMode,
) -> Seq<Seq<char>> {
    let key = sched_name_spec(sched);
    if scheds.contains_key(key) && scheds[key].flags_for(mode) is Some {
        scheds[key].flags_for(mode)->0
    } else {
        default_flags_spec(sched, mode)
    }
}

/// Whether a mode resolves to no flags at all; `Auto` never does.
pub open spec fn lacks_args_spec(
    scheds: Map<Seq<char>, Sched>,
    sched: SupportedSched,
    mode: SchedMode,
) -> bool {
    mode != SchedMode::Auto && scx_flags_spec(scheds, sched, mode).len() == 0
}

/// The modes that do not lack flags, in enumeration order.
pub open spec fn configured_modes_spec(scheds: Map<Seq<char>, Sched>, sched: SupportedSched) -> Seq<
    SchedMode,
> {
    all_modes_spec().filter(|m: SchedMode| !lacks_args_spec(scheds, sched, m))
}

/// The flags to run `scx_sched` with in `sched_mode`: the configured ones
/// when the configuration sets them, the built-in ones otherwise.
pub fn get_scx_flags_for_mode(config: &Config, scx_sched: &SupportedSched, sched_mode: SchedMode) -> (res: Vec<String>)
    ensures
        res.deep_view() == scx_flags_spec(config.scheds@, *scx_sched, sched_mode),
{
    let scx_name: &str = scx_sched.name();
    if let Some(sched_config) = config.scheds.get(scx_name) {
        let scx_flags = extract_scx_flags_from_config(sched_config, sched_mode);
        match scx_flags {
            Some(flags) => flags,
            None => default_flags_owned(scx_sched, sched_mode),
        }
    } else {
        default_flags_owned(scx_sched, sched_mode)
    }
}

/// Whether selecting `sched_mode` for `scx_sched` resolves to an empty
/// flag list, so the mode would not change how the scheduler runs.
/// `Auto` stands for the scheduler's own defaults and never lacks flags.
pub fn mode_lacks_args(config: &Config, scx_sched: &SupportedSched, sched_mode: SchedMode) -> (res: bool)
    ensures
        res == lacks_args_spec(config.scheds@, *scx_sched, sched_mode),
{
    if sched_mode == SchedMode::Auto {
        return false;
    }
    get_scx_flags_for_mode(config, scx_sched, sched_mode).len() == 0
}

/// The modes that resolve to a non-empty flag list for `scx_sched`, plus
/// `Auto`, in the order Auto, Gaming, PowerSave, LowLatency, Server.
pub fn get_configured_modes(config: &Config, scx_sched: &SupportedSched) -> (res: Vec<SchedMode>)
    ensures
        res@ == configured_modes_spec(config.scheds@, *scx_sched),
{
    let modes = all_modes();
    let ghost pred = |m: SchedMode| !lacks_args_spec(config.scheds@, *scx_sched, m);
    let mut res: Vec<SchedMode> = Vec::new();
    let n = modes.len();
    for i in 0..n
        invariant
            n == modes@.len(),
            modes@ == all_modes_spec(),
            pred == (|m: SchedMode| !lacks_args_spec(config.scheds@, *scx_sched, m)),
            res@ == modes@.take(i as int).filter(pred),
    {
        reveal_with_fuel(Seq::<_>::filter, 1);
        let mode = modes[i];
        assert(modes@.take(i + 1).drop_last() =~= modes@.take(i as int));
        if !mode_lacks_args(config, scx_sched, mode) {
            res.push(mode);
        }
    }
    assert(modes@.take(n as int) =~= modes@);
    res
}

/// The configuration entry of `scx_sched` that holds its built-in flags.
pub fn init_default_config_entry(scx_sched: SupportedSched) -> (res: (String, Sched))
    ensures
        res.0@ == sched_name_spec(scx_sched),
        forall|m: SchedMode| #[trigger] res.1.flags_for(m) == Some(default_flags_spec(scx_sched, m)),
{
    let default_modes = get_default_sched_for_config(&scx_sched);
    (scx_sched.name().to_owned(), default_modes)
}

/// Whether `config` is the built-in configuration: no default scheduler,
/// `Auto` as default mode, and for every supported scheduler exactly one
/// entry, holding its built-in flags for every mode.
pub open spec fn is_default_config(config: Config) -> bool {
    &&& config.default_sched is None
    &&& config.default_mode == Some(SchedMode::Auto)
    &&& forall|s: SupportedSched, m: SchedMode|
        #![trigger config.scheds@[sched_name_spec(s)].flags_for(m)]
        config.scheds@.contains_key(sched_name_spec(s)) && config.scheds@[sched_name_spec(
            s,
        )].flags_for(m) == Some(default_flags_spec(s, m))
    &&& forall|k: Seq<char>|
        #[trigger] config.scheds@.contains_key(k) ==> exists|s: SupportedSched|
            sched_name_spec(s) == k
}

/// The built-in configuration.
pub fn get_default_config() -> (res: Config)
    ensures
        is_default_config(res),
{
    let scheds = all_scheds();
    let mut table = SchedTable::new();
    let n = scheds.len();
    for i in 0..n
        invariant
            n == scheds@.len(),
            scheds@ == all_scheds_spec(),
            forall|j: int, m: SchedMode|
                #![trigger table@[sched_name_spec(scheds@[j])].flags_for(m)]
                0 <= j < i ==> table@.contains_key(sched_name_spec(scheds@[j])) && table@[sched_name_spec(
                    scheds@[j],
                )].flags_for(m) == Some(default_flags_spec(scheds@[j], m)),
            forall|k: Seq<char>|
                #[trigger] table@.contains_key(k) ==> exists|s: SupportedSched|
                    sched_name_spec(s) == k,
    {
        let (name, entry) = init_default_config_entry(scheds[i]);
        proof {
            crate::sched::lemma_sched_name_round_trip(scheds@[i as int]);
            assert forall|j: int| 0 <= j < i implies #[trigger] sched_name_spec(scheds@[j])
                != name@ by {
                crate::sched::lemma_sched_name_round_trip(scheds@[j]);
                assert(scheds@[j] != scheds@[i as int]);
            }
        }
        table.insert(name, entry);
        proof {
            let s_i = scheds@[i as int];
            assert forall|k: Seq<char>| #[trigger] table@.contains_key(k) implies exists|
                s: SupportedSched,
            | sched_name_spec(s) == k by {
                if k == sched_name_spec(s_i) {
                    assert(sched_name_spec(s_i) == k);
                }
            }
        }
    }
    proof {
        assert forall|s: SupportedSched, m: SchedMode|
            #![trigger table@[sched_name_spec(s)].flags_for(m)]
            table@.contains_key(sched_name_spec(s)) && table@[sched_name_spec(s)].flags_for(m) == Some(
                default_flags_spec(s, m),
            ) by {
            let j: int = match s {
                SupportedSched::Bpfland => 0,
                SupportedSched::Rusty => 1,
                SupportedSched::Lavd => 2,
                SupportedSched::Flash => 3,
                SupportedSched::P2DQ => 4,
                SupportedSched::Tickless => 5,
                SupportedSched::Rustland => 6,
                SupportedSched::Cosmos => 7,
                SupportedSched::Beerland => 8,
                SupportedSched::Cake => 9,
                SupportedSched::Pandemonium => 10,
                SupportedSched::Flow => 11,
                SupportedSched::Forge => 12,
            };
            assert(scheds@[j] == s);
            assert(table@[sched_name_spec(scheds@[j])].flags_for(m) == Some(
                default_flags_spec(scheds@[j], m),
            ));
        }
    }
    Config { default_sched: None, default_mode: Some(SchedMode::Auto), scheds: table }
}


/// The loader's built-in flag table, scheduler by scheduler and mode by
/// mode: `scx_lavd` in `PowerSave` runs with `--powersave`, in `Server`
/// with its longer slices, and so on; the schedulers without tuned modes
/// (`rusty`, `rustland`, `beerland`, `pandemonium`, `flash`, `flow`,
/// `forge`) run with no flags in every mode.
pub proof fn lemma_builtin_flag_table(mode: SchedMode)
    ensures
        default_flags_spec(SupportedSched::Bpfland, SchedMode::LowLatency) == seq!["-m"@, "performance"@, "-w"@],
        default_flags_spec(SupportedSched::Bpfland, SchedMode::PowerSave) == seq!["-s"@, "20000"@, "-m"@, "powersave"@, "-I"@, "100"@, "-t"@, "100"@],
        default_flags_spec(SupportedSched::Bpfland, SchedMode::Server) == seq!["-s"@, "20000"@, "-S"@],
        default_flags_spec(SupportedSched::Bpfland, SchedMode::Gaming) == seq!["-m"@, "all"@],
        default_flags_spec(SupportedSched::Bpfland, SchedMode::Auto) == seq!["-m"@, "auto"@],
        default_flags_spec(SupportedSched::Lavd, SchedMode::Gaming) == seq!["--performance"@, "--pinned-slice-us"@, "500"@],
        default_flags_spec(SupportedSched::Lavd, SchedMode::LowLatency) == seq!["--performance"@, "--pinned-slice-us"@, "500"@],
        default_flags_spec(SupportedSched::Lavd, SchedMode::PowerSave) == seq!["--powersave"@, "--pinned-slice-us"@, "500"@],
        default_flags_spec(SupportedSched::Lavd, SchedMode::Server) == seq!["--performance"@, "--slice-min-us"@, "3000"@, "--slice-max-us"@, "10000"@, "--pinned-slice-us"@, "3000"@],
        default_flags_spec(SupportedSched::Lavd, SchedMode::Auto) == seq!["--autopilot"@, "--pinned-slice-us"@, "500"@],
        default_flags_spec(SupportedSched::P2DQ, SchedMode::Gaming) == seq!["--task-slice"@, "true"@, "-f"@, "--sched-mode"@, "performance"@],
        default_flags_spec(SupportedSched::P2DQ, SchedMode::LowLatency) == seq!["-y"@, "-f"@, "--task-slice"@, "true"@],
        default_flags_spec(SupportedSched::P2DQ, SchedMode::PowerSave) == seq!["--sched-mode"@, "efficiency"@],
        default_flags_spec(SupportedSched::P2DQ, SchedMode::Server) == seq!["--keep-running"@],
        default_flags_spec(SupportedSched::P2DQ, SchedMode::Auto) == seq!["--sched-mode"@, "default"@],
        default_flags_spec(SupportedSched::Tickless, SchedMode::Gaming) == seq!["-f"@, "5000"@, "-s"@, "5000"@],
        default_flags_spec(SupportedSched::Tickless, SchedMode::LowLatency) == seq!["-f"@, "5000"@, "-s"@, "1000"@],
        default_flags_spec(SupportedSched::Tickless, SchedMode::PowerSave) == seq!["-f"@, "50"@],
        default_flags_spec(SupportedSched::Tickless, SchedMode::Server) == seq!["-f"@, "100"@],
        default_flags_spec(SupportedSched::Tickless, SchedMode::Auto) == Seq::<Seq<char>>::empty(),
        default_flags_spec(SupportedSched::Cosmos, SchedMode::Gaming) == seq!["-s"@, "700"@],
        default_flags_spec(SupportedSched::Cosmos, SchedMode::LowLatency) == seq!["-s"@, "700"@, "-m"@, "performance"@, "-w"@],
        default_flags_spec(SupportedSched::Cosmos, SchedMode::PowerSave) == seq!["-m"@, "powersave"@],
        default_flags_spec(SupportedSched::Cosmos, SchedMode::Server) == Seq::<Seq<char>>::empty(),
        default_flags_spec(SupportedSched::Cosmos, SchedMode::Auto) == Seq::<Seq<char>>::empty(),
        default_flags_spec(SupportedSched::Cake, SchedMode::Gaming) == seq!["--profile"@, "gaming"@],
        default_flags_spec(SupportedSched::Cake, SchedMode::Server) == seq!["--profile"@, "gaming"@],
        default_flags_spec(SupportedSched::Cake, SchedMode::LowLatency) == seq!["--profile"@, "esports"@],
        default_flags_spec(SupportedSched::Cake, SchedMode::PowerSave) == seq!["--profile"@, "battery"@],
        default_flags_spec(SupportedSched::Cake, SchedMode::Auto) == seq!["--profile"@, "default"@],
        default_flags_spec(SupportedSched::Rusty, mode).len() == 0,
        default_flags_spec(SupportedSched::Rustland, mode).len() == 0,
        default_flags_spec(SupportedSched::Beerland, mode).len() == 0,
        default_flags_spec(SupportedSched::Pandemonium, mode).len() == 0,
        default_flags_spec(SupportedSched::Flash, mode).len() == 0,
        default_flags_spec(SupportedSched::Flow, mode).len() == 0,
        default_flags_spec(SupportedSched::Forge, mode).len() == 0,
{
}

/// Power saving never asks for performance: no scheduler's built-in
/// `PowerSave` flags hold `--performance` or `performance`, and every
/// scheduler with tuned modes names its power-saving setting there
/// (`powersave`, `--powersave`, `efficiency`, `battery`, or `scx_tickless`'s
/// slowest tick).
pub proof fn lemma_powersave_flags_save_power(sched: SupportedSched)
    ensures
        !default_flags_spec(sched, SchedMode::PowerSave).contains("--performance"@),
        !default_flags_spec(sched, SchedMode::PowerSave).contains("performance"@),
        default_flags_spec(SupportedSched::Bpfland, SchedMode::PowerSave).contains("powersave"@),
        default_flags_spec(SupportedSched::Lavd, SchedMode::PowerSave).contains("--powersave"@),
        default_flags_spec(SupportedSched::P2DQ, SchedMode::PowerSave).contains("efficiency"@),
        default_flags_spec(SupportedSched::Cosmos, SchedMode::PowerSave).contains("powersave"@),
        default_flags_spec(SupportedSched::Cake, SchedMode::PowerSave).contains("battery"@),
{
    lemma_builtin_flag_table(SchedMode::PowerSave);
    reveal_strlit("--performance");
    reveal_strlit("performance");
    reveal_strlit("-s");
    reveal_strlit("20000");
    reveal_strlit("-m");
    reveal_strlit("powersave");
    reveal_strlit("-I");
    reveal_strlit("100");
    reveal_strlit("-t");
    reveal_strlit("--powersave");
    reveal_strlit("--pinned-slice-us");
    reveal_strlit("500");
    reveal_strlit("--sched-mode");
    reveal_strlit("efficiency");
    reveal_strlit("-f");
    reveal_strlit("50");
    reveal_strlit("--profile");
    reveal_strlit("battery");
    let ps = default_flags_spec(sched, SchedMode::PowerSave);
    assert forall|i: int| 0 <= i < ps.len() implies ps[i] != "--performance"@ && ps[i] != "performance"@ by {
        // Each differs from both in its length, or starts with `-`.
        assert(ps[i].len() != 11 || ps[i][0] == '-');
    }
    assert(default_flags_spec(SupportedSched::Bpfland, SchedMode::PowerSave)[3] == "powersave"@);
    assert(default_flags_spec(SupportedSched::Lavd, SchedMode::PowerSave)[0] == "--powersave"@);
    assert(default_flags_spec(SupportedSched::P2DQ, SchedMode::PowerSave)[1] == "efficiency"@);
    assert(default_flags_spec(SupportedSched::Cosmos, SchedMode::PowerSave)[1] == "powersave"@);
    assert(default_flags_spec(SupportedSched::Cake, SchedMode::PowerSave)[1] == "battery"@);
}

/// The built-in configuration resolves every scheduler and mode to its
/// built-in flags.
pub proof fn lemma_default_config_resolves_to_builtin_flags(config: Config)
    requires
        is_default_config(config),
    ensures
        forall|s: SupportedSched, m: SchedMode|
            #[trigger] scx_flags_spec(config.scheds@, s, m) == default_flags_spec(s, m),
{
    assert forall|s: SupportedSched, m: SchedMode|
        #[trigger] scx_flags_spec(config.scheds@, s, m) == default_flags_spec(s, m) by {
        assert(config.scheds@.contains_key(sched_name_spec(s)) && config.scheds@[sched_name_spec(
            s,
        )].flags_for(m) == Some(default_flags_spec(s, m)));
    }
}

/// Every mode occurs in the enumeration order exactly once.
pub proof fn lemma_all_modes_complete(m: SchedMode)
    ensures
        all_modes_spec().contains(m),
        all_modes_spec().no_duplicates(),
{
    let a = all_modes_spec();
    match m {
        SchedMode::Auto => assert(a[0] == m),
        SchedMode::Gaming => assert(a[1] == m),
        SchedMode::PowerSave => assert(a[2] == m),
        SchedMode::LowLatency => assert(a[3] == m),
        SchedMode::Server => assert(a[4] == m),
    }
}

/// A mode is listed as configured exactly when it does not lack flags;
/// in particular `Auto` is always listed, and no mode is listed twice.
pub proof fn lemma_configured_modes_are_those_with_flags(
    scheds: Map<Seq<char>, Sched>,
    sched: SupportedSched,
)
    ensures
        forall|m: SchedMode|
            #[trigger] configured_modes_spec(scheds, sched).contains(m) <==> !lacks_args_spec(
                scheds,
                sched,
                m,
            ),
        configured_modes_spec(scheds, sched).contains(SchedMode::Auto),
        configured_modes_spec(scheds, sched).no_duplicates(),
{
    let pred = |m: SchedMode| !lacks_args_spec(scheds, sched, m);
    let a = all_modes_spec();
    let f = a.filter(pred);
    assert forall|m: SchedMode| #[trigger] f.contains(m) <==> pred(m) by {
        lemma_all_modes_complete(m);
        if pred(m) {
            let i = choose|i: int| 0 <= i < a.len() && a[i] == m;
            a.lemma_filter_contains(pred, i);
        }
        if f.contains(m) {
            let i = choose|i: int| 0 <= i < f.len() && f[i] == m;
            a.lemma_filter_pred(pred, i);
        }
    }
    lemma_all_modes_complete(SchedMode::Auto);
    assert(pred(SchedMode::Auto));
    reveal_with_fuel(Seq::<_>::filter, 6);
    assert(a.take(5) =~= a);
}

/// Where the loader looks for its configuration file, in order.
pub open spec fn config_path_candidates_spec(vendordir: Seq<char>) -> Seq<Seq<char>> {
    seq![
        "/etc/scx_loader/config.toml"@,
        "/etc/scx_loader.toml"@,
        vendordir + "/scx_loader/config.toml"@,
        vendordir + "/scx_loader.toml"@,
    ]
}

/// The vendor data directory: the one configured at build time, or
/// `/usr/share`.
pub fn vendor_dir_or_default(configured: Option<&'static str>) -> (res: &'static str)
    ensures
        res@ == match configured {
            Some(d) => d@,
            None => "/usr/share"@,
        },
{
    match configured {
        Some(d) => d,
        None => "/usr/share",
    }
}

/// The paths searched for the configuration file, in order: the two
/// user locations under `/etc`, then the two distribution locations under
/// `vendordir`.
pub fn config_path_candidates(vendordir: &str) -> (res: Vec<String>)
    ensures
        res.deep_view() == config_path_candidates_spec(vendordir@),
{
    let mut third = vendordir.to_owned();
    third.append("/scx_loader/config.toml");
    let mut fourth = vendordir.to_owned();
    fourth.append("/scx_loader.toml");
    let res = vec!["/etc/scx_loader/config.toml".to_owned(), "/etc/scx_loader.toml".to_owned(), third, fourth];
    assert(res.deep_view() =~= config_path_candidates_spec(vendordir@));
    res
}

/// The first of `candidates` that exists (`present` tells which do), or
/// `ConfigError::NotFound` when none does.
pub fn get_config_path(candidates: &Vec<String>, present: &Vec<bool>) -> (res: Result<
    String,
    ConfigError,
>)
    requires
        candidates.len() == present.len(),
    ensures
        match res {
            Ok(path) => exists|i: int|
                0 <= i < present.len() && present[i] && (forall|j: int|
                    0 <= j < i ==> !#[trigger] present[j]) && path@ == candidates[i]@,
            Err(e) => e is NotFound && forall|j: int| 0 <= j < present.len() ==> !#[trigger] present[j],
        },
{
    let n = candidates.len();
    for i in 0..n
        invariant
            n == candidates.len(),
            n == present.len(),
            forall|j: int| 0 <= j < i ==> !#[trigger] present[j],
    {
        if present[i] {
            let path = candidates[i].clone();
            assert(present[i as int]);
            return Ok(path);
        }
    }
    Err(ConfigError::NotFound)
}

/// Refuses empty configuration text before it is parsed.
pub fn check_config_content(file_content: &str) -> (res: Result<(), ConfigError>)
    ensures
        res is Ok <==> file_content@.len() > 0,
        res matches Err(e) ==> e is Empty,
{
    if file_content.is_empty() {
        Err(ConfigError::Empty)
    } else {
        Ok(())
    }
}

/// The configuration to run with: what was loaded from the file found
/// (`Some`), or the built-in configuration when no file was found (`None`).
pub fn init_config(loaded: Option<Result<Config, ConfigError>>) -> (res: Result<Config, ConfigError>)
    ensures
        match loaded {
            Some(r) => res == r,
            None => res matches Ok(c) && is_default_config(c),
        },
{
    match loaded {
        Some(r) => r,
        None => Ok(get_default_config()),
    }
}


/// The default scheduler a configuration file names: none when the
/// setting is absent or empty, the scheduler when it is a full scheduler
/// name, and `Err(())` for any other text.
pub fn default_sched_from_setting(setting: Option<&str>) -> (res: Result<Option<SupportedSched>, ()>)
    ensures
        match setting {
            None => res == Ok::<Option<SupportedSched>, ()>(None),
            Some(s) => if s@.len() == 0 {
                res == Ok::<Option<SupportedSched>, ()>(None)
            } else {
                res == match sched_of_name_spec(s@) {
                    Some(x) => Ok(Some(x)),
                    None => Err(()),
                }
            },
        },
{
    match setting {
        None => Ok(None),
        Some(s) => if s.is_empty() {
            Ok(None)
        } else {
            match SupportedSched::from_name(s) {
                Some(x) => Ok(Some(x)),
                None => Err(()),
            }
        },
    }
}

/// The default mode a configuration file names: none when absent, the
/// mode when it is a mode name (`"Auto"`, ...), and `Err(())` otherwise.
pub fn default_mode_from_setting(setting: Option<&str>) -> (res: Result<Option<SchedMode>, ()>)
    ensures
        match setting {
            None => res == Ok::<Option<SchedMode>, ()>(None),
            Some(s) => match res {
                Ok(Some(m)) => mode_name_spec(m) == s@,
                Ok(None) => false,
                Err(_) => forall|m: SchedMode| mode_name_spec(m) != s@,
            },
        },
{
    match setting {
        None => Ok(None),
        Some(s) => match SchedMode::from_name(s) {
            Some(m) => Ok(Some(m)),
            None => Err(()),
        },
    }
}

/// `Auto` stands for the scheduler's own defaults and never lacks flags,
/// whatever the configuration says.
pub proof fn lemma_auto_never_lacks_args(scheds: Map<Seq<char>, Sched>, sched: SupportedSched)
    ensures
        !lacks_args_spec(scheds, sched, SchedMode::Auto),
{
}

} // verus!
