//! Mathematical model of the record store and of each of its operations.

use vstd::prelude::*;

verus! {

/// Why a store operation did not go through.
#[derive(Debug, Clone, Copy, PartialEq, Eq, Structural)]
pub enum StoreError {
    /// No executable or configuration is registered under the given key.
    NotFound,
    /// A configuration of that name is already registered.
    AlreadyExists,
    /// Persisted parts do not describe a well-formed store.
    CorruptData,
    /// The process launcher reported a failure.
    LaunchFailed,
}

/// An executable record: its display name, its keyword and how often it was launched.
pub struct ExecutableView {
    pub name: Seq<char>,
    pub keyword: Seq<char>,
    pub times_opened: nat,
}

/// A configuration: its name and the keywords of its members, in launch order.
pub struct ConfigurationView {
    pub name: Seq<char>,
    pub executables: Seq<Seq<char>>,
}

/// The whole store: the maintained executable counter and both record lists.
pub struct StoreView {
    pub num_executables: nat,
    pub executables: Seq<ExecutableView>,
    pub configurations: Seq<ConfigurationView>,
}

pub open spec fn has_executable(s: Seq<ExecutableView>, k: Seq<char>) -> bool {
    exists|i: int| 0 <= i < s.len() && s[i].keyword == k
}

/// Position of the record with keyword `k` (meaningful when there is one).
pub open spec fn executable_pos(s: Seq<ExecutableView>, k: Seq<char>) -> int {
    choose|i: int| 0 <= i < s.len() && s[i].keyword == k
}

pub open spec fn has_configuration(s: Seq<ConfigurationView>, n: Seq<char>) -> bool {
    exists|i: int| 0 <= i < s.len() && s[i].name == n
}

pub open spec fn configuration_pos(s: Seq<ConfigurationView>, n: Seq<char>) -> int {
    choose|i: int| 0 <= i < s.len() && s[i].name == n
}

pub open spec fn keywords_unique(s: Seq<ExecutableView>) -> bool {
    forall|i: int, j: int| 0 <= i < s.len() && 0 <= j < s.len() && i != j ==> s[i].keyword != s[j].keyword
}

pub open spec fn names_unique(s: Seq<ConfigurationView>) -> bool {
    forall|i: int, j: int| 0 <= i < s.len() && 0 <= j < s.len() && i != j ==> s[i].name != s[j].name
}

/// Keys are unique and the counter equals the number of executables.
pub open spec fn valid_store(v: StoreView) -> bool {
    &&& keywords_unique(v.executables)
    &&& names_unique(v.configurations)
    &&& v.num_executables == v.executables.len()
}

pub open spec fn empty_store() -> StoreView {
    StoreView { num_executables: 0, executables: Seq::empty(), configurations: Seq::empty() }
}

/// Registers `name` under `keyword` with a zero launch count, replacing any
/// record that held the keyword before.
pub open spec fn add_executable_spec(v: StoreView, name: Seq<char>, keyword: Seq<char>) -> StoreView {
    let rec = ExecutableView { name, keyword, times_opened: 0 };
    if has_executable(v.executables, keyword) {
        StoreView {
            executables: v.executables.update(executable_pos(v.executables, keyword), rec),
            ..v
        }
    } else {
        StoreView {
            num_executables: v.num_executables + 1,
            executables: v.executables.push(rec),
            ..v
        }
    }
}

/// Removes the record with `keyword`; `NotFound` where there is none.
pub open spec fn remove_executable_spec(v: StoreView, keyword: Seq<char>) -> Result<StoreView, StoreError> {
    if has_executable(v.executables, keyword) {
        Ok(StoreView {
            num_executables: (v.num_executables - 1) as nat,
            executables: v.executables.remove(executable_pos(v.executables, keyword)),
            ..v
        })
    } else {
        Err(StoreError::NotFound)
    }
}

/// Records a launch of `keyword` whose launcher reported `launched`.
pub open spec fn launch_executable_spec(v: StoreView, keyword: Seq<char>, launched: bool) -> Result<StoreView, StoreError> {
    if !has_executable(v.executables, keyword) {
        Err(StoreError::NotFound)
    } else if !launched {
        Err(StoreError::LaunchFailed)
    } else {
        let i = executable_pos(v.executables, keyword);
        let rec = v.executables[i];
        Ok(StoreView {
            executables: v.executables.update(i, ExecutableView { times_opened: rec.times_opened + 1, ..rec }),
            ..v
        })
    }
}

/// Registers a configuration under a new name; `AlreadyExists` where the
/// name is taken, which keeps the registered one.
pub open spec fn add_configuration_spec(v: StoreView, name: Seq<char>, members: Seq<Seq<char>>) -> Result<StoreView, StoreError> {
    if has_configuration(v.configurations, name) {
        Err(StoreError::AlreadyExists)
    } else {
        Ok(StoreView {
            configurations: v.configurations.push(ConfigurationView { name, executables: members }),
            ..v
        })
    }
}

/// Registers a configuration, replacing the one of the same name.
pub open spec fn replace_configuration_spec(v: StoreView, name: Seq<char>, members: Seq<Seq<char>>) -> StoreView {
    let c = ConfigurationView { name, executables: members };
    if has_configuration(v.configurations, name) {
        StoreView { configurations: v.configurations.update(configuration_pos(v.configurations, name), c), ..v }
    } else {
        StoreView { configurations: v.configurations.push(c), ..v }
    }
}

/// Removes the configuration called `name`; `NotFound` where there is none.
pub open spec fn remove_configuration_spec(v: StoreView, name: Seq<char>) -> Result<StoreView, StoreError> {
    if has_configuration(v.configurations, name) {
        Ok(StoreView {
            configurations: v.configurations.remove(configuration_pos(v.configurations, name)),
            ..v
        })
    } else {
        Err(StoreError::NotFound)
    }
}

/// Members of the configuration called `name` (meaningful when there is one).
pub open spec fn members_of(v: StoreView, name: Seq<char>) -> Seq<Seq<char>> {
    v.configurations[configuration_pos(v.configurations, name)].executables
}

/// What launching configuration `name` does once `launched` members have been
/// launched: `Some(k)` launches member `k` next, `None` means all are done, and
/// a missing configuration or next member is `NotFound`.
pub open spec fn launch_step(v: StoreView, name: Seq<char>, launched: nat) -> Result<Option<Seq<char>>, StoreError> {
    if !has_configuration(v.configurations, name) {
        Err(StoreError::NotFound)
    } else if launched >= members_of(v, name).len() {
        Ok(None)
    } else if !has_executable(v.executables, members_of(v, name)[launched as int]) {
        Err(StoreError::NotFound)
    } else {
        Ok(Some(members_of(v, name)[launched as int]))
    }
}

/// Executable records as persisted: each under its own keyword.
pub open spec fn keyed_executables(s: Seq<ExecutableView>) -> Seq<(Seq<char>, ExecutableView)> {
    s.map_values(|e: ExecutableView| (e.keyword, e))
}

/// Configurations as persisted: each under its own name.
pub open spec fn keyed_configurations(s: Seq<ConfigurationView>) -> Seq<(Seq<char>, ConfigurationView)> {
    s.map_values(|c: ConfigurationView| (c.name, c))
}

/// The store that persisted parts describe: `CorruptData` unless every record
/// sits under its own key, keys are unique and the counter is the number of
/// executables.
pub open spec fn decode_store(
    num: nat,
    execs: Seq<(Seq<char>, ExecutableView)>,
    configs: Seq<(Seq<char>, ConfigurationView)>,
) -> Result<StoreView, StoreError> {
    let v = StoreView {
        num_executables: num,
        executables: execs.map_values(|p: (Seq<char>, ExecutableView)| p.1),
        configurations: configs.map_values(|p: (Seq<char>, ConfigurationView)| p.1),
    };
    if (forall|i: int| 0 <= i < execs.len() ==> #[trigger] execs[i].0 == execs[i].1.keyword)
        && (forall|i: int| 0 <= i < configs.len() ==> #[trigger] configs[i].0 == configs[i].1.name)
        && valid_store(v) {
        Ok(v)
    } else {
        Err(StoreError::CorruptData)
    }
}

} // verus!
