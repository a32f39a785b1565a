//! Properties that relate several operations of the store.

use vstd::prelude::*;
use crate::model::{
    StoreError, StoreView, has_executable, executable_pos, has_configuration, valid_store,
    add_executable_spec, remove_executable_spec, launch_executable_spec, members_of, launch_step,
    keyed_executables, keyed_configurations, decode_store, ExecutableView, ConfigurationView,
};

verus! {

/// Persisting a well-formed store, each record under its own key, and
/// decoding the parts again gives back the same store, counter included.
pub proof fn lemma_round_trip(v: StoreView)
    requires
        valid_store(v),
    ensures
        decode_store(v.num_executables, keyed_executables(v.executables), keyed_configurations(v.configurations))
            == Ok::<StoreView, StoreError>(v),
{
    let execs = keyed_executables(v.executables);
    let configs = keyed_configurations(v.configurations);
    assert(execs.map_values(|p: (Seq<char>, ExecutableView)| p.1) =~= v.executables);
    assert(configs.map_values(|p: (Seq<char>, ConfigurationView)| p.1) =~= v.configurations);
    assert(forall|i: int| 0 <= i < execs.len() ==> #[trigger] execs[i].0 == execs[i].1.keyword);
    assert(forall|i: int| 0 <= i < configs.len() ==> #[trigger] configs[i].0 == configs[i].1.name);
}

/// Adding an executable under an unused keyword grows the counter by one, and
/// a successful launch of that keyword is then recorded.
pub proof fn lemma_add_new_keyword(v: StoreView, name: Seq<char>, keyword: Seq<char>)
    requires
        valid_store(v),
        !has_executable(v.executables, keyword),
    ensures
        add_executable_spec(v, name, keyword).num_executables == v.num_executables + 1,
        valid_store(add_executable_spec(v, name, keyword)),
        has_executable(add_executable_spec(v, name, keyword).executables, keyword),
        launch_executable_spec(add_executable_spec(v, name, keyword), keyword, true).is_ok(),
{
    let w = add_executable_spec(v, name, keyword);
    let n = v.executables.len() as int;
    assert(w.executables[n].keyword == keyword);
}

/// Adding an executable under a keyword in use replaces its record: the counter
/// stays, and every record under that keyword carries the new display name.
pub proof fn lemma_add_existing_keyword(v: StoreView, name: Seq<char>, keyword: Seq<char>)
    requires
        valid_store(v),
        has_executable(v.executables, keyword),
    ensures
        add_executable_spec(v, name, keyword).num_executables == v.num_executables,
        has_executable(add_executable_spec(v, name, keyword).executables, keyword),
        forall|i: int|
            0 <= i < add_executable_spec(v, name, keyword).executables.len()
                && (#[trigger] add_executable_spec(v, name, keyword).executables[i]).keyword == keyword
                ==> add_executable_spec(v, name, keyword).executables[i].name == name,
{
    let w = add_executable_spec(v, name, keyword);
    let p = executable_pos(v.executables, keyword);
    assert(w.executables[p].keyword == keyword);
    assert forall|i: int| 0 <= i < w.executables.len() && (#[trigger] w.executables[i]).keyword == keyword implies
        w.executables[i].name == name by {
        if i != p {
            assert(v.executables[i].keyword != v.executables[p].keyword);
        }
    };
}

/// Removing a keyword that no executable holds fails with `NotFound`.
pub proof fn lemma_remove_missing(v: StoreView, keyword: Seq<char>)
    requires
        !has_executable(v.executables, keyword),
    ensures
        remove_executable_spec(v, keyword) == Err::<StoreView, StoreError>(StoreError::NotFound),
{
}

/// Launching a configuration goes through its members in stored order and
/// stops with `NotFound` at the first member that resolves to no executable:
/// `missing` is that member's position, or the member count where all resolve.
pub proof fn lemma_configuration_launch_order(v: StoreView, name: Seq<char>, missing: nat)
    requires
        has_configuration(v.configurations, name),
        missing <= members_of(v, name).len(),
        forall|j: int| 0 <= j < missing ==> has_executable(v.executables, #[trigger] members_of(v, name)[j]),
        missing < members_of(v, name).len() ==> !has_executable(v.executables, members_of(v, name)[missing as int]),
    ensures
        forall|j: nat| j < missing ==> #[trigger] launch_step(v, name, j)
            == Ok::<Option<Seq<char>>, StoreError>(Some(members_of(v, name)[j as int])),
        missing < members_of(v, name).len() ==> launch_step(v, name, missing)
            == Err::<Option<Seq<char>>, StoreError>(StoreError::NotFound),
        missing == members_of(v, name).len() ==> launch_step(v, name, missing)
            == Ok::<Option<Seq<char>>, StoreError>(None),
{
}

/// Recording a launch leaves every later step of every configuration launch
/// as it was.
pub proof fn lemma_launch_keeps_steps(v: StoreView, keyword: Seq<char>, name: Seq<char>, launched: nat)
    requires
        launch_executable_spec(v, keyword, true).is_ok(),
    ensures
        launch_step(launch_executable_spec(v, keyword, true).unwrap(), name, launched) == launch_step(v, name, launched),
{
    let w = launch_executable_spec(v, keyword, true).unwrap();
    let p = executable_pos(v.executables, keyword);
    assert(w.configurations == v.configurations);
    assert forall|k: Seq<char>| has_executable(w.executables, k) == has_executable(v.executables, k) by {
        if has_executable(v.executables, k) {
            let i = choose|i: int| 0 <= i < v.executables.len() && v.executables[i].keyword == k;
            assert(w.executables[i].keyword == k);
        }
        if has_executable(w.executables, k) {
            let i = choose|i: int| 0 <= i < w.executables.len() && w.executables[i].keyword == k;
            assert(v.executables[i].keyword == k);
        }
    };
}

} // verus!
