use keyword_launcher::model::StoreError;
use keyword_launcher::store::{Configuration, ExecutableData, FileData};

fn names(v: &[&str]) -> Vec<String> {
    v.iter().map(|s| s.to_string()).collect()
}

/// Runs a configuration launch the way the command line does, with a
/// launcher that always succeeds; returns the display names handed to it.
fn run_configuration(store: &mut FileData, name: &str) -> (Vec<String>, Result<(), StoreError>) {
    let mut launched_names = Vec::new();
    let mut launched: usize = 0;
    loop {
        match store.launch_configuration(name, launched) {
            Err(e) => return (launched_names, Err(e)),
            Ok(None) => return (launched_names, Ok(())),
            Ok(Some(keyword)) => {
                let display = store.executable_name(&keyword).unwrap();
                launched_names.push(display);
                store.launch_executable(&keyword, true).unwrap();
                launched += 1;
            }
        }
    }
}

#[test]
fn new_store_is_empty() {
    let store = FileData::new();
    assert_eq!(store.num_executables(), 0);
    assert!(store.list_executables().is_empty());
    assert!(store.list_configurations().is_empty());
}

#[test]
fn add_launch_remove_scenario() {
    let mut store = FileData::new();
    assert_eq!(store.add_executable("notepad.lnk", "n"), None);
    assert_eq!(store.num_executables(), 1);
    assert_eq!(store.executable_name("n"), Ok("notepad.lnk".to_string()));
    store.launch_executable("n", true).unwrap();
    assert_eq!(store.num_times_opened("n"), Ok(1));
    assert_eq!(store.remove_executable("n"), Ok("notepad.lnk".to_string()));
    assert_eq!(store.num_executables(), 0);
    assert_eq!(store.executable_name("n"), Err(StoreError::NotFound));
    assert_eq!(store.launch_executable("n", true), Err(StoreError::NotFound));
}

#[test]
fn configuration_with_missing_member_scenario() {
    let mut store = FileData::new();
    store.add_executable("notepad.lnk", "n");
    assert_eq!(store.add_configuration("work", names(&["n", "e"])), Ok(()));
    let (launched, result) = run_configuration(&mut store, "work");
    assert_eq!(launched, vec!["notepad.lnk".to_string()]);
    assert_eq!(result, Err(StoreError::NotFound));
    assert_eq!(store.num_times_opened("n"), Ok(1));
}

#[test]
fn add_new_keyword_counts_and_launches() {
    let mut store = FileData::new();
    store.add_executable("a.lnk", "a");
    assert_eq!(store.num_executables(), 1);
    store.add_executable("b.lnk", "b");
    assert_eq!(store.num_executables(), 2);
    assert_eq!(store.launch_executable("b", true), Ok(()));
    assert_eq!(store.num_times_opened("b"), Ok(1));
    assert_eq!(store.num_times_opened("a"), Ok(0));
}

#[test]
fn add_existing_keyword_replaces_record() {
    let mut store = FileData::new();
    store.add_executable("old.lnk", "k");
    store.launch_executable("k", true).unwrap();
    assert_eq!(store.add_executable("new.lnk", "k"), Some("old.lnk".to_string()));
    assert_eq!(store.num_executables(), 1);
    assert_eq!(store.executable_name("k"), Ok("new.lnk".to_string()));
    assert_eq!(store.num_times_opened("k"), Ok(0));
    let list = store.list_executables();
    assert_eq!(list.len(), 1);
    assert_eq!(list[0].name, "new.lnk");
}

#[test]
fn remove_missing_keyword_leaves_store() {
    let mut store = FileData::new();
    store.add_executable("a.lnk", "a");
    assert_eq!(store.remove_executable("zzz"), Err(StoreError::NotFound));
    assert_eq!(store.num_executables(), 1);
    assert_eq!(store.executable_name("a"), Ok("a.lnk".to_string()));
}

#[test]
fn failed_launch_is_reported_and_not_counted() {
    let mut store = FileData::new();
    store.add_executable("a.lnk", "a");
    assert_eq!(store.launch_executable("a", false), Err(StoreError::LaunchFailed));
    assert_eq!(store.num_times_opened("a"), Ok(0));
}

#[test]
fn configuration_launches_in_stored_order() {
    let mut store = FileData::new();
    store.add_executable("x.lnk", "x");
    store.add_executable("y.lnk", "y");
    store.add_executable("z.lnk", "z");
    store.add_configuration("all", names(&["z", "x", "y", "x"])).unwrap();
    let (launched, result) = run_configuration(&mut store, "all");
    assert_eq!(result, Ok(()));
    assert_eq!(launched, names(&["z.lnk", "x.lnk", "y.lnk", "x.lnk"]));
    assert_eq!(store.num_times_opened("x"), Ok(2));
    assert_eq!(store.launch_configuration("all", 4), Ok(None));
}

#[test]
fn configuration_stops_at_first_missing_member() {
    let mut store = FileData::new();
    store.add_executable("x.lnk", "x");
    store.add_executable("y.lnk", "y");
    store.add_configuration("c", names(&["x", "gone", "y"])).unwrap();
    let (launched, result) = run_configuration(&mut store, "c");
    assert_eq!(result, Err(StoreError::NotFound));
    assert_eq!(launched, names(&["x.lnk"]));
    assert_eq!(store.num_times_opened("y"), Ok(0));
}

#[test]
fn missing_configuration_is_not_found() {
    let store = FileData::new();
    assert_eq!(store.launch_configuration("nope", 0), Err(StoreError::NotFound));
}

#[test]
fn removed_executable_dangles_in_configuration() {
    let mut store = FileData::new();
    store.add_executable("x.lnk", "x");
    store.add_configuration("c", names(&["x"])).unwrap();
    store.remove_executable("x").unwrap();
    assert_eq!(store.launch_configuration("c", 0), Err(StoreError::NotFound));
}

#[test]
fn duplicate_configuration_conflicts_until_replaced() {
    let mut store = FileData::new();
    store.add_configuration("w", names(&["a"])).unwrap();
    assert_eq!(store.add_configuration("w", names(&["b"])), Err(StoreError::AlreadyExists));
    assert_eq!(store.list_configurations()[0].executables, names(&["a"]));
    assert!(store.replace_configuration("w", names(&["b", "c"])));
    let configs = store.list_configurations();
    assert_eq!(configs.len(), 1);
    assert_eq!(configs[0].executables, names(&["b", "c"]));
    assert!(!store.replace_configuration("v", names(&["d"])));
    assert_eq!(store.list_configurations().len(), 2);
}

#[test]
fn remove_configuration_found_and_missing() {
    let mut store = FileData::new();
    store.add_configuration("w", names(&["a"])).unwrap();
    assert_eq!(store.remove_configuration("q"), Err(StoreError::NotFound));
    assert_eq!(store.remove_configuration("w"), Ok(()));
    assert!(store.list_configurations().is_empty());
}

#[test]
fn parts_round_trip() {
    let mut store = FileData::new();
    store.add_executable("a.lnk", "a");
    store.add_executable("b.lnk", "b");
    store.launch_executable("b", true).unwrap();
    store.add_configuration("w", names(&["b", "a"])).unwrap();
    let execs = store.executable_entries();
    let configs = store.configuration_entries();
    assert_eq!(execs.len(), 2);
    assert_eq!(execs[1].0, "b");
    assert_eq!(execs[1].1.num_times_opened, 1);
    assert_eq!(configs[0].0, "w");
    let back = FileData::from_parts(store.num_executables(), &execs, &configs).unwrap();
    assert_eq!(back.num_executables(), 2);
    assert_eq!(back.num_times_opened("b"), Ok(1));
    assert_eq!(back.executable_name("a"), Ok("a.lnk".to_string()));
    assert_eq!(back.list_configurations()[0].executables, names(&["b", "a"]));
    assert_eq!(back.list_configurations()[0].name, "w");
}

#[test]
fn corrupt_parts_are_refused() {
    let rec = |n: &str, k: &str| ExecutableData::new(n, k);
    let ok = vec![("a".to_string(), rec("a.lnk", "a"))];
    assert!(FileData::from_parts(1, &ok, &vec![]).is_ok());
    assert_eq!(FileData::from_parts(2, &ok, &vec![]).unwrap_err(), StoreError::CorruptData);
    let wrong_key = vec![("b".to_string(), rec("a.lnk", "a"))];
    assert_eq!(FileData::from_parts(1, &wrong_key, &vec![]).unwrap_err(), StoreError::CorruptData);
    let dup = vec![("a".to_string(), rec("a.lnk", "a")), ("a".to_string(), rec("b.lnk", "a"))];
    assert_eq!(FileData::from_parts(2, &dup, &vec![]).unwrap_err(), StoreError::CorruptData);
    let conf = |n: &str| Configuration::new(n, vec![]);
    let dup_conf = vec![("w".to_string(), conf("w")), ("w".to_string(), conf("w"))];
    assert_eq!(FileData::from_parts(1, &ok, &dup_conf).unwrap_err(), StoreError::CorruptData);
    let wrong_conf = vec![("v".to_string(), conf("w"))];
    assert_eq!(FileData::from_parts(1, &ok, &wrong_conf).unwrap_err(), StoreError::CorruptData);
}

#[test]
fn executable_record_helpers() {
    let mut e = ExecutableData::new("a.lnk", "a");
    assert_eq!(e.num_times_opened, 0);
    e.increment_num_times_opened();
    let d = e.duplicate();
    assert_eq!((d.name.as_str(), d.keyword.as_str(), d.num_times_opened), ("a.lnk", "a", 1));
}
