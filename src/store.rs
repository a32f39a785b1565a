//! The executable record store.

use vstd::prelude::*;
use crate::model::{
    StoreError, ExecutableView, ConfigurationView, StoreView, has_executable, executable_pos,
    keywords_unique, valid_store, empty_store, add_executable_spec, remove_executable_spec,
    launch_executable_spec, has_configuration, configuration_pos, names_unique,
    add_configuration_spec, replace_configuration_spec, remove_configuration_spec, launch_step,
    decode_store, keyed_executables, keyed_configurations,
};

verus! {

/// An executable registered under a keyword.
#[derive(Debug)]
pub struct ExecutableData {
    pub name: String,
    pub keyword: String,
    pub num_times_opened: u16,
}

impl View for ExecutableData {
    type V = ExecutableView;

    open spec fn view(&self) -> ExecutableView {
        ExecutableView { name: self.name@, keyword: self.keyword@, times_opened: self.num_times_opened as nat }
    }
}

impl ExecutableData {
    pub fn new(executable_name: &str, executable_keyword: &str) -> (r: ExecutableData)
        ensures
            r@ == (ExecutableView { name: executable_name@, keyword: executable_keyword@, times_opened: 0 }),
    {
        ExecutableData {
            name: executable_name.to_owned(),
            keyword: executable_keyword.to_owned(),
            num_times_opened: 0,
        }
    }

    pub fn increment_num_times_opened(&mut self)
        requires
            old(self).num_times_opened < u16::MAX,
        ensures
            final(self)@ == (ExecutableView { times_opened: old(self)@.times_opened + 1, ..old(self)@ }),
    {
        self.num_times_opened = self.num_times_opened + 1;
    }

    /// A field-for-field copy.
    pub fn duplicate(&self) -> (r: ExecutableData)
        ensures
            r@ == self@,
    {
        ExecutableData {
            name: self.name.clone(),
            keyword: self.keyword.clone(),
            num_times_opened: self.num_times_opened,
        }
    }
}

/// A named group of keywords, launched in the order stored.
#[derive(Debug)]
pub struct Configuration {
    pub name: String,
    pub executables: Vec<String>,
}

impl View for Configuration {
    type V = ConfigurationView;

    open spec fn view(&self) -> ConfigurationView {
        ConfigurationView { name: self.name@, executables: self.executables@.map_values(|s: String| s@) }
    }
}

impl Configuration {
    pub fn new(configuration_name: &str, executables_list: Vec<String>) -> (r: Configuration)
        ensures
            r@ == (ConfigurationView {
                name: configuration_name@,
                executables: executables_list@.map_values(|s: String| s@),
            }),
    {
        Configuration { name: configuration_name.to_owned(), executables: executables_list }
    }

    /// A field-for-field copy.
    pub fn duplicate(&self) -> (r: Configuration)
        ensures
            r@ == self@,
    {
        let mut members: Vec<String> = Vec::new();
        let mut i: usize = 0;
        while i < self.executables.len()
            invariant
                i <= self.executables.len(),
                members.len() == i,
                forall|j: int| 0 <= j < i ==> members@[j]@ == self.executables@[j]@,
            decreases self.executables.len() - i,
        {
            members.push(self.executables[i].clone());
            i = i + 1;
        }
        assert(members@.map_values(|s: String| s@) =~= self.executables@.map_values(|s: String| s@));
        Configuration { name: self.name.clone(), executables: members }
    }
}

pub open spec fn executables_view(s: Seq<ExecutableData>) -> Seq<ExecutableView> {
    s.map_values(|e: ExecutableData| e@)
}

pub open spec fn configurations_view(s: Seq<Configuration>) -> Seq<ConfigurationView> {
    s.map_values(|c: Configuration| c@)
}

/// The record store: executables by keyword and configurations by name.
#[derive(Debug)]
pub struct FileData {
    num_executables: u8,
    executables: Vec<ExecutableData>,
    configurations: Vec<Configuration>,
}

impl View for FileData {
    type V = StoreView;

    closed spec fn view(&self) -> StoreView {
        StoreView {
            num_executables: self.num_executables as nat,
            executables: executables_view(self.executables@),
            configurations: configurations_view(self.configurations@),
        }
    }
}

impl FileData {
    pub open spec fn wf(&self) -> bool {
        valid_store(self@)
    }

    /// An empty store.
    pub fn new() -> (r: FileData)
        ensures
            r@ == empty_store(),
            r.wf(),
    {
        let r = FileData { num_executables: 0, executables: Vec::new(), configurations: Vec::new() };
        assert(r@.executables =~= Seq::<ExecutableView>::empty());
        assert(r@.configurations =~= Seq::<ConfigurationView>::empty());
        r
    }

    /// Position of the executable with `keyword`, if any.
    fn find_executable(&self, keyword: &String) -> (r: Option<usize>)
        requires
            self.wf(),
        ensures
            match r {
                Some(i) => i < self@.executables.len() && i as int == executable_pos(self@.executables, keyword@)
                    && has_executable(self@.executables, keyword@),
                None => !has_executable(self@.executables, keyword@),
            },
    {
        let ghost ev = self@.executables;
        let mut i: usize = 0;
        while i < self.executables.len()
            invariant
                i <= self.executables.len(),
                ev == self@.executables,
                ev.len() == self.executables.len(),
                keywords_unique(ev),
                forall|j: int| 0 <= j < i ==> ev[j].keyword != keyword@,
            decreases self.executables.len() - i,
        {
            if self.executables[i].keyword == *keyword {
                assert(ev[i as int].keyword == keyword@);
                let ghost p = executable_pos(ev, keyword@);
                assert(0 <= p < ev.len() && ev[p].keyword == keyword@);
                assert(p == i as int) by {
                    assert(keywords_unique(ev));
                    if p != i as int {
                        assert(ev[p].keyword != ev[i as int].keyword);
                    }
                };
                return Some(i);
            }
            i = i + 1;
        }
        None
    }

    /// Number of registered executables.
    pub fn num_executables(&self) -> (r: u8)
        ensures
            r as nat == self@.num_executables,
    {
        self.num_executables
    }

    /// Registers `executable_name` under `keyword`, replacing the record that
    /// held the keyword before; returns the replaced record's display name.
    pub fn add_executable(&mut self, executable_name: &str, keyword: &str) -> (r: Option<String>)
        requires
            old(self).wf(),
            has_executable(old(self)@.executables, keyword@) || old(self)@.num_executables < 255,
        ensures
            final(self).wf(),
            final(self)@ == add_executable_spec(old(self)@, executable_name@, keyword@),
            match r {
                Some(n) => has_executable(old(self)@.executables, keyword@)
                    && n@ == old(self)@.executables[executable_pos(old(self)@.executables, keyword@)].name,
                None => !has_executable(old(self)@.executables, keyword@),
            },
    {
        let rec = ExecutableData::new(executable_name, keyword);
        let ghost old_v = self@;
        let key = keyword.to_owned();
        match self.find_executable(&key) {
            Some(i) => {
                let prev = self.executables[i].name.clone();
                self.executables.set(i, rec);
                assert(self@.executables =~= old_v.executables.update(i as int, rec@));
                assert(self@ == add_executable_spec(old_v, executable_name@, keyword@));
                Some(prev)
            },
            None => {
                self.executables.push(rec);
                self.num_executables = self.num_executables + 1;
                assert(self@.executables =~= old_v.executables.push(rec@));
                assert(self@ == add_executable_spec(old_v, executable_name@, keyword@));
                None
            },
        }
    }
}


impl FileData {
    /// Position of the configuration called `name`, if any.
    fn find_configuration(&self, name: &String) -> (r: Option<usize>)
        requires
            self.wf(),
        ensures
            match r {
                Some(i) => i < self@.configurations.len() && i as int == configuration_pos(self@.configurations, name@)
                    && has_configuration(self@.configurations, name@),
                None => !has_configuration(self@.configurations, name@),
            },
    {
        let ghost cv = self@.configurations;
        let mut i: usize = 0;
        while i < self.configurations.len()
            invariant
                i <= self.configurations.len(),
                cv == self@.configurations,
                cv.len() == self.configurations.len(),
                names_unique(cv),
                forall|j: int| 0 <= j < i ==> cv[j].name != name@,
            decreases self.configurations.len() - i,
        {
            if self.configurations[i].name == *name {
                assert(cv[i as int].name == name@);
                let ghost p = configuration_pos(cv, name@);
                assert(0 <= p < cv.len() && cv[p].name == name@);
                assert(p == i as int) by {
                    if p != i as int {
                        assert(cv[p].name != cv[i as int].name);
                    }
                };
                return Some(i);
            }
            i = i + 1;
        }
        None
    }

    /// Removes the executable registered under `keyword` and returns its display
    /// name; `NotFound`, with the store unchanged, where there is none.
    pub fn remove_executable(&mut self, keyword: &str) -> (r: Result<String, StoreError>)
        requires
            old(self).wf(),
        ensures
            final(self).wf(),
            match remove_executable_spec(old(self)@, keyword@) {
                Ok(v) => r.is_ok() && final(self)@ == v
                    && r.unwrap()@ == old(self)@.executables[executable_pos(old(self)@.executables, keyword@)].name,
                Err(e) => r == Err::<String, StoreError>(e) && final(self)@ == old(self)@,
            },
    {
        let ghost old_v = self@;
        let key = keyword.to_owned();
        match self.find_executable(&key) {
            Some(i) => {
                let rec = self.executables.remove(i);
                self.num_executables = self.num_executables - 1;
                assert(self@.executables =~= old_v.executables.remove(i as int));
                Ok(rec.name)
            },
            None => Err(StoreError::NotFound),
        }
    }

    /// Display name of the executable registered under `keyword`: what the
    /// process launcher is handed.
    pub fn executable_name(&self, keyword: &str) -> (r: Result<String, StoreError>)
        requires
            self.wf(),
        ensures
            has_executable(self@.executables, keyword@) ==> r.is_ok()
                && r.unwrap()@ == self@.executables[executable_pos(self@.executables, keyword@)].name,
            !has_executable(self@.executables, keyword@) ==> r == Err::<String, StoreError>(StoreError::NotFound),
    {
        let key = keyword.to_owned();
        match self.find_executable(&key) {
            Some(i) => Ok(self.executables[i].name.clone()),
            None => Err(StoreError::NotFound),
        }
    }

    /// How often the executable registered under `keyword` was launched.
    pub fn num_times_opened(&self, keyword: &str) -> (r: Result<u16, StoreError>)
        requires
            self.wf(),
        ensures
            has_executable(self@.executables, keyword@) ==> r.is_ok()
                && r.unwrap() as nat == self@.executables[executable_pos(self@.executables, keyword@)].times_opened,
            !has_executable(self@.executables, keyword@) ==> r == Err::<u16, StoreError>(StoreError::NotFound),
    {
        let key = keyword.to_owned();
        match self.find_executable(&key) {
            Some(i) => Ok(self.executables[i].num_times_opened),
            None => Err(StoreError::NotFound),
        }
    }

    /// Records a launch of the executable registered under `keyword`, whose
    /// launcher reported `launched`: the launch count grows by one on success;
    /// `NotFound` or `LaunchFailed` leave the store unchanged.
    pub fn launch_executable(&mut self, keyword: &str, launched: bool) -> (r: Result<(), StoreError>)
        requires
            old(self).wf(),
            has_executable(old(self)@.executables, keyword@) ==>
                old(self)@.executables[executable_pos(old(self)@.executables, keyword@)].times_opened < u16::MAX,
        ensures
            final(self).wf(),
            match launch_executable_spec(old(self)@, keyword@, launched) {
                Ok(v) => r == Ok::<(), StoreError>(()) && final(self)@ == v,
                Err(e) => r == Err::<(), StoreError>(e) && final(self)@ == old(self)@,
            },
    {
        let ghost old_v = self@;
        let key = keyword.to_owned();
        match self.find_executable(&key) {
            Some(i) => {
                if !launched {
                    return Err(StoreError::LaunchFailed);
                }
                let mut rec = self.executables[i].duplicate();
                rec.increment_num_times_opened();
                self.executables.set(i, rec);
                assert(self@.executables =~= old_v.executables.update(
                    i as int,
                    ExecutableView { times_opened: old_v.executables[i as int].times_opened + 1, ..old_v.executables[i as int] },
                ));
                Ok(())
            },
            None => Err(StoreError::NotFound),
        }
    }
}


impl FileData {
    /// Registers configuration `name` with `executables` as its members, in
    /// launch order; `AlreadyExists`, with the store unchanged, where the name
    /// is taken.
    pub fn add_configuration(&mut self, name: &str, executables: Vec<String>) -> (r: Result<(), StoreError>)
        requires
            old(self).wf(),
        ensures
            final(self).wf(),
            match add_configuration_spec(old(self)@, name@, executables@.map_values(|s: String| s@)) {
                Ok(v) => r == Ok::<(), StoreError>(()) && final(self)@ == v,
                Err(e) => r == Err::<(), StoreError>(e) && final(self)@ == old(self)@,
            },
    {
        let ghost old_v = self@;
        let key = name.to_owned();
        match self.find_configuration(&key) {
            Some(_) => Err(StoreError::AlreadyExists),
            None => {
                let c = Configuration::new(name, executables);
                self.configurations.push(c);
                assert(self@.configurations =~= old_v.configurations.push(c@));
                Ok(())
            },
        }
    }

    /// Registers configuration `name` with `executables` as its members,
    /// replacing the configuration of that name; returns whether one was replaced.
    pub fn replace_configuration(&mut self, name: &str, executables: Vec<String>) -> (r: bool)
        requires
            old(self).wf(),
        ensures
            final(self).wf(),
            final(self)@ == replace_configuration_spec(old(self)@, name@, executables@.map_values(|s: String| s@)),
            r == has_configuration(old(self)@.configurations, name@),
    {
        let ghost old_v = self@;
        let key = name.to_owned();
        let c = Configuration::new(name, executables);
        match self.find_configuration(&key) {
            Some(i) => {
                self.configurations.set(i, c);
                assert(self@.configurations =~= old_v.configurations.update(i as int, c@));
                true
            },
            None => {
                self.configurations.push(c);
                assert(self@.configurations =~= old_v.configurations.push(c@));
                false
            },
        }
    }

    /// Removes configuration `name`; `NotFound`, with the store unchanged,
    /// where there is none. Executables are left as they are.
    pub fn remove_configuration(&mut self, name: &str) -> (r: Result<(), StoreError>)
        requires
            old(self).wf(),
        ensures
            final(self).wf(),
            match remove_configuration_spec(old(self)@, name@) {
                Ok(v) => r == Ok::<(), StoreError>(()) && final(self)@ == v,
                Err(e) => r == Err::<(), StoreError>(e) && final(self)@ == old(self)@,
            },
    {
        let ghost old_v = self@;
        let key = name.to_owned();
        match self.find_configuration(&key) {
            Some(i) => {
                let _ = self.configurations.remove(i);
                assert(self@.configurations =~= old_v.configurations.remove(i as int));
                Ok(())
            },
            None => Err(StoreError::NotFound),
        }
    }

    /// The next step of launching configuration `name` after its first
    /// `launched` members were launched: `Some(keyword)` is the member to
    /// launch next, `None` means every member was launched, and `NotFound`
    /// comes for a missing configuration or a next member that resolves to no
    /// executable.
    pub fn launch_configuration(&self, name: &str, launched: usize) -> (r: Result<Option<String>, StoreError>)
        requires
            self.wf(),
        ensures
            match launch_step(self@, name@, launched as nat) {
                Ok(Some(k)) => r.is_ok() && r.unwrap().is_some() && r.unwrap().unwrap()@ == k,
                Ok(None) => r.is_ok() && r.unwrap().is_none(),
                Err(e) => r == Err::<Option<String>, StoreError>(e),
            },
    {
        let key = name.to_owned();
        match self.find_configuration(&key) {
            None => Err(StoreError::NotFound),
            Some(ci) => {
                let members = &self.configurations[ci].executables;
                assert(members@.map_values(|s: String| s@) == self@.configurations[ci as int].executables);
                if launched >= members.len() {
                    Ok(None)
                } else {
                    let member = members[launched].clone();
                    assert(member@ == self@.configurations[ci as int].executables[launched as int]);
                    match self.find_executable(&member) {
                        None => Err(StoreError::NotFound),
                        Some(_) => Ok(Some(member)),
                    }
                }
            },
        }
    }

    /// A snapshot of the executable records, in stored order.
    pub fn list_executables(&self) -> (r: Vec<ExecutableData>)
        ensures
            executables_view(r@) == self@.executables,
    {
        let mut out: Vec<ExecutableData> = Vec::new();
        let mut i: usize = 0;
        while i < self.executables.len()
            invariant
                i <= self.executables.len(),
                out.len() == i,
                forall|j: int| 0 <= j < i ==> out@[j]@ == self.executables@[j]@,
            decreases self.executables.len() - i,
        {
            out.push(self.executables[i].duplicate());
            i = i + 1;
        }
        assert(executables_view(out@) =~= self@.executables);
        out
    }

    /// A snapshot of the configurations, in stored order.
    pub fn list_configurations(&self) -> (r: Vec<Configuration>)
        ensures
            configurations_view(r@) == self@.configurations,
    {
        let mut out: Vec<Configuration> = Vec::new();
        let mut i: usize = 0;
        while i < self.configurations.len()
            invariant
                i <= self.configurations.len(),
                out.len() == i,
                forall|j: int| 0 <= j < i ==> out@[j]@ == self.configurations@[j]@,
            decreases self.configurations.len() - i,
        {
            out.push(self.configurations[i].duplicate());
            i = i + 1;
        }
        assert(configurations_view(out@) =~= self@.configurations);
        out
    }
}


pub open spec fn executable_entries_view(s: Seq<(String, ExecutableData)>) -> Seq<(Seq<char>, ExecutableView)> {
    s.map_values(|p: (String, ExecutableData)| (p.0@, p.1@))
}

pub open spec fn configuration_entries_view(s: Seq<(String, Configuration)>) -> Seq<(Seq<char>, ConfigurationView)> {
    s.map_values(|p: (String, Configuration)| (p.0@, p.1@))
}

impl FileData {
    /// The executable records as persisted, each under its own keyword.
    pub fn executable_entries(&self) -> (r: Vec<(String, ExecutableData)>)
        ensures
            executable_entries_view(r@) == keyed_executables(self@.executables),
    {
        let mut out: Vec<(String, ExecutableData)> = Vec::new();
        let mut i: usize = 0;
        while i < self.executables.len()
            invariant
                i <= self.executables.len(),
                out.len() == i,
                forall|j: int| 0 <= j < i ==> (#[trigger] out@[j]).0@ == self.executables@[j].keyword@
                    && out@[j].1@ == self.executables@[j]@,
            decreases self.executables.len() - i,
        {
            let rec = self.executables[i].duplicate();
            out.push((rec.keyword.clone(), rec));
            i = i + 1;
        }
        assert(executable_entries_view(out@) =~= keyed_executables(self@.executables));
        out
    }

    /// The configurations as persisted, each under its own name.
    pub fn configuration_entries(&self) -> (r: Vec<(String, Configuration)>)
        ensures
            configuration_entries_view(r@) == keyed_configurations(self@.configurations),
    {
        let mut out: Vec<(String, Configuration)> = Vec::new();
        let mut i: usize = 0;
        while i < self.configurations.len()
            invariant
                i <= self.configurations.len(),
                out.len() == i,
                forall|j: int| 0 <= j < i ==> (#[trigger] out@[j]).0@ == self.configurations@[j].name@
                    && out@[j].1@ == self.configurations@[j]@,
            decreases self.configurations.len() - i,
        {
            let c = self.configurations[i].duplicate();
            out.push((c.name.clone(), c));
            i = i + 1;
        }
        assert(configuration_entries_view(out@) =~= keyed_configurations(self@.configurations));
        out
    }

    /// Rebuilds a store from its persisted parts: the executable counter, and
    /// the executable records and configurations each under its key.
    pub fn from_parts(
        num_executables: u8,
        executables: &Vec<(String, ExecutableData)>,
        configurations: &Vec<(String, Configuration)>,
    ) -> (r: Result<FileData, StoreError>)
        ensures
            match decode_store(
                num_executables as nat,
                executable_entries_view(executables@),
                configuration_entries_view(configurations@),
            ) {
                Ok(v) => r.is_ok() && r.unwrap()@ == v && r.unwrap().wf(),
                Err(e) => r.is_err() && r.unwrap_err() == e,
            },
    {
        let ghost ev = executable_entries_view(executables@);
        let ghost cv = configuration_entries_view(configurations@);
        let ghost execs = ev.map_values(|p: (Seq<char>, ExecutableView)| p.1);
        let ghost confs = cv.map_values(|p: (Seq<char>, ConfigurationView)| p.1);
        if executables.len() != num_executables as usize {
            return Err(StoreError::CorruptData);
        }
        let mut store = FileData::new();
        let mut i: usize = 0;
        while i < executables.len()
            invariant
                i <= executables.len(),
                executables.len() == num_executables as usize,
                ev == executable_entries_view(executables@),
                execs == ev.map_values(|p: (Seq<char>, ExecutableView)| p.1),
                store.wf(),
                store@.executables == execs.subrange(0, i as int),
                store@.configurations == Seq::<ConfigurationView>::empty(),
                forall|j: int| 0 <= j < i ==> #[trigger] ev[j].0 == ev[j].1.keyword,
            decreases executables.len() - i,
        {
            let entry = &executables[i];
            if entry.0 != entry.1.keyword {
                assert(ev[i as int].0 != ev[i as int].1.keyword);
                return Err(StoreError::CorruptData);
            }
            if let Some(p) = store.find_executable(&entry.1.keyword) {
                assert(execs[p as int].keyword == execs[i as int].keyword);
                return Err(StoreError::CorruptData);
            }
            let rec = entry.1.duplicate();
            let ghost before = store@.executables;
            store.executables.push(rec);
            store.num_executables = store.num_executables + 1;
            assert(store@.executables =~= before.push(rec@));
            assert(execs.subrange(0, i + 1) =~= execs.subrange(0, i as int).push(execs[i as int]));
            i = i + 1;
        }
        assert(execs.subrange(0, i as int) =~= execs);
        let mut k: usize = 0;
        while k < configurations.len()
            invariant
                k <= configurations.len(),
                cv == configuration_entries_view(configurations@),
                confs == cv.map_values(|p: (Seq<char>, ConfigurationView)| p.1),
                store.wf(),
                store@.executables == execs,
                store@.num_executables == num_executables as nat,
                store@.configurations == confs.subrange(0, k as int),
                forall|j: int| 0 <= j < ev.len() ==> #[trigger] ev[j].0 == ev[j].1.keyword,
                forall|j: int| 0 <= j < k ==> #[trigger] cv[j].0 == cv[j].1.name,
            decreases configurations.len() - k,
        {
            let entry = &configurations[k];
            if entry.0 != entry.1.name {
                assert(cv[k as int].0 != cv[k as int].1.name);
                return Err(StoreError::CorruptData);
            }
            if let Some(p) = store.find_configuration(&entry.1.name) {
                assert(confs[p as int].name == confs[k as int].name);
                return Err(StoreError::CorruptData);
            }
            let c = entry.1.duplicate();
            let ghost before = store@.configurations;
            store.configurations.push(c);
            assert(store@.configurations =~= before.push(c@));
            assert(confs.subrange(0, k + 1) =~= confs.subrange(0, k as int).push(confs[k as int]));
            k = k + 1;
        }
        assert(confs.subrange(0, k as int) =~= confs);
        Ok(store)
    }
}

} // verus!
