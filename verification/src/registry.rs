//! The project registry: projects, application state and per-project
//! settings/statistics. Each table is a keyed sequence owned by the
//! registry value, every operation carries the exact logic of the
//! corresponding update, and the hosting application mirrors changes
//! to its persistence layer.

use vstd::prelude::*;

use crate::strutil::str_eq;

verus! {

/// One registered project.
pub struct Project {
    pub id: i64,
    pub name: String,
    pub path: String,
    pub created_at: u64,
    pub last_accessed: u64,
}

impl Clone for Project {
    fn clone(&self) -> (r: Self)
        ensures
            r == *self,
    {
        Project {
            id: self.id,
            name: self.name.clone(),
            path: self.path.clone(),
            created_at: self.created_at,
            last_accessed: self.last_accessed,
        }
    }
}

/// Counters and ticket statistics of one project.
pub struct ProjectSettings {
    pub project_path: String,
    pub epic_counter: i64,
    pub ticket_counter: i64,
    pub total_epics: i64,
    pub completed_epics: i64,
    pub total_tickets: i64,
    pub backlog_tickets: i64,
    pub inprogress_tickets: i64,
    pub done_tickets: i64,
}

impl Clone for ProjectSettings {
    fn clone(&self) -> (r: Self)
        ensures
            r == *self,
    {
        ProjectSettings {
            project_path: self.project_path.clone(),
            epic_counter: self.epic_counter,
            ticket_counter: self.ticket_counter,
            total_epics: self.total_epics,
            completed_epics: self.completed_epics,
            total_tickets: self.total_tickets,
            backlog_tickets: self.backlog_tickets,
            inprogress_tickets: self.inprogress_tickets,
            done_tickets: self.done_tickets,
        }
    }
}

/// One key/value entry of the application state.
pub struct StateEntry {
    pub key: String,
    pub value: String,
}

impl Clone for StateEntry {
    fn clone(&self) -> (r: Self)
        ensures
            r == *self,
    {
        StateEntry { key: self.key.clone(), value: self.value.clone() }
    }
}

/// Errors of registry operations.
#[derive(Debug, Clone, Copy, PartialEq, Eq, Structural)]
pub enum RegistryError {
    /// A project under that path is already registered.
    DuplicatePath,
    /// The path names no settings row.
    NotFound,
    /// The ticket status names no statistics column.
    InvalidStatus,
}

impl RegistryError {
    /// A human-readable description of the error.
    pub fn message(&self) -> (r: String)
        ensures
            *self is DuplicatePath ==> r@ == "project path already registered"@,
            *self is NotFound ==> r@ == "project settings not found"@,
            *self is InvalidStatus ==> r@ == "invalid ticket status"@,
    {
        match self {
            RegistryError::DuplicatePath => String::from_str("project path already registered"),
            RegistryError::NotFound => String::from_str("project settings not found"),
            RegistryError::InvalidStatus => String::from_str("invalid ticket status"),
        }
    }
}

/// The three ticket statistics columns, as a closed mapping from the
/// status names the callers pass.
#[derive(Debug, Clone, Copy, PartialEq, Eq, Structural)]
pub enum TicketColumn {
    Backlog,
    InProgress,
    Done,
}

/// The statistics column a ticket status name maps to; `None` for any
/// other name.
pub open spec fn spec_ticket_column(s: Seq<char>) -> Option<TicketColumn> {
    if s == "backlog"@ {
        Some(TicketColumn::Backlog)
    } else if s == "in_progress"@ {
        Some(TicketColumn::InProgress)
    } else if s == "done"@ {
        Some(TicketColumn::Done)
    } else {
        None
    }
}

/// Maps a ticket status name to its statistics column.
pub fn ticket_column(s: &str) -> (r: Option<TicketColumn>)
    ensures
        r == spec_ticket_column(s@),
{
    if str_eq(s, "backlog") {
        Some(TicketColumn::Backlog)
    } else if str_eq(s, "in_progress") {
        Some(TicketColumn::InProgress)
    } else if str_eq(s, "done") {
        Some(TicketColumn::Done)
    } else {
        None
    }
}

/// The value a settings row holds in the given column.
pub open spec fn spec_column_value(s: ProjectSettings, c: TicketColumn) -> i64 {
    match c {
        TicketColumn::Backlog => s.backlog_tickets,
        TicketColumn::InProgress => s.inprogress_tickets,
        TicketColumn::Done => s.done_tickets,
    }
}

/// `s` with the given column replaced by `v`.
pub open spec fn spec_with_column(s: ProjectSettings, c: TicketColumn, v: i64) -> ProjectSettings {
    match c {
        TicketColumn::Backlog => ProjectSettings { backlog_tickets: v, ..s },
        TicketColumn::InProgress => ProjectSettings { inprogress_tickets: v, ..s },
        TicketColumn::Done => ProjectSettings { done_tickets: v, ..s },
    }
}

/// The project registry.
pub struct ProjectRegistry {
    pub projects: Vec<Project>,
    pub next_project_id: i64,
    pub app_state: Vec<StateEntry>,
    pub settings: Vec<ProjectSettings>,
}

impl ProjectRegistry {
    /// Whether some project carries the path.
    pub open spec fn has_path(self, path: Seq<char>) -> bool {
        exists|i: int| 0 <= i < self.projects@.len() && self.projects@[i].path@ == path
    }

    /// Whether some project carries the id.
    pub open spec fn has_project_id(self, id: i64) -> bool {
        exists|i: int| 0 <= i < self.projects@.len() && self.projects@[i].id == id
    }

    /// The index of the project carrying the id.
    pub open spec fn project_index(self, id: i64) -> int {
        choose|i: int| 0 <= i < self.projects@.len() && self.projects@[i].id == id
    }

    /// The index of the project carrying the path.
    pub open spec fn path_index(self, path: Seq<char>) -> int {
        choose|i: int| 0 <= i < self.projects@.len() && self.projects@[i].path@ == path
    }

    /// Whether the application state holds the key.
    pub open spec fn has_state(self, key: Seq<char>) -> bool {
        exists|i: int| 0 <= i < self.app_state@.len() && self.app_state@[i].key@ == key
    }

    /// The index of the state entry carrying the key.
    pub open spec fn state_index(self, key: Seq<char>) -> int {
        choose|i: int| 0 <= i < self.app_state@.len() && self.app_state@[i].key@ == key
    }

    /// The value stored under the key.
    pub open spec fn state_value(self, key: Seq<char>) -> Seq<char> {
        self.app_state@[self.state_index(key)].value@
    }

    /// Whether settings exist for the project path.
    pub open spec fn has_settings(self, path: Seq<char>) -> bool {
        exists|i: int| 0 <= i < self.settings@.len() && self.settings@[i].project_path@ == path
    }

    /// The index of the settings row for the path.
    pub open spec fn settings_index(self, path: Seq<char>) -> int {
        choose|i: int| 0 <= i < self.settings@.len() && self.settings@[i].project_path@ == path
    }

    /// The settings row for the path.
    pub open spec fn settings_for(self, path: Seq<char>) -> ProjectSettings {
        self.settings@[self.settings_index(path)]
    }

    /// Well-formedness: project ids and paths unique, project ids below
    /// the next free id, state keys unique, settings paths unique.
    pub open spec fn wf(self) -> bool {
        &&& forall|i: int, j: int|
            0 <= i < j < self.projects@.len() ==> self.projects@[i].id != self.projects@[j].id
        &&& forall|i: int, j: int|
            0 <= i < j < self.projects@.len() ==> self.projects@[i].path@
                != self.projects@[j].path@
        &&& forall|i: int| 0 <= i < self.projects@.len() ==> self.projects@[i].id
            < self.next_project_id
        &&& forall|i: int, j: int|
            0 <= i < j < self.app_state@.len() ==> self.app_state@[i].key@
                != self.app_state@[j].key@
        &&& forall|i: int, j: int|
            0 <= i < j < self.settings@.len() ==> self.settings@[i].project_path@
                != self.settings@[j].project_path@
    }

    /// Under unique ids, a matching project index is the one
    /// `project_index` picks.
    pub proof fn lemma_project_index(self, id: i64, i: int)
        requires
            self.wf(),
            0 <= i < self.projects@.len(),
            self.projects@[i].id == id,
        ensures
            self.project_index(id) == i,
            self.has_project_id(id),
    {
        assert(self.has_project_id(id));
        let j = self.project_index(id);
        if j < i {
            assert(self.projects@[j].id != self.projects@[i].id);
        } else if j > i {
            assert(self.projects@[i].id != self.projects@[j].id);
        }
    }

    /// Under unique paths, a matching project index is the one
    /// `path_index` picks.
    pub proof fn lemma_path_index(self, path: Seq<char>, i: int)
        requires
            self.wf(),
            0 <= i < self.projects@.len(),
            self.projects@[i].path@ == path,
        ensures
            self.path_index(path) == i,
            self.has_path(path),
    {
        assert(self.has_path(path));
        let j = self.path_index(path);
        if j < i {
            assert(self.projects@[j].path@ != self.projects@[i].path@);
        } else if j > i {
            assert(self.projects@[i].path@ != self.projects@[j].path@);
        }
    }

    /// Under unique keys, a matching state index is the one
    /// `state_index` picks.
    pub proof fn lemma_state_index(self, key: Seq<char>, i: int)
        requires
            self.wf(),
            0 <= i < self.app_state@.len(),
            self.app_state@[i].key@ == key,
        ensures
            self.state_index(key) == i,
            self.has_state(key),
    {
        assert(self.has_state(key));
        let j = self.state_index(key);
        if j < i {
            assert(self.app_state@[j].key@ != self.app_state@[i].key@);
        } else if j > i {
            assert(self.app_state@[i].key@ != self.app_state@[j].key@);
        }
    }

    /// Under unique paths, a matching settings index is the one
    /// `settings_index` picks.
    pub proof fn lemma_settings_index(self, path: Seq<char>, i: int)
        requires
            self.wf(),
            0 <= i < self.settings@.len(),
            self.settings@[i].project_path@ == path,
        ensures
            self.settings_index(path) == i,
            self.has_settings(path),
    {
        assert(self.has_settings(path));
        let j = self.settings_index(path);
        if j < i {
            assert(self.settings@[j].project_path@ != self.settings@[i].project_path@);
        } else if j > i {
            assert(self.settings@[i].project_path@ != self.settings@[j].project_path@);
        }
    }

    /// Finds the index of the project carrying the path.
    fn find_path(&self, path: &str) -> (r: Option<usize>)
        requires
            self.wf(),
        ensures
            match r {
                Some(i) => i < self.projects@.len() && self.projects@[i as int].path@ == path@
                    && self.path_index(path@) == i,
                None => !self.has_path(path@),
            },
    {
        let mut k: usize = 0;
        while k < self.projects.len()
            invariant
                self.wf(),
                k <= self.projects@.len(),
                forall|j: int| 0 <= j < k ==> self.projects@[j].path@ != path@,
            decreases self.projects@.len() - k,
        {
            if str_eq(self.projects[k].path.as_str(), path) {
                proof {
                    self.lemma_path_index(path@, k as int);
                }
                return Some(k);
            }
            k += 1;
        }
        None
    }

    /// Finds the index of the project carrying the id.
    fn find_project_id(&self, id: i64) -> (r: Option<usize>)
        requires
            self.wf(),
        ensures
            match r {
                Some(i) => i < self.projects@.len() && self.projects@[i as int].id == id
                    && self.project_index(id) == i,
                None => !self.has_project_id(id),
            },
    {
        let mut k: usize = 0;
        while k < self.projects.len()
            invariant
                self.wf(),
                k <= self.projects@.len(),
                forall|j: int| 0 <= j < k ==> self.projects@[j].id != id,
            decreases self.projects@.len() - k,
        {
            if self.projects[k].id == id {
                proof {
                    self.lemma_project_index(id, k as int);
                }
                return Some(k);
            }
            k += 1;
        }
        None
    }

    /// Finds the index of the state entry carrying the key.
    fn find_state(&self, key: &str) -> (r: Option<usize>)
        requires
            self.wf(),
        ensures
            match r {
                Some(i) => i < self.app_state@.len() && self.app_state@[i as int].key@ == key@
                    && self.state_index(key@) == i,
                None => !self.has_state(key@),
            },
    {
        let mut k: usize = 0;
        while k < self.app_state.len()
            invariant
                self.wf(),
                k <= self.app_state@.len(),
                forall|j: int| 0 <= j < k ==> self.app_state@[j].key@ != key@,
            decreases self.app_state@.len() - k,
        {
            if str_eq(self.app_state[k].key.as_str(), key) {
                proof {
                    self.lemma_state_index(key@, k as int);
                }
                return Some(k);
            }
            k += 1;
        }
        None
    }

    /// Finds the index of the settings row for the path.
    fn find_settings(&self, path: &str) -> (r: Option<usize>)
        requires
            self.wf(),
        ensures
            match r {
                Some(i) => i < self.settings@.len() && self.settings@[i as int].project_path@
                    == path@ && self.settings_index(path@) == i,
                None => !self.has_settings(path@),
            },
    {
        let mut k: usize = 0;
        while k < self.settings.len()
            invariant
                self.wf(),
                k <= self.settings@.len(),
                forall|j: int| 0 <= j < k ==> self.settings@[j].project_path@ != path@,
            decreases self.settings@.len() - k,
        {
            if str_eq(self.settings[k].project_path.as_str(), path) {
                proof {
                    self.lemma_settings_index(path@, k as int);
                }
                return Some(k);
            }
            k += 1;
        }
        None
    }
}

impl ProjectRegistry {
    /// Registers a project: refused when the path is already registered,
    /// otherwise appended under the next free id with both timestamps set
    /// to `now`, and the new record returned.
    pub fn add_project(&mut self, name: &str, path: &str, now: u64) -> (r: Result<
        Project,
        RegistryError,
    >)
        requires
            old(self).wf(),
            old(self).next_project_id < i64::MAX,
        ensures
            final(self).wf(),
            final(self).app_state@ == old(self).app_state@,
            final(self).settings@ == old(self).settings@,
            old(self).has_path(path@) ==> r == Err::<Project, RegistryError>(
                RegistryError::DuplicatePath,
            ) && *final(self) == *old(self),
            !old(self).has_path(path@) ==> {
                &&& r matches Ok(p) && p.id == old(self).next_project_id && p.name@ == name@
                    && p.path@ == path@ && p.created_at == now && p.last_accessed == now
                &&& final(self).projects@ == old(self).projects@.push(r->Ok_0)
                &&& final(self).next_project_id == old(self).next_project_id + 1
            },
    {
        if self.find_path(path).is_some() {
            return Err(RegistryError::DuplicatePath);
        }
        let project = Project {
            id: self.next_project_id,
            name: String::from_str(name),
            path: String::from_str(path),
            created_at: now,
            last_accessed: now,
        };
        let out = project.clone();
        self.projects.push(project);
        self.next_project_id = self.next_project_id + 1;
        proof {
            assert forall|i: int, j: int|
                0 <= i < j < self.projects@.len() implies self.projects@[i].id
                != self.projects@[j].id by {
                if j == self.projects@.len() - 1 {
                    assert(old(self).projects@[i].id < old(self).next_project_id);
                }
            }
            assert forall|i: int, j: int|
                0 <= i < j < self.projects@.len() implies self.projects@[i].path@
                != self.projects@[j].path@ by {
                if j == self.projects@.len() - 1 {
                    assert(old(self).projects@[i].path@ != path@);
                }
            }
        }
        Ok(out)
    }

    /// Returns all registered projects, in registration order.
    pub fn get_all_projects(&self) -> (r: Vec<Project>)
        ensures
            r@.len() == self.projects@.len(),
            forall|i: int| 0 <= i < r@.len() ==> r@[i] == self.projects@[i],
    {
        let mut out: Vec<Project> = Vec::new();
        let mut k: usize = 0;
        while k < self.projects.len()
            invariant
                k <= self.projects@.len(),
                out@.len() == k,
                forall|i: int| 0 <= i < k ==> out@[i] == self.projects@[i],
            decreases self.projects@.len() - k,
        {
            out.push(self.projects[k].clone());
            k += 1;
        }
        out
    }

    /// Returns the project registered under the path, if any.
    pub fn get_project_by_path(&self, path: &str) -> (r: Option<Project>)
        requires
            self.wf(),
        ensures
            match r {
                Some(p) => self.has_path(path@) && p == self.projects@[self.path_index(path@)],
                None => !self.has_path(path@),
            },
    {
        match self.find_path(path) {
            Some(i) => Some(self.projects[i].clone()),
            None => None,
        }
    }

    /// Whether a project is registered under the path.
    pub fn project_path_exists(&self, path: &str) -> (r: bool)
        requires
            self.wf(),
        ensures
            r == self.has_path(path@),
    {
        self.find_path(path).is_some()
    }

    /// Stamps the project's last access at `now`; a registry without the
    /// id is left unchanged.
    pub fn update_last_accessed(&mut self, id: i64, now: u64)
        requires
            old(self).wf(),
        ensures
            final(self).wf(),
            final(self).app_state@ == old(self).app_state@,
            final(self).settings@ == old(self).settings@,
            final(self).next_project_id == old(self).next_project_id,
            !old(self).has_project_id(id) ==> *final(self) == *old(self),
            old(self).has_project_id(id) ==> final(self).projects@ == old(self).projects@.update(
                old(self).project_index(id),
                (Project { last_accessed: now, ..old(self).projects@[old(self).project_index(id)] }),
            ),
    {
        let i = match self.find_project_id(id) {
            Some(i) => i,
            None => {
                return;
            },
        };
        let p = &self.projects[i];
        let updated = Project {
            id: p.id,
            name: p.name.clone(),
            path: p.path.clone(),
            created_at: p.created_at,
            last_accessed: now,
        };
        self.projects.set(i, updated);
    }

    /// Renames the project; a registry without the id is left unchanged.
    pub fn rename_project(&mut self, id: i64, new_name: &str)
        requires
            old(self).wf(),
        ensures
            final(self).wf(),
            final(self).app_state@ == old(self).app_state@,
            final(self).settings@ == old(self).settings@,
            final(self).next_project_id == old(self).next_project_id,
            !old(self).has_project_id(id) ==> *final(self) == *old(self),
            old(self).has_project_id(id) ==> final(self).projects@.len()
                == old(self).projects@.len() && final(self).projects@ == old(
                self,
            ).projects@.update(
                old(self).project_index(id),
                (Project {
                    name: final(self).projects@[old(self).project_index(id)].name,
                    ..old(self).projects@[old(self).project_index(id)]
                }),
            ) && final(self).projects@[old(self).project_index(id)].name@ == new_name@,
    {
        let i = match self.find_project_id(id) {
            Some(i) => i,
            None => {
                return;
            },
        };
        let p = &self.projects[i];
        let updated = Project {
            id: p.id,
            name: String::from_str(new_name),
            path: p.path.clone(),
            created_at: p.created_at,
            last_accessed: p.last_accessed,
        };
        self.projects.set(i, updated);
    }

    /// Removes the project registered under the id; a registry without
    /// the id is left unchanged.
    pub fn remove_project(&mut self, id: i64)
        requires
            old(self).wf(),
        ensures
            final(self).wf(),
            final(self).app_state@ == old(self).app_state@,
            final(self).settings@ == old(self).settings@,
            final(self).next_project_id == old(self).next_project_id,
            !old(self).has_project_id(id) ==> *final(self) == *old(self),
            old(self).has_project_id(id) ==> final(self).projects@ == old(self).projects@.remove(
                old(self).project_index(id),
            ),
    {
        let i = match self.find_project_id(id) {
            Some(i) => i,
            None => {
                return;
            },
        };
        self.projects.remove(i);
        proof {
            let oldp = old(self).projects@;
            assert forall|a: int, b: int|
                0 <= a < b < self.projects@.len() implies self.projects@[a].id
                != self.projects@[b].id && self.projects@[a].path@ != self.projects@[b].path@ by {
                let oa = if a < i { a } else { a + 1 };
                let ob = if b < i { b } else { b + 1 };
                assert(self.projects@[a] == oldp[oa]);
                assert(self.projects@[b] == oldp[ob]);
            }
        }
    }

    /// Stores a value under a key, replacing any existing value.
    pub fn set_app_state(&mut self, key: &str, value: &str)
        requires
            old(self).wf(),
        ensures
            final(self).wf(),
            final(self).projects@ == old(self).projects@,
            final(self).settings@ == old(self).settings@,
            final(self).next_project_id == old(self).next_project_id,
            final(self).has_state(key@),
            final(self).state_value(key@) == value@,
            old(self).has_state(key@) ==> {
                &&& final(self).app_state@.len() == old(self).app_state@.len()
                &&& forall|j: int|
                    0 <= j < old(self).app_state@.len() && j != old(self).state_index(key@)
                        ==> final(self).app_state@[j] == old(self).app_state@[j]
            },
            !old(self).has_state(key@) ==> {
                &&& final(self).app_state@.len() == old(self).app_state@.len() + 1
                &&& forall|j: int|
                    0 <= j < old(self).app_state@.len() ==> final(self).app_state@[j] == old(
                        self,
                    ).app_state@[j]
            },
    {
        let entry = StateEntry { key: String::from_str(key), value: String::from_str(value) };
        match self.find_state(key) {
            Some(i) => {
                self.app_state.set(i, entry);
                proof {
                    self.lemma_state_index(key@, i as int);
                }
            },
            None => {
                self.app_state.push(entry);
                proof {
                    let n = old(self).app_state@.len() as int;
                    assert forall|a: int, b: int|
                        0 <= a < b < self.app_state@.len() implies self.app_state@[a].key@
                        != self.app_state@[b].key@ by {
                        if b == n {
                            assert(old(self).app_state@[a].key@ != key@);
                        }
                    }
                    self.lemma_state_index(key@, n);
                }
            },
        }
    }

    /// Returns the value stored under the key, if any.
    pub fn get_app_state(&self, key: &str) -> (r: Option<String>)
        requires
            self.wf(),
        ensures
            match r {
                Some(v) => self.has_state(key@) && v@ == self.state_value(key@),
                None => !self.has_state(key@),
            },
    {
        match self.find_state(key) {
            Some(i) => Some(self.app_state[i].value.clone()),
            None => None,
        }
    }

    /// Creates the settings row of a project with the given initial
    /// counters and zeroed statistics; an existing row is kept untouched.
    pub fn init_project_settings(&mut self, project_path: &str, epic_count: i64, ticket_count: i64)
        requires
            old(self).wf(),
        ensures
            final(self).wf(),
            final(self).projects@ == old(self).projects@,
            final(self).app_state@ == old(self).app_state@,
            final(self).next_project_id == old(self).next_project_id,
            old(self).has_settings(project_path@) ==> *final(self) == *old(self),
            !old(self).has_settings(project_path@) ==> {
                &&& final(self).settings@.len() == old(self).settings@.len() + 1
                &&& forall|j: int|
                    0 <= j < old(self).settings@.len() ==> final(self).settings@[j] == old(
                        self,
                    ).settings@[j]
                &&& final(self).has_settings(project_path@)
                &&& final(self).settings_for(project_path@).project_path@ == project_path@
                &&& final(self).settings_for(project_path@).epic_counter == epic_count
                &&& final(self).settings_for(project_path@).ticket_counter == ticket_count
                &&& final(self).settings_for(project_path@).total_epics == 0
                &&& final(self).settings_for(project_path@).completed_epics == 0
                &&& final(self).settings_for(project_path@).total_tickets == 0
                &&& final(self).settings_for(project_path@).backlog_tickets == 0
                &&& final(self).settings_for(project_path@).inprogress_tickets == 0
                &&& final(self).settings_for(project_path@).done_tickets == 0
            },
    {
        if self.find_settings(project_path).is_some() {
            return;
        }
        let row = ProjectSettings {
            project_path: String::from_str(project_path),
            epic_counter: epic_count,
            ticket_counter: ticket_count,
            total_epics: 0,
            completed_epics: 0,
            total_tickets: 0,
            backlog_tickets: 0,
            inprogress_tickets: 0,
            done_tickets: 0,
        };
        self.settings.push(row);
        proof {
            let n = old(self).settings@.len() as int;
            assert forall|a: int, b: int|
                0 <= a < b < self.settings@.len() implies self.settings@[a].project_path@
                != self.settings@[b].project_path@ by {
                if b == n {
                    assert(old(self).settings@[a].project_path@ != project_path@);
                }
            }
            self.lemma_settings_index(project_path@, n);
        }
    }

    /// Returns the settings row of a project, if any.
    pub fn get_project_settings(&self, project_path: &str) -> (r: Option<ProjectSettings>)
        requires
            self.wf(),
        ensures
            match r {
                Some(s) => self.has_settings(project_path@) && s == self.settings_for(
                    project_path@,
                ),
                None => !self.has_settings(project_path@),
            },
    {
        match self.find_settings(project_path) {
            Some(i) => Some(self.settings[i].clone()),
            None => None,
        }
    }

    /// Advances the epic counter of a project and returns the new value;
    /// a project without a settings row is `NotFound`.
    pub fn get_and_increment_epic_counter(&mut self, project_path: &str) -> (r: Result<
        i64,
        RegistryError,
    >)
        requires
            old(self).wf(),
            old(self).has_settings(project_path@) ==> old(self).settings_for(
                project_path@,
            ).epic_counter < i64::MAX,
        ensures
            final(self).wf(),
            final(self).projects@ == old(self).projects@,
            final(self).app_state@ == old(self).app_state@,
            !old(self).has_settings(project_path@) ==> r == Err::<i64, RegistryError>(
                RegistryError::NotFound,
            ) && *final(self) == *old(self),
            old(self).has_settings(project_path@) ==> {
                &&& r == Ok::<i64, RegistryError>(
                    (old(self).settings_for(project_path@).epic_counter + 1) as i64,
                )
                &&& final(self).settings@ == old(self).settings@.update(
                    old(self).settings_index(project_path@),
                    (ProjectSettings {
                        epic_counter: ((old(self).settings_for(project_path@).epic_counter
                            + 1) as i64),
                        ..old(self).settings_for(project_path@)
                    }),
                )
            },
    {
        let i = match self.find_settings(project_path) {
            Some(i) => i,
            None => {
                return Err(RegistryError::NotFound);
            },
        };
        let s = &self.settings[i];
        let next = s.epic_counter + 1;
        let updated = ProjectSettings { epic_counter: next, ..s.clone() };
        self.settings.set(i, updated);
        Ok(next)
    }

    /// Advances the ticket counter of a project and returns the new
    /// value; a project without a settings row is `NotFound`.
    pub fn get_and_increment_ticket_counter(&mut self, project_path: &str) -> (r: Result<
        i64,
        RegistryError,
    >)
        requires
            old(self).wf(),
            old(self).has_settings(project_path@) ==> old(self).settings_for(
                project_path@,
            ).ticket_counter < i64::MAX,
        ensures
            final(self).wf(),
            final(self).projects@ == old(self).projects@,
            final(self).app_state@ == old(self).app_state@,
            !old(self).has_settings(project_path@) ==> r == Err::<i64, RegistryError>(
                RegistryError::NotFound,
            ) && *final(self) == *old(self),
            old(self).has_settings(project_path@) ==> {
                &&& r == Ok::<i64, RegistryError>(
                    (old(self).settings_for(project_path@).ticket_counter + 1) as i64,
                )
                &&& final(self).settings@ == old(self).settings@.update(
                    old(self).settings_index(project_path@),
                    (ProjectSettings {
                        ticket_counter: ((old(self).settings_for(project_path@).ticket_counter
                            + 1) as i64),
                        ..old(self).settings_for(project_path@)
                    }),
                )
            },
    {
        let i = match self.find_settings(project_path) {
            Some(i) => i,
            None => {
                return Err(RegistryError::NotFound);
            },
        };
        let s = &self.settings[i];
        let next = s.ticket_counter + 1;
        let updated = ProjectSettings { ticket_counter: next, ..s.clone() };
        self.settings.set(i, updated);
        Ok(next)
    }

    /// Sets both counters of a project's settings row; a project without
    /// a row is left unchanged.
    pub fn update_project_counters(&mut self, project_path: &str, epic_counter: i64, ticket_counter: i64)
        requires
            old(self).wf(),
        ensures
            final(self).wf(),
            final(self).projects@ == old(self).projects@,
            final(self).app_state@ == old(self).app_state@,
            !old(self).has_settings(project_path@) ==> *final(self) == *old(self),
            old(self).has_settings(project_path@) ==> final(self).settings@ == old(
                self,
            ).settings@.update(
                old(self).settings_index(project_path@),
                (ProjectSettings {
                    epic_counter: epic_counter,
                    ticket_counter: ticket_counter,
                    ..old(self).settings_for(project_path@)
                }),
            ),
    {
        let i = match self.find_settings(project_path) {
            Some(i) => i,
            None => {
                return;
            },
        };
        let s = &self.settings[i];
        let updated = ProjectSettings { epic_counter, ticket_counter, ..s.clone() };
        self.settings.set(i, updated);
    }

    /// Counts one more epic in a project's statistics; a project without
    /// a settings row is left unchanged.
    pub fn increment_epic_stats(&mut self, project_path: &str)
        requires
            old(self).wf(),
            old(self).has_settings(project_path@) ==> old(self).settings_for(
                project_path@,
            ).total_epics < i64::MAX,
        ensures
            final(self).wf(),
            final(self).projects@ == old(self).projects@,
            final(self).app_state@ == old(self).app_state@,
            !old(self).has_settings(project_path@) ==> *final(self) == *old(self),
            old(self).has_settings(project_path@) ==> final(self).settings@ == old(
                self,
            ).settings@.update(
                old(self).settings_index(project_path@),
                (ProjectSettings {
                    total_epics: ((old(self).settings_for(project_path@).total_epics + 1) as i64),
                    ..old(self).settings_for(project_path@)
                }),
            ),
    {
        let i = match self.find_settings(project_path) {
            Some(i) => i,
            None => {
                return;
            },
        };
        let s = &self.settings[i];
        let updated = ProjectSettings { total_epics: s.total_epics + 1, ..s.clone() };
        self.settings.set(i, updated);
    }

    /// Counts one more ticket under the given status: the total and the
    /// status's column both advance. A status naming no column is
    /// refused; a project without a settings row is left unchanged.
    pub fn increment_ticket_stats(&mut self, project_path: &str, status: &str) -> (r: Result<
        (),
        RegistryError,
    >)
        requires
            old(self).wf(),
            old(self).has_settings(project_path@) ==> {
                &&& old(self).settings_for(project_path@).total_tickets < i64::MAX
                &&& old(self).settings_for(project_path@).backlog_tickets < i64::MAX
                &&& old(self).settings_for(project_path@).inprogress_tickets < i64::MAX
                &&& old(self).settings_for(project_path@).done_tickets < i64::MAX
            },
        ensures
            final(self).wf(),
            final(self).projects@ == old(self).projects@,
            final(self).app_state@ == old(self).app_state@,
            spec_ticket_column(status@) is None ==> r == Err::<(), RegistryError>(
                RegistryError::InvalidStatus,
            ) && *final(self) == *old(self),
            spec_ticket_column(status@) is Some && !old(self).has_settings(project_path@) ==> r
                == Ok::<(), RegistryError>(()) && *final(self) == *old(self),
            spec_ticket_column(status@) is Some && old(self).has_settings(project_path@) ==> {
                &&& r == Ok::<(), RegistryError>(())
                &&& final(self).settings@ == old(self).settings@.update(
                    old(self).settings_index(project_path@),
                    spec_with_column(
                        (ProjectSettings {
                            total_tickets: ((old(self).settings_for(
                                project_path@,
                            ).total_tickets + 1) as i64),
                            ..old(self).settings_for(project_path@)
                        }),
                        spec_ticket_column(status@)->Some_0,
                        (spec_column_value(
                            old(self).settings_for(project_path@),
                            spec_ticket_column(status@)->Some_0,
                        ) + 1) as i64,
                    ),
                )
            },
    {
        let col = match ticket_column(status) {
            Some(c) => c,
            None => {
                return Err(RegistryError::InvalidStatus);
            },
        };
        let i = match self.find_settings(project_path) {
            Some(i) => i,
            None => {
                return Ok(());
            },
        };
        let s = &self.settings[i];
        let bumped = ProjectSettings { total_tickets: s.total_tickets + 1, ..s.clone() };
        let updated = match col {
            TicketColumn::Backlog => ProjectSettings {
                backlog_tickets: bumped.backlog_tickets + 1,
                ..bumped
            },
            TicketColumn::InProgress => ProjectSettings {
                inprogress_tickets: bumped.inprogress_tickets + 1,
                ..bumped
            },
            TicketColumn::Done => ProjectSettings {
                done_tickets: bumped.done_tickets + 1,
                ..bumped
            },
        };
        self.settings.set(i, updated);
        Ok(())
    }

    /// Moves one ticket between statistics columns: the old status's
    /// column goes down, the new one's up. Equal statuses change nothing;
    /// a status naming no column is refused; a project without a settings
    /// row is left unchanged.
    pub fn update_ticket_status_stats(
        &mut self,
        project_path: &str,
        old_status: &str,
        new_status: &str,
    ) -> (r: Result<(), RegistryError>)
        requires
            old(self).wf(),
            old(self).has_settings(project_path@) ==> {
                &&& old(self).settings_for(project_path@).backlog_tickets > i64::MIN
                &&& old(self).settings_for(project_path@).inprogress_tickets > i64::MIN
                &&& old(self).settings_for(project_path@).done_tickets > i64::MIN
                &&& old(self).settings_for(project_path@).backlog_tickets < i64::MAX
                &&& old(self).settings_for(project_path@).inprogress_tickets < i64::MAX
                &&& old(self).settings_for(project_path@).done_tickets < i64::MAX
            },
        ensures
            final(self).wf(),
            final(self).projects@ == old(self).projects@,
            final(self).app_state@ == old(self).app_state@,
            old_status@ == new_status@ ==> r == Ok::<(), RegistryError>(()) && *final(self)
                == *old(self),
            old_status@ != new_status@ && (spec_ticket_column(old_status@) is None
                || spec_ticket_column(new_status@) is None) ==> r == Err::<(), RegistryError>(
                RegistryError::InvalidStatus,
            ) && *final(self) == *old(self),
            old_status@ != new_status@ && spec_ticket_column(old_status@) is Some
                && spec_ticket_column(new_status@) is Some && !old(self).has_settings(
                project_path@,
            ) ==> r == Ok::<(), RegistryError>(()) && *final(self) == *old(self),
            old_status@ != new_status@ && spec_ticket_column(old_status@) is Some
                && spec_ticket_column(new_status@) is Some && old(self).has_settings(
                project_path@,
            ) ==> {
                &&& r == Ok::<(), RegistryError>(())
                &&& final(self).settings@ == old(self).settings@.update(
                    old(self).settings_index(project_path@),
                    spec_with_column(
                        spec_with_column(
                            old(self).settings_for(project_path@),
                            spec_ticket_column(old_status@)->Some_0,
                            (spec_column_value(
                                old(self).settings_for(project_path@),
                                spec_ticket_column(old_status@)->Some_0,
                            ) - 1) as i64,
                        ),
                        spec_ticket_column(new_status@)->Some_0,
                        (spec_column_value(
                            old(self).settings_for(project_path@),
                            spec_ticket_column(new_status@)->Some_0,
                        ) + 1) as i64,
                    ),
                )
            },
    {
        if str_eq(old_status, new_status) {
            return Ok(());
        }
        let old_col = match ticket_column(old_status) {
            Some(c) => c,
            None => {
                return Err(RegistryError::InvalidStatus);
            },
        };
        let new_col = match ticket_column(new_status) {
            Some(c) => c,
            None => {
                return Err(RegistryError::InvalidStatus);
            },
        };
        let i = match self.find_settings(project_path) {
            Some(i) => i,
            None => {
                return Ok(());
            },
        };
        let s = &self.settings[i];
        let lowered = match old_col {
            TicketColumn::Backlog => ProjectSettings {
                backlog_tickets: s.backlog_tickets - 1,
                ..s.clone()
            },
            TicketColumn::InProgress => ProjectSettings {
                inprogress_tickets: s.inprogress_tickets - 1,
                ..s.clone()
            },
            TicketColumn::Done => ProjectSettings { done_tickets: s.done_tickets - 1, ..s.clone() },
        };
        let updated = match new_col {
            TicketColumn::Backlog => ProjectSettings {
                backlog_tickets: lowered.backlog_tickets + 1,
                ..lowered
            },
            TicketColumn::InProgress => ProjectSettings {
                inprogress_tickets: lowered.inprogress_tickets + 1,
                ..lowered
            },
            TicketColumn::Done => ProjectSettings {
                done_tickets: lowered.done_tickets + 1,
                ..lowered
            },
        };
        self.settings.set(i, updated);
        Ok(())
    }

    /// Adds a (possibly negative) delta to a project's completed-epics
    /// count; a project without a settings row is left unchanged.
    pub fn update_epic_completion_stats(&mut self, project_path: &str, completed_delta: i64)
        requires
            old(self).wf(),
            old(self).has_settings(project_path@) ==> {
                &&& old(self).settings_for(project_path@).completed_epics + completed_delta
                    <= i64::MAX
                &&& old(self).settings_for(project_path@).completed_epics + completed_delta
                    >= i64::MIN
            },
        ensures
            final(self).wf(),
            final(self).projects@ == old(self).projects@,
            final(self).app_state@ == old(self).app_state@,
            !old(self).has_settings(project_path@) ==> *final(self) == *old(self),
            old(self).has_settings(project_path@) ==> final(self).settings@ == old(
                self,
            ).settings@.update(
                old(self).settings_index(project_path@),
                (ProjectSettings {
                    completed_epics: ((old(self).settings_for(project_path@).completed_epics
                        + completed_delta) as i64),
                    ..old(self).settings_for(project_path@)
                }),
            ),
    {
        let i = match self.find_settings(project_path) {
            Some(i) => i,
            None => {
                return;
            },
        };
        let s = &self.settings[i];
        let updated = ProjectSettings {
            completed_epics: s.completed_epics + completed_delta,
            ..s.clone()
        };
        self.settings.set(i, updated);
    }

    /// Writes a freshly computed statistics summary into a project's
    /// settings row, leaving the id counters untouched; a project
    /// without a row is left unchanged.
    pub fn set_project_stats(&mut self, project_path: &str, stats: &crate::stats::StatsSummary)
        requires
            old(self).wf(),
        ensures
            final(self).wf(),
            final(self).projects@ == old(self).projects@,
            final(self).app_state@ == old(self).app_state@,
            !old(self).has_settings(project_path@) ==> *final(self) == *old(self),
            old(self).has_settings(project_path@) ==> final(self).settings@ == old(
                self,
            ).settings@.update(
                old(self).settings_index(project_path@),
                (ProjectSettings {
                    total_epics: stats.total_epics,
                    completed_epics: stats.completed_epics,
                    total_tickets: stats.total_tickets,
                    backlog_tickets: stats.backlog_tickets,
                    inprogress_tickets: stats.inprogress_tickets,
                    done_tickets: stats.done_tickets,
                    ..old(self).settings_for(project_path@)
                }),
            ),
    {
        let i = match self.find_settings(project_path) {
            Some(i) => i,
            None => {
                return;
            },
        };
        let s = &self.settings[i];
        let updated = ProjectSettings {
            total_epics: stats.total_epics,
            completed_epics: stats.completed_epics,
            total_tickets: stats.total_tickets,
            backlog_tickets: stats.backlog_tickets,
            inprogress_tickets: stats.inprogress_tickets,
            done_tickets: stats.done_tickets,
            ..s.clone()
        };
        self.settings.set(i, updated);
    }

    /// Stores the backup path of a project, under the state key
    /// `backup_path:<project_path>`.
    pub fn set_backup_path(&mut self, project_path: &str, backup_path: &str)
        requires
            old(self).wf(),
        ensures
            final(self).wf(),
            final(self).projects@ == old(self).projects@,
            final(self).settings@ == old(self).settings@,
            final(self).has_state("backup_path:"@ + project_path@),
            final(self).state_value("backup_path:"@ + project_path@) == backup_path@,
    {
        let mut key = String::from_str("backup_path:");
        key.append(project_path);
        self.set_app_state(key.as_str(), backup_path);
    }

    /// Returns the stored backup path of a project, if any.
    pub fn get_backup_path(&self, project_path: &str) -> (r: Option<String>)
        requires
            self.wf(),
        ensures
            match r {
                Some(v) => self.has_state("backup_path:"@ + project_path@) && v@
                    == self.state_value("backup_path:"@ + project_path@),
                None => !self.has_state("backup_path:"@ + project_path@),
            },
    {
        let mut key = String::from_str("backup_path:");
        key.append(project_path);
        self.get_app_state(key.as_str())
    }
}

/// Creates an empty registry.
pub fn init_database() -> (r: ProjectRegistry)
    ensures
        r.wf(),
        r.projects@.len() == 0,
        r.app_state@.len() == 0,
        r.settings@.len() == 0,
        r.next_project_id == 1,
{
    ProjectRegistry {
        projects: Vec::new(),
        next_project_id: 1,
        app_state: Vec::new(),
        settings: Vec::new(),
    }
}

} // verus!
